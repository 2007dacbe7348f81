//! The `uv` executable: where it is, what it is run with, what it answers.

use vstd::prelude::*;

use crate::decode::{decode, decoded};
use crate::error::EnvError;
use crate::path::{get_python_dir, python_dir, Base, Location, LocationView};
use crate::text::{join, joined, trim, trimmed};

verus! {

/// The file name of the `uv` that ships beside the launcher.
pub const UV_SIDECAR: &'static str = "uv.exe";

/// The environment variable that names a `uv` to be used before any other.
pub const UV_EXECUTABLE: &'static str = "UV_EXECUTABLE";

/// Which `uv` is used.
#[derive(Clone, Copy, Debug, PartialEq, Eq, Structural)]
pub enum UvExe {
    /// The one that `UV_EXECUTABLE` names.
    Explicit,
    /// The one beside the launcher.
    Sidecar,
    /// The one on the search path.
    OnPath,
}

/// How far the search for `uv` has come.
#[derive(Clone, Copy, Debug, PartialEq, Eq, Structural)]
pub enum LocateStep {
    /// To be looked at: whether `UV_EXECUTABLE` names a file.
    AskExplicit,
    /// To be looked at: whether there is a `uv.exe` beside the launcher.
    AskSidecar,
    /// To be tried: whether `uv --version` on the search path succeeds.
    AskPath,
    /// The search has ended with a `uv`.
    Found(UvExe),
    /// The search has ended without any.
    NotFound,
}

/// What the search does next, once it is known whether what it asked for is
/// there.
pub open spec fn locate_next(step: LocateStep, there: bool) -> LocateStep {
    match step {
        LocateStep::AskExplicit => if there {
            LocateStep::Found(UvExe::Explicit)
        } else {
            LocateStep::AskSidecar
        },
        LocateStep::AskSidecar => if there {
            LocateStep::Found(UvExe::Sidecar)
        } else {
            LocateStep::AskPath
        },
        LocateStep::AskPath => if there {
            LocateStep::Found(UvExe::OnPath)
        } else {
            LocateStep::NotFound
        },
        LocateStep::Found(uv) => LocateStep::Found(uv),
        LocateStep::NotFound => LocateStep::NotFound,
    }
}

/// Takes the search for `uv` one step on. It begins at `AskExplicit`.
pub fn locate_uv(step: LocateStep, there: bool) -> (r: LocateStep)
    ensures
        r == locate_next(step, there),
{
    match step {
        LocateStep::AskExplicit => if there {
            LocateStep::Found(UvExe::Explicit)
        } else {
            LocateStep::AskSidecar
        },
        LocateStep::AskSidecar => if there {
            LocateStep::Found(UvExe::Sidecar)
        } else {
            LocateStep::AskPath
        },
        LocateStep::AskPath => if there {
            LocateStep::Found(UvExe::OnPath)
        } else {
            LocateStep::NotFound
        },
        LocateStep::Found(uv) => LocateStep::Found(uv),
        LocateStep::NotFound => LocateStep::NotFound,
    }
}

/// Where the search ends, given what is there.
pub open spec fn located(explicit: bool, sidecar: bool, on_path: bool) -> LocateStep {
    locate_next(
        locate_next(locate_next(LocateStep::AskExplicit, explicit), sidecar),
        on_path,
    )
}

/// The search prefers the named `uv` to the one beside the launcher, and that
/// one to the one on the search path; it fails only where there is none of
/// them.
pub proof fn law_locate_prefers(explicit: bool, sidecar: bool, on_path: bool)
    ensures
        explicit ==> located(explicit, sidecar, on_path) == LocateStep::Found(UvExe::Explicit),
        !explicit && sidecar ==> located(explicit, sidecar, on_path) == LocateStep::Found(
            UvExe::Sidecar,
        ),
        !explicit && !sidecar && on_path ==> located(explicit, sidecar, on_path)
            == LocateStep::Found(UvExe::OnPath),
        located(explicit, sidecar, on_path) == LocateStep::NotFound <==> !explicit && !sidecar
            && !on_path,
{
}

/// The part of the launcher's configuration that `uv` is run with.
#[derive(Debug, PartialEq, Eq)]
pub struct Config {
    /// The cache directory, if one is configured.
    pub cache_dir: Option<String>,
    /// The mirror to download interpreters from, if one is configured.
    pub python_source: Option<String>,
    /// The package index, if one is configured.
    pub pip_index_url: Option<String>,
    /// The package index for GPU builds of torch.
    pub torch_index_url: String,
}

/// An argument of a command, or a value in its environment.
#[derive(Debug, PartialEq, Eq)]
pub enum Arg {
    /// A plain text.
    Text(String),
    /// A path.
    Path(Location),
}

/// An argument in specifications.
pub enum ArgView {
    Text(Seq<char>),
    Path(LocationView),
}

impl DeepView for Arg {
    type V = ArgView;

    open spec fn deep_view(&self) -> ArgView {
        match self {
            Arg::Text(text) => ArgView::Text(text@),
            Arg::Path(location) => ArgView::Path(location@),
        }
    }
}

/// A variable in the environment of a command.
#[derive(Debug, PartialEq, Eq)]
pub struct EnvVar {
    pub name: String,
    pub value: Arg,
}

/// An environment variable in specifications.
pub struct EnvVarView {
    pub name: Seq<char>,
    pub value: ArgView,
}

impl DeepView for EnvVar {
    type V = EnvVarView;

    open spec fn deep_view(&self) -> EnvVarView {
        EnvVarView { name: self.name@, value: self.value.deep_view() }
    }
}

/// An optional variable: there if it has a value.
pub open spec fn optional_var(name: Seq<char>, value: Option<String>) -> Seq<EnvVarView> {
    match value {
        Some(text) => seq![EnvVarView { name, value: ArgView::Text(text@) }],
        None => Seq::empty(),
    }
}

/// The environment of every run of `uv` for an application: its install root,
/// and, where a configuration is loaded, the cache directory and the mirror
/// that it names.
pub open spec fn uv_env_vars(app_name: Seq<char>, config: Option<&Config>) -> Seq<EnvVarView> {
    let root = seq![
        EnvVarView {
            name: "UV_PYTHON_INSTALL_DIR"@,
            value: ArgView::Path(python_dir(app_name)),
        },
    ];
    match config {
        Some(config) => root + optional_var("UV_CACHE_DIR"@, config.cache_dir) + optional_var(
            "UV_PYTHON_INSTALL_MIRROR"@,
            config.python_source,
        ),
        None => root,
    }
}

/// The environment of every run of `uv` for an application.
pub fn uv_env(app_name: &str, config: Option<&Config>) -> (r: Vec<EnvVar>)
    ensures
        r.deep_view() == uv_env_vars(app_name@, config),
{
    let mut r: Vec<EnvVar> = Vec::new();
    r.push(
        EnvVar {
            name: "UV_PYTHON_INSTALL_DIR".to_owned(),
            value: Arg::Path(get_python_dir(app_name)),
        },
    );
    if let Some(config) = config {
        if let Some(cache_dir) = &config.cache_dir {
            r.push(
                EnvVar { name: "UV_CACHE_DIR".to_owned(), value: Arg::Text(cache_dir.clone()) },
            );
        }
        if let Some(source) = &config.python_source {
            r.push(
                EnvVar {
                    name: "UV_PYTHON_INSTALL_MIRROR".to_owned(),
                    value: Arg::Text(source.clone()),
                },
            );
        }
    }
    assert(r.deep_view() =~= uv_env_vars(app_name@, config));
    r
}

/// Every run of `uv` for an application begins its environment with that
/// application's own install root, and sets no variable twice.
pub proof fn law_uv_env(app_name: Seq<char>, config: Option<&Config>)
    ensures
        ({
            let vars = uv_env_vars(app_name, config);
            &&& vars.len() > 0
            &&& vars[0].name == "UV_PYTHON_INSTALL_DIR"@
            &&& vars[0].value == ArgView::Path(python_dir(app_name))
            &&& forall|i: int, j: int|
                0 <= i < j < vars.len() ==> #[trigger] vars[i].name != #[trigger] vars[j].name
        }),
{
    reveal_strlit("UV_PYTHON_INSTALL_DIR");
    reveal_strlit("UV_CACHE_DIR");
    reveal_strlit("UV_PYTHON_INSTALL_MIRROR");
    assert("UV_PYTHON_INSTALL_DIR"@.len() == 21);
    assert("UV_CACHE_DIR"@.len() == 12);
    assert("UV_PYTHON_INSTALL_MIRROR"@.len() == 24);
}

/// A run of `uv`.
#[derive(Debug, PartialEq, Eq)]
pub struct UvCommand {
    pub program: UvExe,
    pub args: Vec<Arg>,
    pub envs: Vec<EnvVar>,
}

/// A run of `uv` in specifications.
#[verifier::ext_equal]
pub struct UvCommandView {
    pub program: UvExe,
    pub args: Seq<ArgView>,
    pub envs: Seq<EnvVarView>,
}

impl View for UvCommand {
    type V = UvCommandView;

    open spec fn view(&self) -> UvCommandView {
        UvCommandView {
            program: self.program,
            args: self.args.deep_view(),
            envs: self.envs.deep_view(),
        }
    }
}

/// A run of `uv` for an application.
pub fn uv_command(
    uv: UvExe,
    app_name: &str,
    args: Vec<Arg>,
    config: Option<&Config>,
) -> (r: UvCommand)
    ensures
        r@ == (UvCommandView {
            program: uv,
            args: args.deep_view(),
            envs: uv_env_vars(app_name@, config),
        }),
{
    UvCommand { program: uv, args, envs: uv_env(app_name, config) }
}

/// What a process that has ended left behind.
#[derive(Debug, PartialEq, Eq)]
pub struct CommandOutput {
    pub success: bool,
    pub stdout: Vec<u8>,
    pub stderr: Vec<u8>,
}

/// What is made of the output of a `uv` run that was to be captured: what it
/// printed, or, where it failed, what it complained about.
pub fn captured(app_name: &str, args: &Vec<String>, success: bool, stdout: &str, stderr: &str) -> (r:
    Result<String, EnvError>)
    ensures
        match r {
            Ok(text) => success && text@ == trimmed(stdout@),
            Err(e) => !success && (e matches EnvError::UvFailed { args: a, app_name: n, stderr: s }
                && a@ == joined(args.deep_view(), " "@) && n@ == app_name@ && s@ == trimmed(
                stderr@,
            )),
        },
{
    if !success {
        return Err(
            EnvError::UvFailed {
                args: join(args, " "),
                app_name: app_name.to_owned(),
                stderr: trim(stderr).to_owned(),
            },
        );
    }
    Ok(trim(stdout).to_owned())
}

/// The result of a `uv` run that was to be captured, from its output, or from
/// there being none because `uv` could not be started.
pub fn run_uv_capture(app_name: &str, args: &Vec<String>, output: Option<&CommandOutput>) -> (r:
    Result<String, EnvError>)
    ensures
        match output {
            None => r matches Err(EnvError::UvNotRun { args: a, app_name: n }) && a@ == joined(
                args.deep_view(),
                " "@,
            ) && n@ == app_name@,
            Some(output) => match r {
                Ok(text) => output.success && text@ == trimmed(decoded(output.stdout@)),
                Err(e) => !output.success && (e matches EnvError::UvFailed {
                    args: a,
                    app_name: n,
                    stderr: s,
                } && a@ == joined(args.deep_view(), " "@) && n@ == app_name@ && s@ == trimmed(
                    decoded(output.stderr@),
                )),
            },
        },
{
    match output {
        None => Err(
            EnvError::UvNotRun { args: join(args, " "), app_name: app_name.to_owned() },
        ),
        Some(output) => {
            let stdout = decode(&output.stdout);
            let stderr = decode(&output.stderr);
            captured(app_name, args, output.success, stdout.as_str(), stderr.as_str())
        },
    }
}

/// The variable is set, and to this value alone.
pub open spec fn is_set_to(vars: Seq<EnvVarView>, name: Seq<char>, value: ArgView) -> bool {
    &&& vars.contains(EnvVarView { name, value })
    &&& forall|i: int|
        0 <= i < vars.len() && (#[trigger] vars[i]).name == name ==> vars[i].value == value
}

/// No such variable is set.
pub open spec fn is_unset(vars: Seq<EnvVarView>, name: Seq<char>) -> bool {
    forall|i: int| 0 <= i < vars.len() ==> (#[trigger] vars[i]).name != name
}

/// Each configured value reaches `uv`, whatever else is configured: the cache
/// directory and the mirror are set exactly where they are configured, to what
/// they are configured as. The install root is always set, and nothing else ever
/// is.
pub proof fn law_configured_values_reach_uv(app_name: Seq<char>, config: Option<&Config>)
    ensures
        ({
            let vars = uv_env_vars(app_name, config);
            let root = LocationView {
                base: Base::WorkingDir,
                joins: seq!["data"@, "apps"@, app_name, "python"@],
            };
            &&& is_set_to(vars, "UV_PYTHON_INSTALL_DIR"@, ArgView::Path(root))
            &&& match config {
                Some(Config { cache_dir: Some(dir), .. }) => is_set_to(
                    vars,
                    "UV_CACHE_DIR"@,
                    ArgView::Text(dir@),
                ),
                _ => is_unset(vars, "UV_CACHE_DIR"@),
            }
            &&& match config {
                Some(Config { python_source: Some(source), .. }) => is_set_to(
                    vars,
                    "UV_PYTHON_INSTALL_MIRROR"@,
                    ArgView::Text(source@),
                ),
                _ => is_unset(vars, "UV_PYTHON_INSTALL_MIRROR"@),
            }
            &&& forall|i: int|
                0 <= i < vars.len() ==> (#[trigger] vars[i]).name == "UV_PYTHON_INSTALL_DIR"@
                    || vars[i].name == "UV_CACHE_DIR"@ || vars[i].name
                    == "UV_PYTHON_INSTALL_MIRROR"@
        }),
{
    law_uv_env(app_name, config);
    reveal_strlit("UV_PYTHON_INSTALL_DIR");
    reveal_strlit("UV_CACHE_DIR");
    reveal_strlit("UV_PYTHON_INSTALL_MIRROR");
    assert("UV_PYTHON_INSTALL_DIR"@.len() == 21);
    assert("UV_CACHE_DIR"@.len() == 12);
    assert("UV_PYTHON_INSTALL_MIRROR"@.len() == 24);
    let vars = uv_env_vars(app_name, config);
    let root = LocationView {
        base: Base::WorkingDir,
        joins: seq!["data"@, "apps"@, app_name, "python"@],
    };
    assert(python_dir(app_name) =~= root);
    assert(vars[0] == EnvVarView {
        name: "UV_PYTHON_INSTALL_DIR"@,
        value: ArgView::Path(root),
    });
    if let Some(config) = config {
        if let Some(dir) = config.cache_dir {
            assert(vars[1] == EnvVarView { name: "UV_CACHE_DIR"@, value: ArgView::Text(dir@) });
        }
        if let Some(source) = config.python_source {
            assert(vars.last() == EnvVarView {
                name: "UV_PYTHON_INSTALL_MIRROR"@,
                value: ArgView::Text(source@),
            });
        }
    }
}

/// A search that has ended stays where it ended. What it asks for is the variable
/// `UV_EXECUTABLE`, then a file `uv.exe`.
pub proof fn law_search_ends(uv: UvExe, there: bool)
    ensures
        UV_EXECUTABLE@ == "UV_EXECUTABLE"@,
        UV_SIDECAR@ == "uv.exe"@,
        locate_next(LocateStep::Found(uv), there) == LocateStep::Found(uv),
        locate_next(LocateStep::NotFound, there) == LocateStep::NotFound,
{
}

} // verus!
