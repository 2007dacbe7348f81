//! Installing an application's requirements with `uv pip install`.

use vstd::prelude::*;

use crate::error::EnvError;
use crate::path::{at, get_python_exe, python_exe, Base, Listed, Location, LocationView};
use crate::pip_args::{has_index_option, names_index, translate_pip_args, translated_args};
use crate::python_env::Platform;
use crate::text::{ends_with, words};
use crate::uv::{uv_command, uv_env_vars, Arg, ArgView, Config, UvCommand, UvCommandView, UvExe};

verus! {

/// The file that marks an installation in a project directory as begun and not
/// yet finished.
pub const PIP_UPDATE_NEEDED_MARKER: &'static str = ".pip_update_needed.tmp";

/// How far an installation has come.
#[derive(Clone, Copy, Debug, PartialEq, Eq, Structural)]
pub enum InstallStep {
    /// To be looked at: whether the interpreter is a file.
    CheckPython,
    /// To be looked at: whether the project directory is a directory.
    CheckProject,
    /// To be looked at: whether the configuration is loaded.
    ReadConfig,
    /// To be looked for: `uv`.
    FindUv,
    /// To be looked at: whether the requirements file is a file.
    CheckRequirements,
    /// To be done: leaving the marker.
    LeaveMarker,
    /// To be done: running `uv`.
    RunUv,
    /// To be done: taking the marker away.
    TakeMarker,
    /// The requirements are installed.
    Installed,
    /// The installation has failed.
    Failed(InstallFault),
}

/// Why an installation failed.
#[derive(Clone, Copy, Debug, PartialEq, Eq, Structural)]
pub enum InstallFault {
    /// Not on this platform.
    Unsupported,
    /// The interpreter is no file.
    NoPython,
    /// The project directory is no directory.
    NoProject,
    /// The configuration is not loaded.
    NoConfig,
    /// There is no `uv`.
    NoUv,
    /// The requirements file is no file.
    NoRequirements,
    /// `uv` failed, or was cancelled.
    UvFailed,
}

/// Begins an installation, which is possible on Windows alone.
pub fn install_requirements(platform: Platform) -> (r: InstallStep)
    ensures
        platform is Windows ==> r == InstallStep::CheckPython,
        platform is Other ==> r == InstallStep::Failed(InstallFault::Unsupported),
{
    match platform {
        Platform::Windows => InstallStep::CheckPython,
        Platform::Other => InstallStep::Failed(InstallFault::Unsupported),
    }
}

/// The step after a check that passed or failed with `fault`.
pub open spec fn checked(ok: bool, next: InstallStep, fault: InstallFault) -> InstallStep {
    if ok {
        next
    } else {
        InstallStep::Failed(fault)
    }
}

/// What an installation does next, once it is known whether its last step
/// succeeded. `from_file` says whether the requirements are listed in a file.
/// Whether the marker could be left or taken makes no difference.
pub open spec fn install_next(step: InstallStep, from_file: bool, ok: bool) -> InstallStep {
    match step {
        InstallStep::CheckPython => checked(ok, InstallStep::CheckProject, InstallFault::NoPython),
        InstallStep::CheckProject => checked(ok, InstallStep::ReadConfig, InstallFault::NoProject),
        InstallStep::ReadConfig => checked(ok, InstallStep::FindUv, InstallFault::NoConfig),
        InstallStep::FindUv => checked(
            ok,
            if from_file {
                InstallStep::CheckRequirements
            } else {
                InstallStep::LeaveMarker
            },
            InstallFault::NoUv,
        ),
        InstallStep::CheckRequirements => checked(
            ok,
            InstallStep::LeaveMarker,
            InstallFault::NoRequirements,
        ),
        InstallStep::LeaveMarker => InstallStep::RunUv,
        InstallStep::RunUv => checked(ok, InstallStep::TakeMarker, InstallFault::UvFailed),
        InstallStep::TakeMarker => InstallStep::Installed,
        InstallStep::Installed => step,
        InstallStep::Failed(_) => step,
    }
}

/// Takes an installation one step on.
pub fn install_step(step: InstallStep, from_file: bool, ok: bool) -> (r: InstallStep)
    ensures
        r == install_next(step, from_file, ok),
{
    let (next, fault) = match step {
        InstallStep::CheckPython => (InstallStep::CheckProject, InstallFault::NoPython),
        InstallStep::CheckProject => (InstallStep::ReadConfig, InstallFault::NoProject),
        InstallStep::ReadConfig => (InstallStep::FindUv, InstallFault::NoConfig),
        InstallStep::FindUv => if from_file {
            (InstallStep::CheckRequirements, InstallFault::NoUv)
        } else {
            (InstallStep::LeaveMarker, InstallFault::NoUv)
        },
        InstallStep::CheckRequirements => (InstallStep::LeaveMarker, InstallFault::NoRequirements),
        InstallStep::RunUv => (InstallStep::TakeMarker, InstallFault::UvFailed),
        InstallStep::LeaveMarker => {
            return InstallStep::RunUv;
        },
        InstallStep::TakeMarker => {
            return InstallStep::Installed;
        },
        InstallStep::Installed => {
            return step;
        },
        InstallStep::Failed(_) => {
            return step;
        },
    };
    if ok {
        next
    } else {
        InstallStep::Failed(fault)
    }
}

/// The error of a failed installation. `shown` is how the path that was looked
/// at is shown. Where `uv` itself failed, its run has the error.
pub fn install_error(fault: InstallFault, shown: &str) -> (r: Option<EnvError>)
    ensures
        match fault {
            InstallFault::Unsupported => r == Some(EnvError::InstallUnsupported),
            InstallFault::NoPython => r matches Some(EnvError::ManagedPythonMissing(s)) && s@
                == shown@,
            InstallFault::NoProject => r matches Some(EnvError::ProjectDirMissing(s)) && s@
                == shown@,
            InstallFault::NoConfig => r == Some(EnvError::ConfigMissing),
            InstallFault::NoUv => r == Some(EnvError::UvNotFound),
            InstallFault::NoRequirements => r matches Some(EnvError::RequirementsMissing(s)) && s@
                == shown@,
            InstallFault::UvFailed => r is None,
        },
{
    match fault {
        InstallFault::Unsupported => Some(EnvError::InstallUnsupported),
        InstallFault::NoPython => Some(EnvError::ManagedPythonMissing(shown.to_owned())),
        InstallFault::NoProject => Some(EnvError::ProjectDirMissing(shown.to_owned())),
        InstallFault::NoConfig => Some(EnvError::ConfigMissing),
        InstallFault::NoUv => Some(EnvError::UvNotFound),
        InstallFault::NoRequirements => Some(EnvError::RequirementsMissing(shown.to_owned())),
        InstallFault::UvFailed => None,
    }
}

/// The requirements are listed in a file.
pub open spec fn is_from_file(requirements: Seq<char>) -> bool {
    ".txt"@.is_suffix_of(requirements)
}

/// Whether the requirements are listed in a file.
pub fn from_file(requirements: &str) -> (r: bool)
    ensures
        r == is_from_file(requirements@),
{
    ends_with(requirements, ".txt")
}

/// Where the file with the requirements is.
pub fn requirements_path(requirements: &str) -> (r: Location)
    ensures
        r@ == at(Base::ProjectDir).join(requirements@),
{
    Location::at(Base::ProjectDir).join(requirements)
}

/// Where the marker is.
pub fn marker_path() -> (r: Location)
    ensures
        r@ == at(Base::ProjectDir).join(PIP_UPDATE_NEEDED_MARKER@),
{
    Location::at(Base::ProjectDir).join(PIP_UPDATE_NEEDED_MARKER)
}

/// How the installation is described to the user. `path_shown` is how the path
/// of the requirements file is shown.
pub fn install_description(requirements: &str, path_shown: &str) -> (r: String)
    ensures
        r@ == if is_from_file(requirements@) {
            "uv pip install -r "@ + path_shown@
        } else {
            "uv pip install "@ + requirements@
        },
{
    if from_file(requirements) {
        let mut r = "uv pip install -r ".to_owned();
        r.append(path_shown);
        r
    } else {
        let mut r = "uv pip install ".to_owned();
        r.append(requirements);
        r
    }
}

/// Plain texts as arguments.
pub open spec fn text_args(texts: Seq<Seq<char>>) -> Seq<ArgView> {
    texts.map_values(|text: Seq<char>| ArgView::Text(text))
}

/// The arguments that say what to install.
pub open spec fn source_args(requirements: Seq<char>) -> Seq<ArgView> {
    if is_from_file(requirements) {
        seq![ArgView::Text("-r"@), ArgView::Path(at(Base::ProjectDir).join(requirements))]
    } else {
        seq![ArgView::Text(requirements)]
    }
}

/// The arguments that name the configured package index: none where the profile
/// names an index of its own, or where none is configured.
pub open spec fn index_args(pip_args: Seq<char>, index_url: Option<String>) -> Seq<ArgView> {
    match index_url {
        Some(url) if !names_index(pip_args) => seq![
            ArgView::Text("--index-url"@),
            ArgView::Text(url@),
        ],
        _ => Seq::empty(),
    }
}

/// The arguments of the `uv` run that installs the requirements.
pub open spec fn install_args(
    requirements: Seq<char>,
    pip_args: Seq<char>,
    python: LocationView,
    config: Config,
) -> Seq<ArgView> {
    seq![ArgView::Text("pip"@), ArgView::Text("install"@)] + text_args(
        translated_args(pip_args, config.torch_index_url@),
    ) + source_args(requirements) + seq![ArgView::Text("--python"@), ArgView::Path(python)]
        + index_args(pip_args, config.pip_index_url)
}

/// The `uv` run that installs the requirements of an application, whose install
/// root has the given entries.
pub fn install_command(
    app_name: &str,
    requirements: &str,
    pip_args: &str,
    uv: UvExe,
    entries: &Vec<Listed>,
    config: &Config,
) -> (r: UvCommand)
    ensures
        r@ == (UvCommandView {
            program: uv,
            args: install_args(
                requirements@,
                pip_args@,
                python_exe(app_name@, false, entries@),
                *config,
            ),
            envs: uv_env_vars(app_name@, Some(config)),
        }),
{
    let mut args: Vec<Arg> = Vec::new();
    args.push(Arg::Text("pip".to_owned()));
    args.push(Arg::Text("install".to_owned()));
    let ghost lead = seq![ArgView::Text("pip"@), ArgView::Text("install"@)];
    assert(args.deep_view() =~= lead);
    let translated = translate_pip_args(pip_args, config.torch_index_url.as_str());
    let ghost texts = translated.deep_view();
    let mut i: usize = 0;
    assert(lead + text_args(texts.take(0)) =~= lead);
    while i < translated.len()
        invariant
            i <= translated.len(),
            texts == translated.deep_view(),
            args.deep_view() == lead + text_args(texts.take(i as int)),
        decreases translated.len() - i,
    {
        let ghost done = args.deep_view();
        args.push(Arg::Text(translated[i].clone()));
        proof {
            assert(args.deep_view() =~= done.push(ArgView::Text(texts[i as int])));
            assert(text_args(texts.take(i + 1)) =~= text_args(texts.take(i as int)).push(
                ArgView::Text(texts[i as int]),
            ));
        }
        i = i + 1;
    }
    assert(texts.take(i as int) == texts);
    let ghost with_pip_args = args.deep_view();
    if from_file(requirements) {
        args.push(Arg::Text("-r".to_owned()));
        args.push(Arg::Path(requirements_path(requirements)));
    } else {
        args.push(Arg::Text(requirements.to_owned()));
    }
    assert(args.deep_view() =~= with_pip_args + source_args(requirements@));
    let ghost with_source = args.deep_view();
    args.push(Arg::Text("--python".to_owned()));
    args.push(Arg::Path(get_python_exe(app_name, false, entries)));
    let ghost python = python_exe(app_name@, false, entries@);
    assert(args.deep_view() =~= with_source + seq![
        ArgView::Text("--python"@),
        ArgView::Path(python),
    ]);
    let ghost with_python = args.deep_view();
    if let Some(url) = &config.pip_index_url {
        if !has_index_option(pip_args) {
            args.push(Arg::Text("--index-url".to_owned()));
            args.push(Arg::Text(url.clone()));
        }
    }
    assert(args.deep_view() =~= with_python + index_args(pip_args@, config.pip_index_url));
    assert(args.deep_view() =~= install_args(requirements@, pip_args@, python, *config));
    uv_command(uv, app_name, args, Some(config))
}

/// The `uv` run that a step of an installation asks for: at `RunUv` the one that
/// installs the requirements, at any other step none.
pub fn install_due(
    step: InstallStep,
    app_name: &str,
    requirements: &str,
    pip_args: &str,
    uv: UvExe,
    entries: &Vec<Listed>,
    config: &Config,
) -> (r: Option<UvCommand>)
    ensures
        match r {
            Some(run) => step is RunUv && run@ == (UvCommandView {
                program: uv,
                args: install_args(
                    requirements@,
                    pip_args@,
                    python_exe(app_name@, false, entries@),
                    *config,
                ),
                envs: uv_env_vars(app_name@, Some(config)),
            }),
            None => !(step is RunUv),
        },
{
    match step {
        InstallStep::RunUv => Some(
            install_command(app_name, requirements, pip_args, uv, entries, config),
        ),
        _ => None,
    }
}

/// Where a step of an installation looks, or leaves or takes the marker.
pub open spec fn place_at(
    step: InstallStep,
    app_name: Seq<char>,
    requirements: Seq<char>,
    entries: Seq<Listed>,
) -> Option<LocationView> {
    match step {
        InstallStep::CheckPython => Some(python_exe(app_name, false, entries)),
        InstallStep::CheckProject => Some(at(Base::ProjectDir)),
        InstallStep::CheckRequirements => Some(at(Base::ProjectDir).join(requirements)),
        InstallStep::LeaveMarker => Some(at(Base::ProjectDir).join(PIP_UPDATE_NEEDED_MARKER@)),
        InstallStep::TakeMarker => Some(at(Base::ProjectDir).join(PIP_UPDATE_NEEDED_MARKER@)),
        _ => None,
    }
}

/// Where a step of an installation looks, or leaves or takes the marker, given
/// the entries of the install root.
pub fn install_place(
    step: InstallStep,
    app_name: &str,
    requirements: &str,
    entries: &Vec<Listed>,
) -> (r: Option<Location>)
    ensures
        match r {
            Some(place) => place_at(step, app_name@, requirements@, entries@) == Some(place@),
            None => place_at(step, app_name@, requirements@, entries@) is None,
        },
{
    match step {
        InstallStep::CheckPython => Some(get_python_exe(app_name, false, entries)),
        InstallStep::CheckProject => Some(Location::at(Base::ProjectDir)),
        InstallStep::CheckRequirements => Some(requirements_path(requirements)),
        InstallStep::LeaveMarker => Some(marker_path()),
        InstallStep::TakeMarker => Some(marker_path()),
        _ => None,
    }
}

/// The interpreter that an installation checks is the one that its `uv` run
/// installs into.
pub proof fn law_checked_interpreter_is_installed_into(
    app_name: Seq<char>,
    requirements: Seq<char>,
    pip_args: Seq<char>,
    entries: Seq<Listed>,
    config: Config,
)
    ensures
        ({
            let args = install_args(
                requirements,
                pip_args,
                python_exe(app_name, false, entries),
                config,
            );
            exists|k: int|
                0 <= k < args.len() - 1 && args[k] == ArgView::Text("--python"@) && (#[trigger] args[k
                    + 1] matches ArgView::Path(python) && place_at(
                    InstallStep::CheckPython,
                    app_name,
                    requirements,
                    entries,
                ) == Some(python))
        }),
{
    law_install_is_uv_pip_install(
        requirements,
        pip_args,
        python_exe(app_name, false, entries),
        config,
    );
}

/// An installation on Windows after the given outcomes of its steps.
pub open spec fn install_after(from_file: bool, outcomes: Seq<bool>) -> InstallStep
    decreases outcomes.len(),
{
    if outcomes.len() == 0 {
        InstallStep::CheckPython
    } else {
        install_next(
            install_after(from_file, outcomes.drop_last()),
            from_file,
            outcomes.last(),
        )
    }
}

/// The position of the `uv` run among the steps.
pub open spec fn run_position(from_file: bool) -> int {
    if from_file {
        6
    } else {
        5
    }
}

/// All checks passed: interpreter, project directory, configuration and `uv`
/// are there, and the requirements file is, where there is to be one.
pub open spec fn all_checks_passed(from_file: bool, outcomes: Seq<bool>) -> bool {
    outcomes[0] && outcomes[1] && outcomes[2] && outcomes[3] && (from_file ==> outcomes[4])
}

/// What is known at each step of an installation: `uv` runs only when every
/// check has passed and the marker was to be left just before; the marker is
/// taken away only when `uv` has succeeded; and each fault comes exactly from
/// the first step that failed.
pub proof fn law_install_progress(from_file: bool, outcomes: Seq<bool>)
    ensures
        match install_after(from_file, outcomes) {
            InstallStep::CheckPython => outcomes.len() == 0,
            InstallStep::CheckProject => outcomes.len() == 1 && outcomes[0],
            InstallStep::ReadConfig => outcomes.len() == 2 && outcomes[0] && outcomes[1],
            InstallStep::FindUv => outcomes.len() == 3 && outcomes[0] && outcomes[1]
                && outcomes[2],
            InstallStep::CheckRequirements => from_file && outcomes.len() == 4 && outcomes[0]
                && outcomes[1] && outcomes[2] && outcomes[3],
            InstallStep::LeaveMarker => outcomes.len() == run_position(from_file) - 1
                && all_checks_passed(from_file, outcomes),
            InstallStep::RunUv => outcomes.len() == run_position(from_file) && all_checks_passed(
                from_file,
                outcomes,
            ) && install_after(from_file, outcomes.drop_last()) is LeaveMarker,
            InstallStep::TakeMarker => outcomes.len() == run_position(from_file) + 1
                && all_checks_passed(from_file, outcomes) && outcomes.last(),
            InstallStep::Installed => outcomes.len() > run_position(from_file) + 1
                && all_checks_passed(from_file, outcomes) && outcomes[run_position(from_file)],
            InstallStep::Failed(InstallFault::Unsupported) => false,
            InstallStep::Failed(InstallFault::NoPython) => outcomes.len() > 0 && !outcomes[0],
            InstallStep::Failed(InstallFault::NoProject) => outcomes.len() > 1 && outcomes[0]
                && !outcomes[1],
            InstallStep::Failed(InstallFault::NoConfig) => outcomes.len() > 2 && outcomes[0]
                && outcomes[1] && !outcomes[2],
            InstallStep::Failed(InstallFault::NoUv) => outcomes.len() > 3 && outcomes[0]
                && outcomes[1] && outcomes[2] && !outcomes[3],
            InstallStep::Failed(InstallFault::NoRequirements) => from_file && outcomes.len() > 4
                && outcomes[0] && outcomes[1] && outcomes[2] && outcomes[3] && !outcomes[4],
            InstallStep::Failed(InstallFault::UvFailed) => outcomes.len() > run_position(from_file)
                && all_checks_passed(from_file, outcomes) && !outcomes[run_position(from_file)],
        },
    decreases outcomes.len(),
{
    if outcomes.len() > 0 {
        law_install_progress(from_file, outcomes.drop_last());
    }
}

/// An installation that has gone through its steps is complete if and only if
/// every check passed and `uv` succeeded; otherwise it has failed.
pub proof fn law_install_outcome(from_file: bool, outcomes: Seq<bool>)
    requires
        outcomes.len() > run_position(from_file) + 1,
    ensures
        install_after(from_file, outcomes) is Installed || install_after(
            from_file,
            outcomes,
        ) is Failed,
        install_after(from_file, outcomes) is Installed <==> all_checks_passed(
            from_file,
            outcomes,
        ) && outcomes[run_position(from_file)],
{
    law_install_progress(from_file, outcomes);
}

/// The marker outlives an unsuccessful run: once `uv` has failed or was
/// cancelled, the installation has failed and never comes to taking the marker
/// away, so the next start finds it.
pub proof fn law_marker_outlives_failure(
    from_file: bool,
    outcomes: Seq<bool>,
    later: Seq<bool>,
)
    requires
        install_after(from_file, outcomes) is RunUv,
    ensures
        install_after(from_file, outcomes.push(false) + later) == InstallStep::Failed(
            InstallFault::UvFailed,
        ),
    decreases later.len(),
{
    if later.len() == 0 {
        assert(outcomes.push(false) + later =~= outcomes.push(false));
        assert(outcomes.push(false).drop_last() =~= outcomes);
    } else {
        let all = outcomes.push(false) + later;
        assert(all.drop_last() =~= outcomes.push(false) + later.drop_last());
        law_marker_outlives_failure(from_file, outcomes, later.drop_last());
    }
}

/// The configured package index is passed on where the profile names none of
/// its own, and never where it does.
pub proof fn law_profile_index_wins(pip_args: Seq<char>, index_url: Option<String>)
    ensures
        names_index(pip_args) ==> index_args(pip_args, index_url).len() == 0,
        !names_index(pip_args) && index_url is Some ==> index_args(pip_args, index_url) == seq![
            ArgView::Text("--index-url"@),
            ArgView::Text(index_url->0@),
        ],
        index_url is None ==> index_args(pip_args, index_url).len() == 0,
{
}

/// Every installation is a `uv pip install` into the interpreter that it was
/// made for.
pub proof fn law_install_is_uv_pip_install(
    requirements: Seq<char>,
    pip_args: Seq<char>,
    python: LocationView,
    config: Config,
)
    ensures
        ({
            let args = install_args(requirements, pip_args, python, config);
            &&& args.len() >= 4
            &&& args[0] == ArgView::Text("pip"@)
            &&& args[1] == ArgView::Text("install"@)
            &&& exists|k: int|
                1 < k < args.len() - 1 && args[k] == ArgView::Text("--python"@) && #[trigger] args[k
                    + 1] == ArgView::Path(python)
        }),
{
    let args = install_args(requirements, pip_args, python, config);
    let lead = seq![ArgView::Text("pip"@), ArgView::Text("install"@)] + text_args(
        translated_args(pip_args, config.torch_index_url@),
    ) + source_args(requirements);
    let k = lead.len() as int;
    assert(args[k] == ArgView::Text("--python"@));
    assert(args[k + 1] == ArgView::Path(python));
}

/// The requirements are listed in a file if and only if they are some text with
/// `.txt` at its end.
pub proof fn law_file_by_its_ending(requirements: Seq<char>)
    ensures
        is_from_file(requirements) <==> exists|lead: Seq<char>|
            requirements == #[trigger] (lead + ".txt"@),
{
    let ending = ".txt"@;
    if is_from_file(requirements) {
        let n = requirements.len() - ending.len();
        assert(requirements =~= requirements.take(n) + ending);
    }
    if exists|lead: Seq<char>| requirements == #[trigger] (lead + ".txt"@) {
        let lead = choose|lead: Seq<char>| requirements == #[trigger] (lead + ".txt"@);
        assert(requirements.subrange(lead.len() as int, requirements.len() as int) =~= ending);
    }
}

/// Every installation says what is to be installed, and in what order, whatever
/// the profile passes on: `pip install`, the profile's arguments one by one, then
/// `-r` and the file in the project directory or the requirement itself, then the
/// interpreter, and last the configured index where the profile names none.
pub proof fn law_install_says_what_to_install(
    requirements: Seq<char>,
    pip_args: Seq<char>,
    python: LocationView,
    config: Config,
)
    ensures
        ({
            let args = install_args(requirements, pip_args, python, config);
            let passed = translated_args(pip_args, config.torch_index_url@);
            let n = passed.len() as int;
            let from_file = ".txt"@.is_suffix_of(requirements);
            let k = if from_file {
                n + 4
            } else {
                n + 3
            };
            let own_index = words(pip_args).contains("--index-url"@) || words(pip_args).contains(
                "-i"@,
            );
            &&& args.len() >= k + 2
            &&& args[0] == ArgView::Text("pip"@)
            &&& args[1] == ArgView::Text("install"@)
            &&& forall|i: int| 0 <= i < n ==> args[2 + i] == ArgView::Text(#[trigger] passed[i])
            &&& from_file ==> args[n + 2] == ArgView::Text("-r"@) && args[n + 3] == ArgView::Path(
                LocationView { base: Base::ProjectDir, joins: seq![requirements] },
            )
            &&& !from_file ==> args[n + 2] == ArgView::Text(requirements)
            &&& args[k] == ArgView::Text("--python"@)
            &&& args[k + 1] == ArgView::Path(python)
            &&& match config.pip_index_url {
                Some(url) if !own_index => args.len() == k + 4 && args[k + 2] == ArgView::Text(
                    "--index-url"@,
                ) && args[k + 3] == ArgView::Text(url@),
                _ => args.len() == k + 2,
            }
        }),
{
    let args = install_args(requirements, pip_args, python, config);
    let passed = translated_args(pip_args, config.torch_index_url@);
    let n = passed.len() as int;
    assert(at(Base::ProjectDir).join(requirements).joins =~= seq![requirements]);
    assert forall|i: int| 0 <= i < n implies args[2 + i] == ArgView::Text(#[trigger] passed[i]) by {
        assert(text_args(passed)[i] == ArgView::Text(passed[i]));
    }
}

/// Where each step of an installation looks: at the interpreter, the project
/// directory, the file in it that lists the requirements, and the marker in it.
pub proof fn law_install_places(
    app_name: Seq<char>,
    requirements: Seq<char>,
    entries: Seq<Listed>,
    fault: InstallFault,
)
    ensures
        ({
            let place = |step: InstallStep| place_at(step, app_name, requirements, entries);
            let marker = LocationView {
                base: Base::ProjectDir,
                joins: seq![".pip_update_needed.tmp"@],
            };
            &&& place(InstallStep::CheckPython) == Some(python_exe(app_name, false, entries))
            &&& place(InstallStep::CheckProject) == Some(
                LocationView { base: Base::ProjectDir, joins: Seq::empty() },
            )
            &&& place(InstallStep::CheckRequirements) == Some(
                LocationView { base: Base::ProjectDir, joins: seq![requirements] },
            )
            &&& place(InstallStep::LeaveMarker) == Some(marker)
            &&& place(InstallStep::TakeMarker) == Some(marker)
            &&& place(InstallStep::ReadConfig) is None
            &&& place(InstallStep::FindUv) is None
            &&& place(InstallStep::RunUv) is None
            &&& place(InstallStep::Installed) is None
            &&& place(InstallStep::Failed(fault)) is None
        }),
{
    assert(at(Base::ProjectDir).join(requirements).joins =~= seq![requirements]);
    assert(at(Base::ProjectDir).join(".pip_update_needed.tmp"@).joins =~= seq![
        ".pip_update_needed.tmp"@,
    ]);
}

/// An installation that has ended stays as it ended.
pub proof fn law_install_ends(fault: InstallFault, from_file: bool, ok: bool)
    ensures
        install_next(InstallStep::Installed, from_file, ok) == InstallStep::Installed,
        install_next(InstallStep::Failed(fault), from_file, ok) == InstallStep::Failed(fault),
{
}

} // verus!
