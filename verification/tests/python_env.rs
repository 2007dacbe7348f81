use pyappify::error::EnvError;
use pyappify::path::{Base, Listed, Location};
use pyappify::python_env::{
    ensure_due, ensure_python_via_uv, get_python_version_from_exe, is_uv_managed_python,
    pinned_python_exe, python_install_args, python_install_description, reported_version,
    resolve_uv_python_exe, setup_python_env, EnsureDue, EnsureStep, Platform, VersionProbe,
};
use pyappify::uv::{Arg, CommandOutput};

fn listed(name: &str, has_python_exe: bool) -> Listed {
    Listed {
        name: name.to_string(),
        has_python_exe,
    }
}

fn exe_in(i: usize) -> Location {
    Location {
        base: Base::Entry(i),
        joins: vec!["python.exe".to_string()],
    }
}

fn ran(success: bool, stdout: &[u8]) -> VersionProbe {
    VersionProbe::Ran(CommandOutput {
        success,
        stdout: stdout.to_vec(),
        stderr: Vec::new(),
    })
}

#[test]
fn the_newest_patch_of_the_wanted_minor_is_resolved() {
    let entries = vec![
        listed("cpython-3.12.9-windows-x86_64-none", true),
        listed("cpython-3.12.10-windows-x86_64-none", true),
        listed("cpython-3.12.11-windows-x86_64-none", false),
        listed("cpython-3.13.1-windows-x86_64-none", true),
        listed("cpython-x-y", true),
        listed("other-3.12.99", true),
    ];
    assert_eq!(resolve_uv_python_exe("3.12", "r", &entries), Ok(exe_in(1)));
    assert_eq!(resolve_uv_python_exe("3.12.4", "r", &entries), Ok(exe_in(1)));
    assert_eq!(resolve_uv_python_exe("3.13", "r", &entries), Ok(exe_in(3)));
}

#[test]
fn a_release_is_resolved_before_its_pre_release() {
    let entries = vec![
        listed("cpython-3.13.0-windows", true),
        listed("cpython-3.13.0rc2-windows", true),
    ];
    assert_eq!(resolve_uv_python_exe("3.13", "r", &entries), Ok(exe_in(0)));
}

#[test]
fn of_equal_versions_the_last_is_resolved() {
    let entries = vec![
        listed("cpython-3.12.1-windows-x86-none", true),
        listed("cpython-3.12.1-windows-x86_64-none", true),
        listed("cpython-3.12-windows", true),
    ];
    assert_eq!(resolve_uv_python_exe("3.12", "r", &entries), Ok(exe_in(1)));
}

#[test]
fn what_cannot_be_resolved_is_reported() {
    let entries = vec![listed("cpython-3.12.1-windows", true)];
    assert_eq!(
        resolve_uv_python_exe("3", "r", &entries),
        Err(EnvError::InvalidVersion("3".to_string()))
    );
    let e = resolve_uv_python_exe("3.11.2", "C:\\r", &entries).unwrap_err();
    assert_eq!(
        e.message(),
        "No uv-managed Python matching '3.11' found under 'C:\\r'. Run setup again."
    );
}

#[test]
fn a_managed_layout_is_known_by_its_names() {
    let names = |list: &[&str]| list.iter().map(|n| n.to_string()).collect::<Vec<_>>();
    assert!(is_uv_managed_python(&names(&["Lib", "cpython-3.12.1-windows"])));
    assert!(is_uv_managed_python(&names(&["cpython-"])));
    assert!(!is_uv_managed_python(&names(&["Lib", "cpython", "xcpython-3"])));
    assert!(!is_uv_managed_python(&vec![]));
}

#[test]
fn an_interpreter_reports_its_version() {
    assert_eq!(
        get_python_version_from_exe("p", &ran(true, b"Python 3.12.10\r\n")),
        Ok("3.12.10".to_string())
    );
    assert_eq!(
        reported_version("p", true, "  Python \t3.13.0rc1 extra "),
        Ok("3.13.0rc1".to_string())
    );
}

#[test]
fn an_unusable_version_report_is_an_error() {
    let message = |probe: &VersionProbe| get_python_version_from_exe("p", probe).unwrap_err().message();
    assert_eq!(message(&VersionProbe::NotAFile), "Python executable not found at p");
    assert_eq!(message(&VersionProbe::NotRun), "Failed to execute p --version");
    assert_eq!(
        message(&ran(false, b" oops\n")),
        "Python --version command failed for p: Stdout: 'oops'"
    );
    for report in ["", "Python", "Python ", "python 3.12", "Pypy 1"] {
        assert_eq!(
            message(&ran(true, report.as_bytes())),
            format!(
                "Python --version for p produced no usable 'Python x.y.z' output: '{}'",
                report.trim()
            )
        );
    }
}

#[test]
fn setup_begins_on_windows_alone() {
    assert_eq!(setup_python_env(Platform::Windows), Ok(EnsureStep::Resolve));
    let e = setup_python_env(Platform::Other).unwrap_err();
    assert_eq!(e, EnvError::SetupUnsupported);
    assert_eq!(
        e.message(),
        "setup_python_env is only implemented for Windows."
    );
}

#[test]
fn setup_takes_its_steps_in_order() {
    let course = |outcomes: &[bool]| {
        let mut step = EnsureStep::Resolve;
        for ok in outcomes {
            step = ensure_python_via_uv(step, *ok);
        }
        step
    };
    assert_eq!(course(&[true]), EnsureStep::Ready);
    assert_eq!(course(&[false]), EnsureStep::Install);
    assert_eq!(course(&[false, true]), EnsureStep::ResolveInstalled);
    assert_eq!(course(&[false, true, true]), EnsureStep::CheckVersion);
    assert_eq!(course(&[false, true, true, true]), EnsureStep::Ready);
    assert_eq!(course(&[false, false, true]), EnsureStep::Failed);
    assert_eq!(course(&[false, true, false]), EnsureStep::Failed);
    assert_eq!(course(&[false, true, true, false]), EnsureStep::Failed);
    assert_eq!(course(&[true, false, false]), EnsureStep::Ready);
}

#[test]
fn uv_is_asked_for_the_wanted_interpreter() {
    let text = |s: &str| Arg::Text(s.to_string());
    assert_eq!(
        python_install_args("3.12"),
        vec![text("python"), text("install"), text("3.12")]
    );
    assert_eq!(python_install_description("3.12"), "uv python install 3.12");
}

#[test]
fn a_pinned_patch_is_found_alone() {
    let entries = vec![
        listed("cpython-3.12.4-windows-x86_64-none", true),
        listed("cpython-3.12.10-windows-x86_64-none", true),
        listed("cpython-3.12.5-windows-x86_64-none", false),
        listed("cpython-3.13.0rc1-windows-x86_64-none", true),
    ];
    assert_eq!(pinned_python_exe("3.12", "r", &entries), Ok(exe_in(1)));
    assert_eq!(pinned_python_exe("3.12.4", "r", &entries), Ok(exe_in(0)));
    assert_eq!(pinned_python_exe("3.12.10", "r", &entries), Ok(exe_in(1)));
    assert_eq!(pinned_python_exe("3.13.0rc1", "r", &entries), Ok(exe_in(3)));
    assert!(pinned_python_exe("3.12.5", "r", &entries).is_err());
    assert!(pinned_python_exe("3.12.1", "r", &entries).is_err());
    assert!(pinned_python_exe("3.13.0", "r", &entries).is_err());
    let twice = vec![
        listed("cpython-3.12.4-windows-x86-none", true),
        listed("cpython-3.12.4-windows-x86_64-none", true),
    ];
    assert_eq!(pinned_python_exe("3.12.4", "r", &twice), Ok(exe_in(1)));
}

#[test]
fn a_third_part_without_a_digit_pins_nothing() {
    let entries = vec![
        listed("cpython-3.12.4-x", true),
        listed("cpython-3.12.10-x", true),
        listed("cpython-3.13.1-x", true),
    ];
    for spec in ["3.12.x", "3.12.*", "3.12."] {
        assert_eq!(pinned_python_exe(spec, "r", &entries), Ok(exe_in(1)));
        assert_eq!(resolve_uv_python_exe(spec, "r", &entries), Ok(exe_in(1)));
    }
    assert_eq!(
        pinned_python_exe("3.11.x", "r", &entries).unwrap_err().message(),
        "No uv-managed Python matching '3.11' found under 'r'. Run setup again."
    );
}

#[test]
fn what_answers_no_pin_is_reported() {
    let entries = vec![listed("cpython-3.12.4-windows", true)];
    assert_eq!(
        pinned_python_exe("3", "r", &entries),
        Err(EnvError::InvalidVersion("3".to_string()))
    );
    assert_eq!(
        pinned_python_exe("3.12.10", "C:\\r", &entries).unwrap_err().message(),
        "No uv-managed Python matching '3.12.10' found under 'C:\\r'. Run setup again."
    );
}

/// Runs a setup to its end, where `uv` succeeds and leaves the install root as
/// `after`. Gives what `uv` was run with, and what the setup ended with.
fn set_up(spec: &str, before: Vec<Listed>, after: Vec<Listed>) -> (Vec<String>, EnsureDue) {
    let mut step = setup_python_env(Platform::Windows).unwrap();
    let mut seen: Vec<Listed> = Vec::new();
    let mut roots = vec![after, before];
    let mut runs = Vec::new();
    loop {
        let ok = match ensure_due(step, spec, &seen) {
            EnsureDue::Look => {
                seen = roots.pop().unwrap();
                pinned_python_exe(spec, "r", &seen).is_ok()
            }
            EnsureDue::Run { args, description } => {
                assert_eq!(args, python_install_args(spec));
                runs.push(description);
                true
            }
            EnsureDue::Ask(exe) => {
                assert_eq!(Ok(exe), pinned_python_exe(spec, "r", &seen));
                true
            }
            done => return (runs, done),
        };
        step = ensure_python_via_uv(step, ok);
    }
}

#[test]
fn a_raised_pin_is_installed() {
    let before = || vec![listed("cpython-3.12.4-x", true)];
    let after = vec![listed("cpython-3.12.4-x", true), listed("cpython-3.12.10-x", true)];
    assert_eq!(
        set_up("3.12.10", before(), after),
        (
            vec!["uv python install 3.12.10".to_string()],
            EnsureDue::Give(exe_in(1))
        )
    );
    let (_, end) = set_up("3.12.10", before(), before());
    assert_eq!(end, EnsureDue::Nothing);
}

#[test]
fn a_lowered_pin_is_installed() {
    let before = vec![listed("cpython-3.12.10-x", true)];
    let after = vec![listed("cpython-3.12.10-x", true), listed("cpython-3.12.4-x", true)];
    assert_eq!(
        set_up("3.12.4", before, after),
        (
            vec!["uv python install 3.12.4".to_string()],
            EnsureDue::Give(exe_in(1))
        )
    );
}

#[test]
fn an_answering_interpreter_is_used_without_uv() {
    for spec in ["3.12", "3.12.4"] {
        let before = vec![listed("cpython-3.12.4-x", true)];
        assert_eq!(
            set_up(spec, before, vec![]),
            (vec![], EnsureDue::Give(exe_in(0)))
        );
    }
}

#[test]
fn each_step_of_a_setup_asks_for_its_own() {
    let entries = vec![listed("cpython-3.12.4-x", true)];
    let due = |step: EnsureStep, spec: &str| ensure_due(step, spec, &entries);
    assert_eq!(due(EnsureStep::Resolve, "3.12"), EnsureDue::Look);
    assert_eq!(due(EnsureStep::ResolveInstalled, "3.12"), EnsureDue::Look);
    assert_eq!(
        due(EnsureStep::Install, "3.12"),
        EnsureDue::Run {
            args: python_install_args("3.12"),
            description: python_install_description("3.12"),
        }
    );
    assert_eq!(due(EnsureStep::CheckVersion, "3.12"), EnsureDue::Ask(exe_in(0)));
    assert_eq!(due(EnsureStep::Ready, "3.12"), EnsureDue::Give(exe_in(0)));
    assert_eq!(due(EnsureStep::CheckVersion, "3.13"), EnsureDue::Nothing);
    assert_eq!(due(EnsureStep::Ready, "3.12.5"), EnsureDue::Nothing);
    assert_eq!(due(EnsureStep::Failed, "3.12"), EnsureDue::Nothing);
}
