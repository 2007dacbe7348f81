use pyappify::error::EnvError;
use pyappify::install::{
    from_file, install_command, install_description, install_due, install_error, install_place,
    install_requirements, install_step, marker_path, requirements_path, InstallFault, InstallStep,
    PIP_UPDATE_NEEDED_MARKER,
};
use pyappify::path::{Base, Listed, Location};
use pyappify::python_env::Platform;
use pyappify::uv::{uv_env, Arg, Config, UvExe};

fn text(s: &str) -> Arg {
    Arg::Text(s.to_string())
}

fn place(base: Base, joins: &[&str]) -> Location {
    Location {
        base,
        joins: joins.iter().map(|j| j.to_string()).collect(),
    }
}

fn config(pip_index_url: Option<&str>) -> Config {
    Config {
        cache_dir: Some("c".to_string()),
        python_source: None,
        pip_index_url: pip_index_url.map(str::to_string),
        torch_index_url: "https://t".to_string(),
    }
}

fn managed() -> Vec<Listed> {
    vec![Listed {
        name: "cpython-3.12.1-windows".to_string(),
        has_python_exe: true,
    }]
}

fn course(file: bool, outcomes: &[bool]) -> InstallStep {
    let mut step = install_requirements(Platform::Windows);
    for ok in outcomes {
        step = install_step(step, file, *ok);
    }
    step
}

#[test]
fn an_installation_from_a_file_is_a_uv_pip_install() {
    let config = config(Some("https://i"));
    let run = install_command(
        "x",
        "requirements.txt",
        "--no-deps --extra-index-url={PIP_TORCH_INDEX_URL} --no-warn-script-location",
        UvExe::Sidecar,
        &managed(),
        &config,
    );
    assert_eq!(run.program, UvExe::Sidecar);
    assert_eq!(
        run.args,
        vec![
            text("pip"),
            text("install"),
            text("--no-deps"),
            text("--extra-index-url=https://t"),
            text("-r"),
            Arg::Path(place(Base::ProjectDir, &["requirements.txt"])),
            text("--python"),
            Arg::Path(place(Base::Entry(0), &["python.exe"])),
            text("--index-url"),
            text("https://i"),
        ]
    );
    assert_eq!(run.envs, uv_env("x", Some(&config)));
}

#[test]
fn an_installation_of_a_named_package() {
    let run = install_command("x", "pkg==1", "", UvExe::OnPath, &vec![], &config(None));
    let raw = ["data", "apps", "x", "python", "python.exe"];
    assert_eq!(
        run.args,
        vec![
            text("pip"),
            text("install"),
            text("pkg==1"),
            text("--python"),
            Arg::Path(place(Base::WorkingDir, &raw)),
        ]
    );
}

#[test]
fn the_index_of_the_profile_wins() {
    for pip_args in ["-i https://p", "--index-url https://p"] {
        let run = install_command(
            "x",
            "pkg",
            pip_args,
            UvExe::OnPath,
            &managed(),
            &config(Some("https://i")),
        );
        assert!(!run.args.contains(&text("https://i")));
        assert!(run.args.contains(&text("https://p")));
    }
}

#[test]
fn an_installation_takes_its_steps_in_order() {
    assert_eq!(course(true, &[]), InstallStep::CheckPython);
    assert_eq!(course(true, &[true]), InstallStep::CheckProject);
    assert_eq!(course(true, &[true; 2]), InstallStep::ReadConfig);
    assert_eq!(course(true, &[true; 3]), InstallStep::FindUv);
    assert_eq!(course(true, &[true; 4]), InstallStep::CheckRequirements);
    assert_eq!(course(true, &[true; 5]), InstallStep::LeaveMarker);
    assert_eq!(course(true, &[true; 6]), InstallStep::RunUv);
    assert_eq!(course(true, &[true; 7]), InstallStep::TakeMarker);
    assert_eq!(course(true, &[true; 8]), InstallStep::Installed);
    assert_eq!(course(false, &[true; 4]), InstallStep::LeaveMarker);
    assert_eq!(course(false, &[true; 7]), InstallStep::Installed);
}

#[test]
fn the_first_fault_ends_an_installation() {
    let failed = |fault| InstallStep::Failed(fault);
    assert_eq!(course(true, &[false]), failed(InstallFault::NoPython));
    assert_eq!(course(true, &[true, false]), failed(InstallFault::NoProject));
    assert_eq!(course(true, &[true, true, false]), failed(InstallFault::NoConfig));
    assert_eq!(course(true, &[true, true, true, false]), failed(InstallFault::NoUv));
    assert_eq!(
        course(true, &[true, true, true, true, false, true]),
        failed(InstallFault::NoRequirements)
    );
}

#[test]
fn the_marker_outlives_a_failed_run() {
    assert_eq!(
        course(false, &[true, true, true, true, true, false, true, true]),
        InstallStep::Failed(InstallFault::UvFailed)
    );
    assert_eq!(
        course(false, &[true, true, true, true, false, true, false]),
        InstallStep::Installed
    );
}

#[test]
fn every_fault_has_its_message() {
    let message = |fault| install_error(fault, "P").map(|e| e.message());
    assert_eq!(
        message(InstallFault::NoPython).unwrap(),
        "Managed Python executable not found at P. Run setup again."
    );
    assert_eq!(
        message(InstallFault::NoProject).unwrap(),
        "Project directory for uv execution not found or not a directory: P"
    );
    assert_eq!(
        message(InstallFault::NoConfig).unwrap(),
        "GLOBAL_CONFIG_STATE not initialized. Call init_config_manager first."
    );
    assert_eq!(install_error(InstallFault::NoUv, "P"), Some(EnvError::UvNotFound));
    assert_eq!(
        message(InstallFault::NoUv).unwrap(),
        "uv.exe was not found. It must ship next to the launcher executable (or be provided via UV_EXECUTABLE / PATH)."
    );
    assert_eq!(
        message(InstallFault::NoRequirements).unwrap(),
        "Requirements file not found at P"
    );
    assert_eq!(
        message(InstallFault::Unsupported).unwrap(),
        "install_requirements is only implemented for Windows."
    );
    assert_eq!(install_error(InstallFault::UvFailed, "P"), None);
}

#[test]
fn an_installation_begins_on_windows_alone() {
    assert_eq!(
        install_requirements(Platform::Other),
        InstallStep::Failed(InstallFault::Unsupported)
    );
}

#[test]
fn files_of_an_installation() {
    assert!(from_file("requirements-full-cpu.txt"));
    assert!(from_file(".txt"));
    assert!(!from_file("pkg"));
    assert!(!from_file("a.TXT"));
    assert_eq!(
        marker_path(),
        place(Base::ProjectDir, &[".pip_update_needed.tmp"])
    );
    assert_eq!(PIP_UPDATE_NEEDED_MARKER, ".pip_update_needed.tmp");
    assert_eq!(requirements_path("r.txt"), place(Base::ProjectDir, &["r.txt"]));
    assert_eq!(install_description("r.txt", "/p/r.txt"), "uv pip install -r /p/r.txt");
    assert_eq!(install_description("pkg", "/p/pkg"), "uv pip install pkg");
}

#[test]
fn uv_runs_at_its_step_alone() {
    let config = config(Some("https://i"));
    let due = |step: InstallStep| {
        install_due(step, "x", "r.txt", "--no-deps", UvExe::OnPath, &managed(), &config)
    };
    assert_eq!(
        due(InstallStep::RunUv),
        Some(install_command("x", "r.txt", "--no-deps", UvExe::OnPath, &managed(), &config))
    );
    for n in 0..6 {
        assert_eq!(due(course(true, &vec![true; n])), None);
    }
    assert_eq!(due(InstallStep::TakeMarker), None);
    assert_eq!(due(InstallStep::Installed), None);
    assert_eq!(due(InstallStep::Failed(InstallFault::UvFailed)), None);
}

#[test]
fn each_step_of_an_installation_has_its_place() {
    let at = |step: InstallStep| install_place(step, "x", "r.txt", &managed());
    assert_eq!(
        at(InstallStep::CheckPython),
        Some(place(Base::Entry(0), &["python.exe"]))
    );
    assert_eq!(at(InstallStep::CheckProject), Some(place(Base::ProjectDir, &[])));
    assert_eq!(
        at(InstallStep::CheckRequirements),
        Some(place(Base::ProjectDir, &["r.txt"]))
    );
    assert_eq!(at(InstallStep::LeaveMarker), Some(marker_path()));
    assert_eq!(at(InstallStep::TakeMarker), Some(marker_path()));
    assert_eq!(at(InstallStep::RunUv), None);
    assert_eq!(at(InstallStep::Installed), None);
}
