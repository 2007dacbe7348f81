use pyappify::path::{
    find_managed_python_exe, get_app_base_path, get_app_repo_path, get_app_working_dir_path,
    get_apps_dir, get_base_dir, get_config_dir, get_cwd, get_log_dir, get_pip_cache_dir,
    get_python_dir, get_python_exe, get_start_dir, path_to_abs, strip_extended_path_prefix,
    Absolute, Base, Listed, Location,
};

fn place(base: Base, joins: &[&str]) -> Location {
    Location {
        base,
        joins: joins.iter().map(|j| j.to_string()).collect(),
    }
}

fn listed(name: &str, has_python_exe: bool) -> Listed {
    Listed {
        name: name.to_string(),
        has_python_exe,
    }
}

#[test]
fn directories_of_the_launcher() {
    let w = Base::WorkingDir;
    assert_eq!(get_cwd(), place(w, &[]));
    assert_eq!(get_base_dir(), place(w, &["data"]));
    assert_eq!(get_apps_dir(), place(w, &["data", "apps"]));
    assert_eq!(get_config_dir(), place(w, &["data", "config"]));
    assert_eq!(get_pip_cache_dir(), place(w, &["cache", "uv"]));
    assert_eq!(get_log_dir(), place(Base::Relative, &["data", "logs"]));
    assert_eq!(
        get_start_dir(),
        place(Base::ConfigDir, &["Microsoft\\Windows\\Start Menu\\Programs"])
    );
}

#[test]
fn directories_of_an_application() {
    let w = Base::WorkingDir;
    assert_eq!(get_app_base_path("x"), place(w, &["data", "apps", "x"]));
    assert_eq!(get_app_repo_path("x"), place(w, &["data", "apps", "x", "repo"]));
    assert_eq!(get_python_dir("x"), place(w, &["data", "apps", "x", "python"]));
    assert_eq!(
        get_app_working_dir_path("x"),
        place(w, &["data", "apps", "x", "working"])
    );
    assert_ne!(get_app_base_path("x"), get_app_base_path("y"));
}

#[test]
fn the_newest_managed_interpreter_wins() {
    let entries = vec![
        listed("cpython-3.12.9-windows-x86_64-none", true),
        listed("cpython-3.12.10-windows-x86_64-none", true),
        listed("cpython-3.13.0-windows-x86_64-none", false),
        listed("cpython-3.9.18-windows-x86_64-none", true),
        listed("pypy-9.9.9", true),
    ];
    assert_eq!(
        find_managed_python_exe(&entries),
        Some(place(Base::Entry(1), &["python.exe"]))
    );
    assert_eq!(
        get_python_exe("x", false, &entries),
        place(Base::Entry(1), &["python.exe"])
    );
    assert_eq!(
        get_python_exe("x", true, &entries),
        place(Base::Entry(1), &["pythonw.exe"])
    );
}

#[test]
fn of_equal_versions_the_greater_name_is_taken() {
    let chosen = |names: &[&str]| {
        let entries: Vec<Listed> = names.iter().map(|name| listed(name, true)).collect();
        find_managed_python_exe(&entries)
    };
    let second = Some(place(Base::Entry(1), &["python.exe"]));
    assert_eq!(chosen(&["cpython-3.12.9-win", "cpython-3.12.9-windows"]), second);
    assert_eq!(chosen(&["cpython-3.12.9-windows", "cpython-3.12.9-win"]), {
        Some(place(Base::Entry(0), &["python.exe"]))
    });
    assert_eq!(chosen(&["cpython-3.12.9-a10", "cpython-3.12.9-a9"]), second);
    assert_eq!(chosen(&["cpython-3.12.9-zzz", "cpython-3.12.10-aaa"]), second);
    assert_eq!(chosen(&["cpython-3.13.0rc2-z", "cpython-3.13.0-a"]), second);
}

#[test]
fn of_equal_names_the_first_is_taken() {
    let entries = vec![listed("cpython-3.12", true), listed("cpython-3.12", true)];
    assert_eq!(
        find_managed_python_exe(&entries),
        Some(place(Base::Entry(0), &["python.exe"]))
    );
}

#[test]
fn without_a_managed_interpreter_the_raw_layout_is_used() {
    let entries = vec![listed("cpython-3.12.1", false), listed("Lib", true)];
    assert_eq!(find_managed_python_exe(&entries), None);
    let raw = ["data", "apps", "x", "python", "python.exe"];
    assert_eq!(get_python_exe("x", false, &entries), place(Base::WorkingDir, &raw));
    let raw = ["data", "apps", "x", "python", "pythonw.exe"];
    assert_eq!(get_python_exe("x", true, &vec![]), place(Base::WorkingDir, &raw));
}

#[test]
fn the_extended_prefix_is_stripped_once() {
    assert_eq!(strip_extended_path_prefix("\\\\?\\C:\\a"), "C:\\a");
    assert_eq!(strip_extended_path_prefix("C:\\a"), "C:\\a");
    assert_eq!(strip_extended_path_prefix("\\\\?\\\\\\?\\x"), "\\\\?\\x");
    assert_eq!(strip_extended_path_prefix("\\\\?"), "\\\\?");
}

#[test]
fn absolute_paths_fall_back_step_by_step() {
    let some = |s: &str| Some(s.to_string());
    assert_eq!(path_to_abs("a", &Absolute::Canonical(some("\\\\?\\C:\\a"))), "C:\\a");
    assert_eq!(path_to_abs("a", &Absolute::Joined(some("\\\\?\\D:\\a"))), "D:\\a");
    assert_eq!(path_to_abs("\\\\?\\a", &Absolute::Canonical(None)), "a");
    assert_eq!(path_to_abs("a", &Absolute::Joined(None)), "a");
    assert_eq!(path_to_abs("a", &Absolute::Unknown), "a");
}
