use pyappify::error::EnvError;
use pyappify::path::get_python_dir;
use pyappify::uv::{
    captured, locate_uv, run_uv_capture, uv_command, uv_env, Arg, CommandOutput, Config, EnvVar,
    LocateStep, UvExe,
};

fn config(cache_dir: Option<&str>, python_source: Option<&str>) -> Config {
    Config {
        cache_dir: cache_dir.map(str::to_string),
        python_source: python_source.map(str::to_string),
        pip_index_url: None,
        torch_index_url: String::new(),
    }
}

fn text_var(name: &str, value: &str) -> EnvVar {
    EnvVar {
        name: name.to_string(),
        value: Arg::Text(value.to_string()),
    }
}

fn root_var(app_name: &str) -> EnvVar {
    EnvVar {
        name: "UV_PYTHON_INSTALL_DIR".to_string(),
        value: Arg::Path(get_python_dir(app_name)),
    }
}

fn locate(explicit: bool, sidecar: bool, on_path: bool) -> LocateStep {
    let mut step = LocateStep::AskExplicit;
    for there in [explicit, sidecar, on_path] {
        step = locate_uv(step, there);
    }
    step
}

#[test]
fn the_search_for_uv_has_an_order() {
    for sidecar in [false, true] {
        for on_path in [false, true] {
            assert_eq!(
                locate(true, sidecar, on_path),
                LocateStep::Found(UvExe::Explicit)
            );
        }
    }
    assert_eq!(locate(false, true, true), LocateStep::Found(UvExe::Sidecar));
    assert_eq!(locate(false, false, true), LocateStep::Found(UvExe::OnPath));
    assert_eq!(locate(false, false, false), LocateStep::NotFound);
}

#[test]
fn the_environment_names_the_install_root_first() {
    assert_eq!(uv_env("x", None), vec![root_var("x")]);
    assert_eq!(uv_env("x", Some(&config(None, None))), vec![root_var("x")]);
    assert_eq!(
        uv_env("x", Some(&config(Some("c"), Some("file:///m")))),
        vec![
            root_var("x"),
            text_var("UV_CACHE_DIR", "c"),
            text_var("UV_PYTHON_INSTALL_MIRROR", "file:///m"),
        ]
    );
    assert_eq!(
        uv_env("x", Some(&config(None, Some("m")))),
        vec![root_var("x"), text_var("UV_PYTHON_INSTALL_MIRROR", "m")]
    );
}

#[test]
fn a_run_has_program_arguments_and_environment() {
    let args = || vec![Arg::Text("python".to_string()), Arg::Text("list".to_string())];
    let run = uv_command(UvExe::Sidecar, "x", args(), None);
    assert_eq!(run.program, UvExe::Sidecar);
    assert_eq!(run.args, args());
    assert_eq!(run.envs, vec![root_var("x")]);
}

#[test]
fn captured_output_is_trimmed() {
    let args = vec!["python".to_string(), "find".to_string()];
    let output = CommandOutput {
        success: true,
        stdout: b" /usr/bin/python \r\n".to_vec(),
        stderr: Vec::new(),
    };
    assert_eq!(
        run_uv_capture("x", &args, Some(&output)),
        Ok("/usr/bin/python".to_string())
    );
    assert_eq!(captured("x", &args, true, "\ta\n", ""), Ok("a".to_string()));
}

#[test]
fn output_that_is_no_utf8_is_replaced() {
    let output = CommandOutput {
        success: true,
        stdout: vec![b'a', 0xff, b'b', b'\n'],
        stderr: Vec::new(),
    };
    assert_eq!(
        run_uv_capture("x", &vec![], Some(&output)),
        Ok("a\u{fffd}b".to_string())
    );
    let output = CommandOutput {
        success: true,
        stdout: "\u{4e2d}\u{e9}".as_bytes().to_vec(),
        stderr: Vec::new(),
    };
    assert_eq!(
        run_uv_capture("x", &vec![], Some(&output)),
        Ok("\u{4e2d}\u{e9}".to_string())
    );
}

#[test]
fn a_failed_capture_tells_why() {
    let args = vec!["python".to_string(), "find".to_string()];
    let output = CommandOutput {
        success: false,
        stdout: b"ignored".to_vec(),
        stderr: b"no interpreter\n".to_vec(),
    };
    let e = run_uv_capture("x", &args, Some(&output)).unwrap_err();
    assert_eq!(e.message(), "uv python find failed for 'x': no interpreter");
    let e = run_uv_capture("x", &args, None).unwrap_err();
    assert_eq!(
        e,
        EnvError::UvNotRun {
            args: "python find".to_string(),
            app_name: "x".to_string()
        }
    );
    assert_eq!(e.message(), "Failed to run uv python find for 'x'");
}
