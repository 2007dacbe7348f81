use pyappify::command::{
    cancel_current_operation, is_admin, is_operation_cancelled, is_superuser_id, kill_command,
    line_action, run_command_and_stream_output, run_error, streamed, ConsoleLine, Level, LineAction,
    LineRead, OperationState, RunEvent, RunFault, RunStep, Stream,
};
use pyappify::error::EnvError;
use pyappify::python_env::Platform;
use pyappify::uv::CommandOutput;

fn idle() -> OperationState {
    OperationState::new()
}

fn course(state: &mut OperationState, events: &[RunEvent]) -> RunStep {
    let mut step = RunStep::Spawn;
    for event in events {
        step = run_command_and_stream_output(step, *event, state);
    }
    step
}

const UP: [RunEvent; 4] = [
    RunEvent::Done,
    RunEvent::Pid(7),
    RunEvent::Done,
    RunEvent::Done,
];

#[test]
fn a_run_succeeds_step_by_step() {
    let mut state = idle();
    let mut step = course(&mut state, &UP);
    assert_eq!(step, RunStep::Wait(7));
    assert_eq!(state.current, Some(7));
    step = run_command_and_stream_output(step, RunEvent::Exited(true), &mut state);
    assert_eq!(step, RunStep::Judge(true));
    assert_eq!(state, idle());
    step = run_command_and_stream_output(step, RunEvent::Done, &mut state);
    assert_eq!(step, RunStep::Succeeded);
}

#[test]
fn an_unsuccessful_status_fails_the_run() {
    let mut state = idle();
    let mut step = course(&mut state, &UP);
    step = run_command_and_stream_output(step, RunEvent::Exited(false), &mut state);
    step = run_command_and_stream_output(step, RunEvent::Done, &mut state);
    assert_eq!(step, RunStep::Failed(RunFault::Status));
    assert_eq!(state, idle());
}

#[test]
fn a_cancelled_run_fails_whatever_its_status() {
    for success in [false, true] {
        let mut state = idle();
        let mut step = course(&mut state, &UP);
        assert_eq!(cancel_current_operation(&mut state), Some(7));
        assert_eq!(cancel_current_operation(&mut state), None);
        step = run_command_and_stream_output(step, RunEvent::Exited(success), &mut state);
        step = run_command_and_stream_output(step, RunEvent::Done, &mut state);
        assert_eq!(step, RunStep::Failed(RunFault::Cancelled));
        assert_eq!(state, idle());
    }
}

#[test]
fn a_cancellation_does_not_reach_the_next_run() {
    let mut state = OperationState {
        current: Some(3),
        cancelled: true,
    };
    course(&mut state, &UP[..2]);
    assert_eq!(
        state,
        OperationState {
            current: Some(7),
            cancelled: false
        }
    );
}

#[test]
fn a_run_ends_at_its_first_missing_step() {
    let missing = RunEvent::Missing;
    let mut state = idle();
    let failed = |fault| RunStep::Failed(fault);
    assert_eq!(course(&mut state, &[missing]), failed(RunFault::NotSpawned));
    assert_eq!(
        course(&mut state, &[RunEvent::Done, missing]),
        failed(RunFault::NoPid)
    );
    assert_eq!(state, idle());
    let mut events = UP.to_vec();
    events.push(missing);
    assert_eq!(course(&mut state, &events), failed(RunFault::NotWaited));
    events[3] = missing;
    assert_eq!(course(&mut state, &events), failed(RunFault::NoStderr));
    events[2] = missing;
    assert_eq!(course(&mut state, &events), failed(RunFault::NoStdout));
    assert_eq!(state.current, Some(7));
}

#[test]
fn the_end_of_a_replaced_operation_leaves_the_other_running() {
    let mut state = OperationState {
        current: Some(9),
        cancelled: false,
    };
    let step = run_command_and_stream_output(RunStep::Wait(7), RunEvent::Exited(true), &mut state);
    assert_eq!(step, RunStep::Judge(true));
    assert_eq!(state.current, Some(9));
}

#[test]
fn cancelling_nothing_changes_nothing() {
    let mut state = idle();
    assert_eq!(cancel_current_operation(&mut state), None);
    assert_eq!(state, idle());
    assert!(!is_operation_cancelled(&mut state));
}

#[test]
fn the_mark_of_cancellation_is_read_once() {
    let mut state = OperationState {
        current: Some(1),
        cancelled: false,
    };
    cancel_current_operation(&mut state);
    assert!(is_operation_cancelled(&mut state));
    assert!(!is_operation_cancelled(&mut state));
}

#[test]
fn killing_takes_the_whole_tree() {
    let kill = kill_command(Platform::Windows, 4321);
    assert_eq!(kill.program, "taskkill");
    assert_eq!(kill.args, vec!["/F", "/T", "/PID", "4321"]);
    let kill = kill_command(Platform::Other, 10);
    assert_eq!(kill.program, "kill");
    assert_eq!(kill.args, vec!["-9", "--", "-10"]);
}

#[test]
fn every_run_fault_has_its_message() {
    let message = |fault| run_error(fault, "uv x", "why").message();
    assert_eq!(
        message(RunFault::NotSpawned),
        "Failed to spawn command (uv x): why"
    );
    assert_eq!(message(RunFault::NoPid), "Failed to get spawned command pid");
    assert_eq!(
        message(RunFault::NoStdout),
        "Could not capture stdout from command (uv x)"
    );
    assert_eq!(
        message(RunFault::NoStderr),
        "Could not capture stderr from command (uv x)"
    );
    assert_eq!(message(RunFault::NotWaited), "why");
    assert_eq!(message(RunFault::Cancelled), "Operation cancelled by the user.");
    assert_eq!(message(RunFault::Status), "Command failed (uv x): why");
    assert_eq!(
        run_error(RunFault::Cancelled, "", ""),
        EnvError::Cancelled
    );
}

fn line(s: &str) -> LineRead {
    LineRead::Line(s.to_string())
}

fn info(s: &str) -> ConsoleLine {
    ConsoleLine {
        level: Level::Info,
        text: s.to_string(),
    }
}

fn error(s: &str) -> ConsoleLine {
    ConsoleLine {
        level: Level::Error,
        text: s.to_string(),
    }
}

#[test]
fn lines_are_shown_passed_over_or_end_the_reading() {
    assert_eq!(
        line_action(Stream::Stdout, &line("\n")),
        LineAction::Show(info("\n"))
    );
    assert_eq!(
        line_action(Stream::Stderr, &line("error: x\n")),
        LineAction::Show(error("error: x\n"))
    );
    for skipped in [
        " \t\n",
        "[notice] A new release of pip is available: 23 -> 24\n",
        "[notice] To update, run: python -m pip install\n",
    ] {
        assert_eq!(line_action(Stream::Stderr, &line(skipped)), LineAction::PassOver);
        assert_eq!(
            line_action(Stream::Stdout, &line(skipped)),
            LineAction::Show(info(skipped))
        );
    }
    for stream in [Stream::Stdout, Stream::Stderr] {
        assert_eq!(line_action(stream, &LineRead::End), LineAction::Stop);
    }
    let failed = LineRead::Failed("why".to_string());
    assert_eq!(
        line_action(Stream::Stdout, &failed),
        LineAction::ShowFailureAndStop(error("Error reading stdout line: why"))
    );
    assert_eq!(
        line_action(Stream::Stderr, &failed),
        LineAction::ShowFailureAndStop(error("Error reading stderr line: why"))
    );
}

#[test]
fn streams_are_shown_in_order_at_their_level() {
    let reads = || {
        vec![
            line("b\n"),
            line(" \n"),
            line("a\n"),
            line("[notice] To update, run: x\n"),
            line("b\n"),
            LineRead::End,
            line("late\n"),
        ]
    };
    assert_eq!(
        streamed(Stream::Stdout, &reads()),
        vec![
            info("b\n"),
            info(" \n"),
            info("a\n"),
            info("[notice] To update, run: x\n"),
            info("b\n"),
        ]
    );
    assert_eq!(
        streamed(Stream::Stderr, &reads()),
        vec![error("b\n"), error("a\n"), error("b\n")]
    );
    assert_eq!(streamed(Stream::Stdout, &vec![]), vec![]);
}

#[test]
fn a_failure_to_read_is_shown_last() {
    let reads = vec![line("a\n"), LineRead::Failed("why".to_string()), line("late\n")];
    assert_eq!(
        streamed(Stream::Stdout, &reads),
        vec![info("a\n"), error("Error reading stdout line: why")]
    );
}

#[test]
fn the_superuser_has_id_zero() {
    let output = |success, stdout: &[u8]| CommandOutput {
        success,
        stdout: stdout.to_vec(),
        stderr: Vec::new(),
    };
    assert!(is_admin(Some(&output(true, b"0\n"))));
    assert!(!is_admin(Some(&output(true, b"1000\n"))));
    assert!(!is_admin(Some(&output(true, &[0xff, b'0']))));
    assert!(!is_admin(Some(&output(false, b"0\n"))));
    assert!(!is_admin(None));
    assert!(is_superuser_id(true, " 0 "));
    assert!(!is_superuser_id(true, "00"));
}
