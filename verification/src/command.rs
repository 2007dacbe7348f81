//! Running a command: its course, its cancellation, its output, its text.

use vstd::prelude::*;

use crate::decode::{decode, decoded};
use crate::error::EnvError;
use crate::python_env::Platform;
use crate::text::{
    contains, decimal, decimal_text, has_part, is_white_space, law_blank_is_all_white_space,
    law_decimal_text, law_part_is_surrounded, number, same_text, trim, trimmed,
};
use crate::uv::CommandOutput;

verus! {

/// The operation that is running, if any. Only one runs at a time.
#[derive(Clone, Copy, Debug, PartialEq, Eq)]
pub struct OperationState {
    /// The process id of the running operation.
    pub current: Option<u32>,
    /// Whether the operation was cancelled.
    pub cancelled: bool,
}

impl OperationState {
    /// Nothing runs, and nothing was cancelled.
    pub fn new() -> (r: OperationState)
        ensures
            r == (OperationState { current: None, cancelled: false }),
    {
        OperationState { current: None, cancelled: false }
    }

    /// The state after the running operation, if there is one, was cancelled.
    pub open spec fn after_cancel(self) -> OperationState {
        if self.current is Some {
            OperationState { current: None, cancelled: true }
        } else {
            self
        }
    }

    /// The state after process `pid` has begun as the running operation.
    pub open spec fn after_begin(self, pid: u32) -> OperationState {
        OperationState { current: Some(pid), cancelled: false }
    }

    /// The state after process `pid` has ended.
    pub open spec fn after_end(self, pid: u32) -> OperationState {
        if self.current == Some(pid) {
            OperationState { current: None, ..self }
        } else {
            self
        }
    }
}

/// Cancels the running operation: gives the process to be killed, or nothing
/// where nothing is running.
pub fn cancel_current_operation(state: &mut OperationState) -> (r: Option<u32>)
    ensures
        r == old(state).current,
        *final(state) == old(state).after_cancel(),
{
    match state.current {
        Some(pid) => {
            state.current = None;
            state.cancelled = true;
            Some(pid)
        },
        None => None,
    }
}

/// Whether the operation was cancelled; asking clears the mark.
pub fn is_operation_cancelled(state: &mut OperationState) -> (r: bool)
    ensures
        r == old(state).cancelled,
        *final(state) == (OperationState { cancelled: false, ..*old(state) }),
{
    let cancelled = state.cancelled;
    state.cancelled = false;
    cancelled
}

/// A program and its arguments.
#[derive(Debug, PartialEq, Eq)]
pub struct CommandLine {
    pub program: String,
    pub args: Vec<String>,
}

/// The arguments of the command that kills process `pid` with all that it has
/// started. On platforms other than Windows the process leads a group of its
/// own, and the group is killed.
pub open spec fn kill_args(platform: Platform, pid: u32) -> Seq<Seq<char>> {
    match platform {
        Platform::Windows => seq!["/F"@, "/T"@, "/PID"@, decimal(pid as nat)],
        Platform::Other => seq!["-9"@, "--"@, "-"@ + decimal(pid as nat)],
    }
}

/// The command that kills process `pid` with all that it has started.
pub fn kill_command(platform: Platform, pid: u32) -> (r: CommandLine)
    ensures
        r.program@ == match platform {
            Platform::Windows => "taskkill"@,
            Platform::Other => "kill"@,
        },
        r.args.deep_view() == kill_args(platform, pid),
{
    let mut args: Vec<String> = Vec::new();
    let number = decimal_text(pid);
    let program = match platform {
        Platform::Windows => {
            args.push("/F".to_owned());
            args.push("/T".to_owned());
            args.push("/PID".to_owned());
            args.push(number);
            "taskkill"
        },
        Platform::Other => {
            let mut target = "-".to_owned();
            target.append(number.as_str());
            args.push("-9".to_owned());
            args.push("--".to_owned());
            args.push(target);
            "kill"
        },
    };
    assert(args.deep_view() =~= kill_args(platform, pid));
    CommandLine { program: program.to_owned(), args }
}

/// How far the run of a command has come.
#[derive(Clone, Copy, Debug, PartialEq, Eq, Structural)]
pub enum RunStep {
    /// To be done: starting the process.
    Spawn,
    /// To be asked: the id of the process.
    AskPid,
    /// To be taken: the standard output of the process.
    TakeStdout(u32),
    /// To be taken: the standard error of the process.
    TakeStderr(u32),
    /// To be done: reading both to their ends while waiting for the process.
    Wait(u32),
    /// The process has ended, with or without success; once its output is read,
    /// it remains to be seen whether it was cancelled.
    Judge(bool),
    /// The command has succeeded.
    Succeeded,
    /// The command has failed.
    Failed(RunFault),
}

/// Why the run of a command failed.
#[derive(Clone, Copy, Debug, PartialEq, Eq, Structural)]
pub enum RunFault {
    /// The process could not be started.
    NotSpawned,
    /// The process has no id.
    NoPid,
    /// The process has no standard output.
    NoStdout,
    /// The process has no standard error.
    NoStderr,
    /// The end of the process could not be waited for.
    NotWaited,
    /// The operation was cancelled.
    Cancelled,
    /// The process ended without success.
    Status,
}

/// What came of a step in the run of a command.
#[derive(Clone, Copy, Debug, PartialEq, Eq, Structural)]
pub enum RunEvent {
    /// It was done.
    Done,
    /// The process has this id.
    Pid(u32),
    /// The process has ended, with or without success.
    Exited(bool),
    /// It could not be done, or what was asked for is not there.
    Missing,
}

/// What the run of a command does next, and what becomes of the running
/// operation.
pub open spec fn run_next(
    step: RunStep,
    event: RunEvent,
    state: OperationState,
) -> (RunStep, OperationState) {
    match (step, event) {
        (RunStep::Spawn, RunEvent::Done) => (RunStep::AskPid, state),
        (RunStep::Spawn, _) => (RunStep::Failed(RunFault::NotSpawned), state),
        (RunStep::AskPid, RunEvent::Pid(pid)) => (RunStep::TakeStdout(pid), state.after_begin(pid)),
        (RunStep::AskPid, _) => (RunStep::Failed(RunFault::NoPid), state),
        (RunStep::TakeStdout(pid), RunEvent::Done) => (RunStep::TakeStderr(pid), state),
        (RunStep::TakeStdout(_), _) => (RunStep::Failed(RunFault::NoStdout), state),
        (RunStep::TakeStderr(pid), RunEvent::Done) => (RunStep::Wait(pid), state),
        (RunStep::TakeStderr(_), _) => (RunStep::Failed(RunFault::NoStderr), state),
        (RunStep::Wait(pid), RunEvent::Exited(success)) => (
            RunStep::Judge(success),
            state.after_end(pid),
        ),
        (RunStep::Wait(_), _) => (RunStep::Failed(RunFault::NotWaited), state),
        (RunStep::Judge(success), _) => (
            if state.cancelled {
                RunStep::Failed(RunFault::Cancelled)
            } else if success {
                RunStep::Succeeded
            } else {
                RunStep::Failed(RunFault::Status)
            },
            OperationState { cancelled: false, ..state },
        ),
        (RunStep::Succeeded, _) => (step, state),
        (RunStep::Failed(_), _) => (step, state),
    }
}

/// Takes the run of a command one step on. It begins at `Spawn`. The process is
/// the running operation from when its id is known until it has ended.
pub fn run_command_and_stream_output(
    step: RunStep,
    event: RunEvent,
    state: &mut OperationState,
) -> (r: RunStep)
    ensures
        (r, *final(state)) == run_next(step, event, *old(state)),
{
    match (step, event) {
        (RunStep::Spawn, RunEvent::Done) => RunStep::AskPid,
        (RunStep::Spawn, _) => RunStep::Failed(RunFault::NotSpawned),
        (RunStep::AskPid, RunEvent::Pid(pid)) => {
            state.current = Some(pid);
            state.cancelled = false;
            RunStep::TakeStdout(pid)
        },
        (RunStep::AskPid, _) => RunStep::Failed(RunFault::NoPid),
        (RunStep::TakeStdout(pid), RunEvent::Done) => RunStep::TakeStderr(pid),
        (RunStep::TakeStdout(_), _) => RunStep::Failed(RunFault::NoStdout),
        (RunStep::TakeStderr(pid), RunEvent::Done) => RunStep::Wait(pid),
        (RunStep::TakeStderr(_), _) => RunStep::Failed(RunFault::NoStderr),
        (RunStep::Wait(pid), RunEvent::Exited(success)) => {
            if let Some(current) = state.current {
                if current == pid {
                    state.current = None;
                }
            }
            RunStep::Judge(success)
        },
        (RunStep::Wait(_), _) => RunStep::Failed(RunFault::NotWaited),
        (RunStep::Judge(success), _) => {
            if is_operation_cancelled(state) {
                RunStep::Failed(RunFault::Cancelled)
            } else if success {
                RunStep::Succeeded
            } else {
                RunStep::Failed(RunFault::Status)
            }
        },
        (RunStep::Succeeded, _) => step,
        (RunStep::Failed(_), _) => step,
    }
}

/// The error of a failed run. `detail` is the cause why the process could not be
/// started or waited for, or the status that it ended with.
pub fn run_error(fault: RunFault, description: &str, detail: &str) -> (r: EnvError)
    ensures
        match fault {
            RunFault::NotSpawned => r matches EnvError::SpawnFailed { description: d, cause: c }
                && d@ == description@ && c@ == detail@,
            RunFault::NoPid => r == EnvError::NoPid,
            RunFault::NoStdout => r matches EnvError::NoStdout(d) && d@ == description@,
            RunFault::NoStderr => r matches EnvError::NoStderr(d) && d@ == description@,
            RunFault::NotWaited => r matches EnvError::Io(c) && c@ == detail@,
            RunFault::Cancelled => r == EnvError::Cancelled,
            RunFault::Status => r matches EnvError::CommandFailed { description: d, status: s }
                && d@ == description@ && s@ == detail@,
        },
{
    match fault {
        RunFault::NotSpawned => EnvError::SpawnFailed {
            description: description.to_owned(),
            cause: detail.to_owned(),
        },
        RunFault::NoPid => EnvError::NoPid,
        RunFault::NoStdout => EnvError::NoStdout(description.to_owned()),
        RunFault::NoStderr => EnvError::NoStderr(description.to_owned()),
        RunFault::NotWaited => EnvError::Io(detail.to_owned()),
        RunFault::Cancelled => EnvError::Cancelled,
        RunFault::Status => EnvError::CommandFailed {
            description: description.to_owned(),
            status: detail.to_owned(),
        },
    }
}

/// Cancelling once is enough: a second time finds nothing running and changes
/// nothing. Where nothing was running, the first time changes nothing either.
pub proof fn law_cancel_once(state: OperationState)
    ensures
        state.after_cancel().current is None,
        state.after_cancel().after_cancel() == state.after_cancel(),
        state.current is None ==> state.after_cancel() == state,
{
}

/// An operation that is cancelled while it runs ends as cancelled, whatever its
/// status; afterwards nothing runs, and no mark is left for the next one.
pub proof fn law_cancelled_run_fails(
    state: OperationState,
    pid: u32,
    success: bool,
    event: RunEvent,
)
    requires
        state.current == Some(pid),
    ensures
        ({
            let (judging, ended) = run_next(
                RunStep::Wait(pid),
                RunEvent::Exited(success),
                state.after_cancel(),
            );
            run_next(judging, event, ended) == (
                RunStep::Failed(RunFault::Cancelled),
                OperationState { current: None, cancelled: false },
            )
        }),
{
}

/// An operation that is not cancelled ends by its status, and leaves nothing
/// running. Cancelling after its end does nothing to it.
pub proof fn law_run_ends_by_status(
    state: OperationState,
    pid: u32,
    success: bool,
    event: RunEvent,
)
    requires
        state == (OperationState { current: Some(pid), cancelled: false }),
    ensures
        ({
            let (judging, ended) = run_next(
                RunStep::Wait(pid),
                RunEvent::Exited(success),
                state,
            );
            &&& ended == (OperationState { current: None, cancelled: false })
            &&& ended.after_cancel() == ended
            &&& run_next(judging, event, ended) == (
                if success {
                    RunStep::Succeeded
                } else {
                    RunStep::Failed(RunFault::Status)
                },
                ended,
            )
        }),
{
}

/// A cancellation does not reach the next operation: whatever came before, an
/// operation that begins is the one that runs, and is not cancelled.
pub proof fn law_begin_is_fresh(state: OperationState, pid: u32)
    ensures
        run_next(RunStep::AskPid, RunEvent::Pid(pid), state) == (
            RunStep::TakeStdout(pid),
            OperationState { current: Some(pid), cancelled: false },
        ),
{
}

/// Something that happens in the course of a run.
#[derive(Clone, Copy, Debug, PartialEq, Eq, Structural)]
pub enum Happening {
    /// A step of the run came to this.
    Step(RunEvent),
    /// The user cancels the running operation.
    Cancel,
}

/// A run, begun in `state`, after all that has happened.
pub open spec fn run_after(state: OperationState, happened: Seq<Happening>) -> (
    RunStep,
    OperationState,
)
    decreases happened.len(),
{
    if happened.len() == 0 {
        (RunStep::Spawn, state)
    } else {
        let (step, before) = run_after(state, happened.drop_last());
        match happened.last() {
            Happening::Step(event) => run_next(step, event, before),
            Happening::Cancel => (step, before.after_cancel()),
        }
    }
}

/// The process that a run has started and not yet seen the end of.
pub open spec fn running(step: RunStep) -> Option<u32> {
    match step {
        RunStep::TakeStdout(pid) => Some(pid),
        RunStep::TakeStderr(pid) => Some(pid),
        RunStep::Wait(pid) => Some(pid),
        _ => None,
    }
}

/// While the process of a run is running, it is the running operation, or it
/// was cancelled. When it has ended, nothing is running.
pub proof fn law_running_or_cancelled(state: OperationState, happened: Seq<Happening>)
    ensures
        ({
            let (step, now) = run_after(state, happened);
            &&& running(step) matches Some(pid) ==> now == (OperationState {
                current: Some(pid),
                cancelled: false,
            }) || now == (OperationState { current: None, cancelled: true })
            &&& step is Judge || step is Succeeded ==> now.current is None
        }),
    decreases happened.len(),
{
    if happened.len() > 0 {
        law_running_or_cancelled(state, happened.drop_last());
    }
}

/// A run that is cancelled while its process is running never succeeds,
/// whatever happens afterwards.
pub proof fn law_cancelled_run_never_succeeds(
    state: OperationState,
    earlier: Seq<Happening>,
    later: Seq<Happening>,
)
    requires
        running(run_after(state, earlier).0) is Some,
    ensures
        !(run_after(state, earlier.push(Happening::Cancel) + later).0 is Succeeded),
{
    lemma_cancelled_stays(state, earlier, later);
}

proof fn lemma_cancelled_stays(
    state: OperationState,
    earlier: Seq<Happening>,
    later: Seq<Happening>,
)
    requires
        running(run_after(state, earlier).0) is Some,
    ensures
        ({
            let (step, now) = run_after(state, earlier.push(Happening::Cancel) + later);
            &&& running(step) is Some || step is Judge || step is Failed
            &&& running(step) is Some || step is Judge ==> now == (OperationState {
                current: None,
                cancelled: true,
            })
        }),
    decreases later.len(),
{
    let all = earlier.push(Happening::Cancel) + later;
    if later.len() == 0 {
        assert(all =~= earlier.push(Happening::Cancel));
        assert(all.drop_last() =~= earlier);
        law_running_or_cancelled(state, earlier);
    } else {
        assert(all.drop_last() =~= earlier.push(Happening::Cancel) + later.drop_last());
        lemma_cancelled_stays(state, earlier, later.drop_last());
    }
}

/// One of the two streams that a process prints to.
#[derive(Clone, Copy, Debug, PartialEq, Eq, Structural)]
pub enum Stream {
    Stdout,
    Stderr,
}

/// How urgent a line on the console is.
#[derive(Clone, Copy, Debug, PartialEq, Eq, Structural)]
pub enum Level {
    Info,
    Error,
}

/// A line on the console.
#[derive(Debug, PartialEq, Eq)]
pub struct ConsoleLine {
    pub level: Level,
    pub text: String,
}

/// A line on the console in specifications.
pub struct ConsoleLineView {
    pub level: Level,
    pub text: Seq<char>,
}

impl DeepView for ConsoleLine {
    type V = ConsoleLineView;

    open spec fn deep_view(&self) -> ConsoleLineView {
        ConsoleLineView { level: self.level, text: self.text@ }
    }
}

/// What came of reading a line.
#[derive(Debug, PartialEq, Eq)]
pub enum LineRead {
    /// The stream has ended.
    End,
    /// A line was read.
    Line(String),
    /// The line could not be read, for this cause.
    Failed(String),
}

/// What came of reading a line, in specifications.
pub enum LineReadView {
    End,
    Line(Seq<char>),
    Failed(Seq<char>),
}

impl DeepView for LineRead {
    type V = LineReadView;

    open spec fn deep_view(&self) -> LineReadView {
        match self {
            LineRead::End => LineReadView::End,
            LineRead::Line(line) => LineReadView::Line(line@),
            LineRead::Failed(cause) => LineReadView::Failed(cause@),
        }
    }
}

/// What is done about it.
#[derive(Debug, PartialEq, Eq)]
pub enum LineAction {
    /// The line is shown, and reading goes on.
    Show(ConsoleLine),
    /// The line is passed over, and reading goes on.
    PassOver,
    /// Reading is over.
    Stop,
    /// The failure is shown, and reading is over.
    ShowFailureAndStop(ConsoleLine),
}

/// The line on standard error is worth showing: it is not blank, and it is none
/// of the notices that a newer `pip` is to be had.
pub open spec fn is_worth_showing(line: Seq<char>) -> bool {
    &&& trimmed(line).len() > 0
    &&& !has_part(line, "A new release of pip is available"@)
    &&& !has_part(line, "[notice] To update, run"@)
}

/// The line is shown: on standard output every line is.
pub open spec fn is_shown(stream: Stream, line: Seq<char>) -> bool {
    stream is Stdout || is_worth_showing(line)
}

/// A line as it is shown: as information where it stood on standard output, as
/// an error where it stood on standard error.
pub open spec fn shown(stream: Stream, line: Seq<char>) -> ConsoleLineView {
    match stream {
        Stream::Stdout => ConsoleLineView { level: Level::Info, text: line },
        Stream::Stderr => ConsoleLineView { level: Level::Error, text: line },
    }
}

/// A failure to read, as it is shown.
pub open spec fn shown_failure(stream: Stream, cause: Seq<char>) -> ConsoleLineView {
    match stream {
        Stream::Stdout => ConsoleLineView {
            level: Level::Error,
            text: "Error reading stdout line: "@ + cause,
        },
        Stream::Stderr => ConsoleLineView {
            level: Level::Error,
            text: "Error reading stderr line: "@ + cause,
        },
    }
}

/// Decides what is done about a line.
pub fn line_action(stream: Stream, read: &LineRead) -> (r: LineAction)
    ensures
        match read {
            LineRead::End => r is Stop,
            LineRead::Failed(cause) => r matches LineAction::ShowFailureAndStop(line)
                && line.deep_view() == shown_failure(stream, cause@),
            LineRead::Line(text) => match r {
                LineAction::Show(line) => is_shown(stream, text@) && line.deep_view() == shown(
                    stream,
                    text@,
                ),
                LineAction::PassOver => !is_shown(stream, text@),
                _ => false,
            },
        },
        read matches LineRead::Line(text) ==> match r {
            LineAction::Show(line) => line.text@ == text@ && (line.level is Error <==> stream
                is Stderr),
            LineAction::PassOver => stream is Stderr && (trimmed(text@).len() == 0 || has_part(
                text@,
                "A new release of pip is available"@,
            ) || has_part(text@, "[notice] To update, run"@)),
            _ => false,
        },
{
    match read {
        LineRead::End => LineAction::Stop,
        LineRead::Failed(cause) => {
            let mut text = match stream {
                Stream::Stdout => "Error reading stdout line: ".to_owned(),
                Stream::Stderr => "Error reading stderr line: ".to_owned(),
            };
            text.append(cause.as_str());
            LineAction::ShowFailureAndStop(ConsoleLine { level: Level::Error, text })
        },
        LineRead::Line(line) => match stream {
            Stream::Stdout => LineAction::Show(
                ConsoleLine { level: Level::Info, text: line.clone() },
            ),
            Stream::Stderr => if !trim(line.as_str()).is_empty() && !contains(
                line.as_str(),
                "A new release of pip is available",
            ) && !contains(line.as_str(), "[notice] To update, run") {
                LineAction::Show(ConsoleLine { level: Level::Error, text: line.clone() })
            } else {
                LineAction::PassOver
            },
        },
    }
}

/// What the console shows of a stream, whose lines were read as given: each line
/// is dealt with in turn, until the stream ends or cannot be read.
pub open spec fn console_lines(stream: Stream, reads: Seq<LineReadView>) -> Seq<ConsoleLineView>
    decreases reads.len(),
{
    if reads.len() == 0 {
        Seq::empty()
    } else {
        match reads[0] {
            LineReadView::End => Seq::empty(),
            LineReadView::Failed(cause) => seq![shown_failure(stream, cause)],
            LineReadView::Line(line) => if is_shown(stream, line) {
                seq![shown(stream, line)] + console_lines(stream, reads.drop_first())
            } else {
                console_lines(stream, reads.drop_first())
            },
        }
    }
}

/// What the console shows of a stream, whose lines were read as given.
pub fn streamed(stream: Stream, reads: &Vec<LineRead>) -> (r: Vec<ConsoleLine>)
    ensures
        r.deep_view() == console_lines(stream, reads.deep_view()),
{
    let mut r: Vec<ConsoleLine> = Vec::new();
    let ghost all = reads.deep_view();
    let mut i: usize = 0;
    assert(all.skip(0) == all);
    assert(r.deep_view() + console_lines(stream, all) =~= console_lines(stream, all));
    while i < reads.len()
        invariant
            i <= reads.len(),
            all == reads.deep_view(),
            r.deep_view() + console_lines(stream, all.skip(i as int)) == console_lines(stream, all),
        decreases reads.len() - i,
    {
        let ghost rest = all.skip(i as int);
        let ghost done = r.deep_view();
        assert(rest[0] == reads@[i as int].deep_view());
        assert(rest.drop_first() == all.skip(i + 1));
        match line_action(stream, &reads[i]) {
            LineAction::Show(line) => {
                r.push(line);
                assert(r.deep_view() =~= done.push(line.deep_view()));
                assert(r.deep_view() + console_lines(stream, all.skip(i + 1)) =~= done
                    + console_lines(stream, rest));
            },
            LineAction::PassOver => {},
            LineAction::Stop => {
                assert(done + console_lines(stream, rest) =~= done);
                return r;
            },
            LineAction::ShowFailureAndStop(line) => {
                r.push(line);
                assert(r.deep_view() =~= done + console_lines(stream, rest));
                return r;
            },
        }
        i = i + 1;
    }
    assert(r.deep_view() + console_lines(stream, all.skip(i as int)) =~= r.deep_view());
    r
}

/// Lines that were read.
pub open spec fn lines_read(lines: Seq<Seq<char>>) -> Seq<LineReadView> {
    lines.map_values(|line: Seq<char>| LineReadView::Line(line))
}

/// The lines that are worth showing are shown, in their order and at the level of
/// their stream, and nothing else is but a failure to read, which comes last:
/// nothing that is read after the end of the stream or after a failure is shown.
pub proof fn law_lines_shown_in_order(
    stream: Stream,
    lines: Seq<Seq<char>>,
    end: LineReadView,
    later: Seq<LineReadView>,
)
    requires
        !(end is Line),
    ensures
        console_lines(stream, lines_read(lines) + seq![end] + later) == lines.filter(
            |line: Seq<char>| is_shown(stream, line),
        ).map_values(|line: Seq<char>| shown(stream, line)) + match end {
            LineReadView::Failed(cause) => seq![shown_failure(stream, cause)],
            _ => Seq::empty(),
        },
    decreases lines.len(),
{
    let keep = |line: Seq<char>| is_shown(stream, line);
    let show = |line: Seq<char>| shown(stream, line);
    let reads = lines_read(lines) + seq![end] + later;
    reveal_with_fuel(Seq::filter, 2);
    if lines.len() > 0 {
        let rest = lines.drop_first();
        law_lines_shown_in_order(stream, rest, end, later);
        assert(reads.drop_first() =~= lines_read(rest) + seq![end] + later);
        let first = seq![lines[0]];
        assert(lines =~= first + rest);
        Seq::filter_distributes_over_add(first, rest, keep);
        assert(first.drop_last().filter(keep) =~= Seq::empty());
        if is_shown(stream, lines[0]) {
            assert(first.filter(keep) =~= first);
            assert(lines.filter(keep).map_values(show) =~= seq![show(lines[0])] + rest.filter(
                keep,
            ).map_values(show));
        } else {
            assert(first.filter(keep) =~= Seq::empty());
            assert(lines.filter(keep) =~= rest.filter(keep));
        }
    } else {
        assert(reads[0] == end);
        assert(lines.filter(keep).map_values(show) =~= Seq::empty());
    }
}

/// Every line on standard output is shown, as information.
pub proof fn law_stdout_is_shown_whole(lines: Seq<Seq<char>>)
    ensures
        console_lines(Stream::Stdout, lines_read(lines).push(LineReadView::End))
            == lines.map_values(
            |line: Seq<char>| ConsoleLineView { level: Level::Info, text: line },
        ),
    decreases lines.len(),
{
    let reads = lines_read(lines).push(LineReadView::End);
    if lines.len() > 0 {
        law_stdout_is_shown_whole(lines.drop_first());
        assert(reads.drop_first() =~= lines_read(lines.drop_first()).push(LineReadView::End));
    }
}

/// Of standard error exactly the lines that are worth showing are shown, in their
/// order, as errors.
pub proof fn law_stderr_is_filtered(lines: Seq<Seq<char>>)
    ensures
        console_lines(Stream::Stderr, lines_read(lines).push(LineReadView::End)) == lines.filter(
            |line: Seq<char>| is_worth_showing(line),
        ).map_values(|line: Seq<char>| ConsoleLineView { level: Level::Error, text: line }),
{
    let none = Seq::<LineReadView>::empty();
    law_lines_shown_in_order(Stream::Stderr, lines, LineReadView::End, none);
    assert(lines_read(lines).push(LineReadView::End) =~= lines_read(lines) + seq![LineReadView::End]
        + none);
    assert((|line: Seq<char>| is_worth_showing(line)) =~= (|line: Seq<char>|
        is_shown(Stream::Stderr, line)));
    let kept = lines.filter(|line: Seq<char>| is_worth_showing(line));
    assert(kept.map_values(|line: Seq<char>| ConsoleLineView { level: Level::Error, text: line })
        =~= kept.map_values(|line: Seq<char>| shown(Stream::Stderr, line)));
}

/// Whether the user is the superuser, from whether `id -u` succeeded and what it
/// printed.
pub fn is_superuser_id(success: bool, stdout: &str) -> (r: bool)
    ensures
        r == (success && trimmed(stdout@) == "0"@),
{
    success && same_text(trim(stdout), "0")
}

/// Whether the user is the superuser, from the output of `id -u`, or from there
/// being none because it could not be run.
pub fn is_admin(output: Option<&CommandOutput>) -> (r: bool)
    ensures
        r == match output {
            Some(output) => output.success && trimmed(decoded(output.stdout@)) == "0"@,
            None => false,
        },
{
    match output {
        Some(output) => {
            let stdout = decode(&output.stdout);
            is_superuser_id(output.success, stdout.as_str())
        },
        None => false,
    }
}

/// A line of standard error is withheld only if it is blank or holds one of the
/// two notices about a newer `pip`, whole. Every other line of standard error is
/// shown, as an error, and every line of standard output, as information; each as
/// it was printed.
pub proof fn law_only_blanks_and_notices_are_withheld(line: Seq<char>)
    ensures
        ({
            let withheld = (forall|i: int| 0 <= i < line.len() ==> is_white_space(#[trigger] line[i]))
                || (exists|lead: Seq<char>, tail: Seq<char>|
                line == #[trigger] (lead + "A new release of pip is available"@ + tail)) || (exists|
                lead: Seq<char>,
                tail: Seq<char>,
            | line == #[trigger] (lead + "[notice] To update, run"@ + tail));
            &&& is_shown(Stream::Stderr, line) <==> !withheld
            &&& console_lines(Stream::Stderr, seq![LineReadView::Line(line)]) == if withheld {
                Seq::empty()
            } else {
                seq![ConsoleLineView { level: Level::Error, text: line }]
            }
            &&& is_shown(Stream::Stdout, line)
            &&& console_lines(Stream::Stdout, seq![LineReadView::Line(line)]) == seq![
                ConsoleLineView { level: Level::Info, text: line },
            ]
        }),
{
    law_blank_is_all_white_space(line);
    law_part_is_surrounded(line, "A new release of pip is available"@);
    law_part_is_surrounded(line, "[notice] To update, run"@);
    let reads = seq![LineReadView::Line(line)];
    assert(reads.drop_first() =~= Seq::<LineReadView>::empty());
    reveal_with_fuel(console_lines, 2);
    assert(console_lines(Stream::Stdout, reads) =~= seq![
        ConsoleLineView { level: Level::Info, text: line },
    ]);
    if is_shown(Stream::Stderr, line) {
        assert(console_lines(Stream::Stderr, reads) =~= seq![
            ConsoleLineView { level: Level::Error, text: line },
        ]);
    }
}

/// Lines are dealt with one after the other: what the console shows of some lines
/// and of what is read behind them is what it shows of the one, then of the other.
pub proof fn law_console_goes_line_by_line(
    stream: Stream,
    lines: Seq<Seq<char>>,
    reads: Seq<LineReadView>,
)
    ensures
        console_lines(stream, lines_read(lines) + reads) == console_lines(stream, lines_read(lines))
            + console_lines(stream, reads),
    decreases lines.len(),
{
    let all = lines_read(lines) + reads;
    if lines.len() == 0 {
        assert(all =~= reads);
        assert(console_lines(stream, lines_read(lines)) + console_lines(stream, reads)
            =~= console_lines(stream, reads));
    } else {
        let rest = lines.drop_first();
        law_console_goes_line_by_line(stream, rest, reads);
        assert(lines_read(lines).drop_first() =~= lines_read(rest));
        assert(all.drop_first() =~= lines_read(rest) + reads);
        assert(all[0] == LineReadView::Line(lines[0]));
        assert(lines_read(lines)[0] == LineReadView::Line(lines[0]));
        assert(console_lines(stream, all) =~= console_lines(stream, lines_read(lines))
            + console_lines(stream, reads));
    }
}

/// A failure to read is shown as an error that names the stream and the cause, and
/// ends the reading; the end of a stream is not shown.
pub proof fn law_failure_to_read_is_shown(
    stream: Stream,
    cause: Seq<char>,
    later: Seq<LineReadView>,
)
    ensures
        console_lines(Stream::Stdout, seq![LineReadView::Failed(cause)] + later) == seq![
            ConsoleLineView { level: Level::Error, text: "Error reading stdout line: "@ + cause },
        ],
        console_lines(Stream::Stderr, seq![LineReadView::Failed(cause)] + later) == seq![
            ConsoleLineView { level: Level::Error, text: "Error reading stderr line: "@ + cause },
        ],
        console_lines(stream, seq![LineReadView::End] + later).len() == 0,
{
}

/// Killing names the process, by its number in decimal, and takes all that it has
/// started; different processes are killed by different commands.
pub proof fn law_kill_names_the_process(pid: u32, other: u32, platform: Platform)
    ensures
        kill_args(Platform::Windows, pid) == seq!["/F"@, "/T"@, "/PID"@, decimal(pid as nat)],
        kill_args(Platform::Other, pid) == seq!["-9"@, "--"@, "-"@ + decimal(pid as nat)],
        number(decimal(pid as nat)) == pid,
        kill_args(platform, pid) == kill_args(platform, other) ==> pid == other,
{
    law_decimal_text(pid as nat);
    law_decimal_text(other as nat);
    if kill_args(platform, pid) == kill_args(platform, other) {
        match platform {
            Platform::Windows => {
                assert(kill_args(platform, pid)[3] == decimal(pid as nat));
                assert(kill_args(platform, other)[3] == decimal(other as nat));
            },
            Platform::Other => {
                assert(kill_args(platform, pid)[2] == "-"@ + decimal(pid as nat));
                assert(kill_args(platform, other)[2] == "-"@ + decimal(other as nat));
                let n = "-"@.len() as int;
                assert(("-"@ + decimal(pid as nat)).skip(n) =~= decimal(pid as nat));
                assert(("-"@ + decimal(other as nat)).skip(n) =~= decimal(other as nat));
            },
        }
    }
}

/// Cancelling marks the running operation, whichever it is. The end of a process
/// takes it off as the running operation and leaves any other, and any mark, as
/// they are.
pub proof fn law_cancel_marks_and_end_clears(state: OperationState, pid: u32)
    ensures
        state.current is Some ==> state.after_cancel() == (OperationState {
            current: None,
            cancelled: true,
        }),
        state.after_end(pid).cancelled == state.cancelled,
        state.current == Some(pid) ==> state.after_end(pid).current is None,
        state.current != Some(pid) ==> state.after_end(pid).current == state.current,
        state.after_begin(pid) == (OperationState { current: Some(pid), cancelled: false }),
{
}

/// The happenings of a run that nobody cancels.
pub open spec fn uncancelled(events: Seq<RunEvent>) -> Seq<Happening> {
    events.map_values(|event: RunEvent| Happening::Step(event))
}

/// A run that nobody cancels succeeds if and only if the process was started, has
/// an id and both its streams, and ended with success; otherwise it fails by the
/// first of these that is missing. Its process is the running operation from when
/// its id is known until it has ended.
pub proof fn law_run_outcome(state: OperationState, events: Seq<RunEvent>)
    requires
        events.len() == 6,
    ensures
        ({
            let (step, now) = run_after(state, uncancelled(events));
            if !(events[0] is Done) {
                step == RunStep::Failed(RunFault::NotSpawned) && now == state
            } else if !(events[1] is Pid) {
                step == RunStep::Failed(RunFault::NoPid) && now == state
            } else {
                let running = OperationState {
                    current: Some(events[1]->Pid_0),
                    cancelled: false,
                };
                let idle = OperationState { current: None, cancelled: false };
                if !(events[2] is Done) {
                    step == RunStep::Failed(RunFault::NoStdout) && now == running
                } else if !(events[3] is Done) {
                    step == RunStep::Failed(RunFault::NoStderr) && now == running
                } else if !(events[4] is Exited) {
                    step == RunStep::Failed(RunFault::NotWaited) && now == running
                } else if events[4]->Exited_0 {
                    step == RunStep::Succeeded && now == idle
                } else {
                    step == RunStep::Failed(RunFault::Status) && now == idle
                }
            }
        }),
{
    reveal_with_fuel(run_after, 7);
    let h = uncancelled(events);
    assert(h.drop_last().drop_last().drop_last().drop_last().drop_last().last() == h[0]);
    assert(h.drop_last().drop_last().drop_last().drop_last().last() == h[1]);
    assert(h.drop_last().drop_last().drop_last().last() == h[2]);
    assert(h.drop_last().drop_last().last() == h[3]);
    assert(h.drop_last().last() == h[4]);
    assert(h.last() == h[5]);
}

/// A run that has ended stays as it ended, and touches no other operation.
pub proof fn law_run_ends(fault: RunFault, event: RunEvent, state: OperationState)
    ensures
        run_next(RunStep::Succeeded, event, state) == (RunStep::Succeeded, state),
        run_next(RunStep::Failed(fault), event, state) == (RunStep::Failed(fault), state),
{
}

/// The end of a process is told from that of any other: what runs besides stays the
/// running operation, and a mark of cancellation is not lost before the run is
/// judged. Judging takes the mark and leaves what runs.
pub proof fn law_end_concerns_its_own_process(
    state: OperationState,
    pid: u32,
    success: bool,
    event: RunEvent,
)
    ensures
        run_next(RunStep::Wait(pid), RunEvent::Exited(success), state) == (
            RunStep::Judge(success),
            OperationState {
                current: if state.current == Some(pid) {
                    None
                } else {
                    state.current
                },
                cancelled: state.cancelled,
            },
        ),
        run_next(RunStep::Judge(success), event, state) == (
            if state.cancelled {
                RunStep::Failed(RunFault::Cancelled)
            } else if success {
                RunStep::Succeeded
            } else {
                RunStep::Failed(RunFault::Status)
            },
            OperationState { current: state.current, cancelled: false },
        ),
{
}

} // verus!
