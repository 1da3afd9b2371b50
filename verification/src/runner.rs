//! What a finished child process comes to: the run's status and exit code,
//! and the events its output streams send.

use vstd::prelude::*;
use crate::text::to_chars;
use crate::types::{CommandProposal, CommandRun, CommandStatus, RunnerEvent};

verus! {

/// How a child process ended: cut off at the time limit, or exited with
/// a success flag and, unless a signal ended it, an exit code.
#[derive(Clone, Copy, Debug, PartialEq, Eq)]
pub enum ProcessEnd {
    TimedOut,
    Exited { success: bool, code: Option<i32> },
}

/// The status of a run that ended so.
pub open spec fn end_status(end: ProcessEnd) -> CommandStatus {
    match end {
        ProcessEnd::TimedOut => CommandStatus::TimedOut,
        ProcessEnd::Exited { success, .. } => if success {
            CommandStatus::Succeeded
        } else {
            CommandStatus::Failed
        },
    }
}

/// The exit code of a run that ended so: none when it was cut off.
pub open spec fn end_code(end: ProcessEnd) -> Option<i32> {
    match end {
        ProcessEnd::TimedOut => None,
        ProcessEnd::Exited { code, .. } => code,
    }
}

/// The run of an approved proposal whose process ended so, with the output
/// it wrote.
pub fn finished_run(proposal: CommandProposal, end: ProcessEnd, stdout: String, stderr: String) -> (r: CommandRun)
    ensures
        r.proposal == proposal,
        r.status == end_status(end),
        r.exit_code == end_code(end),
        r.stdout@ == stdout@,
        r.stderr@ == stderr@,
{
    let (status, code) = match end {
        ProcessEnd::TimedOut => (CommandStatus::TimedOut, None),
        ProcessEnd::Exited { success, code } => (
            if success {
                CommandStatus::Succeeded
            } else {
                CommandStatus::Failed
            },
            code,
        ),
    };
    CommandRun::new(proposal, status, stdout, stderr, code)
}

/// The event for what one output stream wrote, when it wrote anything.
pub fn output_event(is_stdout: bool, text: String) -> (r: Option<RunnerEvent>)
    ensures
        text@.len() == 0 ==> r is None,
        text@.len() > 0 && is_stdout ==> (r matches Some(RunnerEvent::Stdout(t)) && t@ == text@),
        text@.len() > 0 && !is_stdout ==> (r matches Some(RunnerEvent::Stderr(t)) && t@ == text@),
{
    if to_chars(text.as_str()).len() == 0 {
        None
    } else if is_stdout {
        Some(RunnerEvent::Stdout(text))
    } else {
        Some(RunnerEvent::Stderr(text))
    }
}

/// The event sent once a process has exited, with the run's status; a
/// process cut off at the time limit sends none.
pub fn finished_event(end: ProcessEnd) -> (r: Option<RunnerEvent>)
    ensures
        end is TimedOut ==> r is None,
        end is Exited ==> r == Some(RunnerEvent::Finished(end_status(end))),
{
    match end {
        ProcessEnd::TimedOut => None,
        ProcessEnd::Exited { success, .. } => Some(
            RunnerEvent::Finished(
                if success {
                    CommandStatus::Succeeded
                } else {
                    CommandStatus::Failed
                },
            ),
        ),
    }
}

} // verus!
