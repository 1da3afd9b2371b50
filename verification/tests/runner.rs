use codesmith::runner::{finished_event, finished_run, output_event, ProcessEnd};
use codesmith::types::{CommandProposal, CommandStatus, RunnerEvent};

#[test]
fn timed_out_runs_have_no_exit_code() {
    let run = finished_run(
        CommandProposal::new("sleep 2", ".", "test"),
        ProcessEnd::TimedOut,
        String::new(),
        String::new(),
    );
    assert_eq!(run.status, CommandStatus::TimedOut);
    assert_eq!(run.exit_code, None);
    assert_eq!(finished_event(ProcessEnd::TimedOut), None);
}

#[test]
fn exited_runs_keep_code_and_output() {
    let end = ProcessEnd::Exited { success: true, code: Some(0) };
    let run = finished_run(CommandProposal::new("echo hello", ".", "test"), end, "hello\n".to_string(), String::new());
    assert_eq!(run.status, CommandStatus::Succeeded);
    assert_eq!(run.exit_code, Some(0));
    assert!(run.stdout.contains("hello"));
    assert_eq!(finished_event(end), Some(RunnerEvent::Finished(CommandStatus::Succeeded)));
    let failed = ProcessEnd::Exited { success: false, code: Some(2) };
    assert_eq!(finished_run(CommandProposal::new("false", ".", "t"), failed, String::new(), String::new()).status, CommandStatus::Failed);
}

#[test]
fn output_events_only_for_written_streams() {
    assert_eq!(output_event(true, "hello".to_string()), Some(RunnerEvent::Stdout("hello".to_string())));
    assert_eq!(output_event(false, "oops".to_string()), Some(RunnerEvent::Stderr("oops".to_string())));
    assert_eq!(output_event(true, String::new()), None);
}
