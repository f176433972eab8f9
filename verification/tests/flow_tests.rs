use lynx_runner::error::ServiceError;
use lynx_runner::flow::{Flow, FlowAction, FlowEvent, FlowState};
use lynx_runner::launch::DirectoryOutcome;
use lynx_runner::protocol::{ReadEvent, Sentinel};
use lynx_runner::store::StageOutcome;

fn line(text: &str) -> FlowEvent {
    FlowEvent::Read(ReadEvent::Line(text.to_string()))
}

fn stop() -> Sentinel {
    Sentinel::exact("<SENTINEL>".to_string())
}

#[test]
fn submission_runs_stage_signal_read_deliver() {
    let mut flow = Flow::submit(stop());
    assert_eq!(flow.pending(), FlowAction::WriteCode);
    flow.advance(&FlowEvent::Staged(StageOutcome::Written));
    assert_eq!(flow.pending(), FlowAction::Signal);
    flow.advance(&FlowEvent::Signalled { wrote: true, flushed: true });
    assert_eq!(flow.pending(), FlowAction::ReadLine);
    flow.advance(&line("line1\n"));
    assert_eq!(flow.pending(), FlowAction::ReadLine);
    flow.advance(&line("line2\n"));
    assert_eq!(flow.pending(), FlowAction::ReadLine);
    flow.advance(&line("<SENTINEL>\n"));
    assert_eq!(flow.pending(), FlowAction::Deliver);
    assert_eq!(flow.state, FlowState::Succeeded);
    flow.advance(&line("line4\n"));
    assert_eq!(flow.pending(), FlowAction::Deliver);
    assert_eq!(flow.finish(), Some(Ok("line1\nline2\n<SENTINEL>\n".to_string())));
}

#[test]
fn creation_runs_directory_spawn_read_deliver() {
    let mut flow = Flow::create(Sentinel::wait_for_code());
    assert_eq!(flow.pending(), FlowAction::PrepareDirectory);
    flow.advance(&FlowEvent::Directory(DirectoryOutcome::AlreadyExists));
    assert_eq!(flow.pending(), FlowAction::Spawn);
    flow.advance(&FlowEvent::Spawned { spawned: true, has_stdout: true, has_stdin: true });
    assert_eq!(flow.pending(), FlowAction::ReadLine);
    flow.advance(&line("scene\n"));
    let ready =
        "{ \"base_class_name\" : \"Action\", \"class_name\" : \"WaitForCode\", \"properties\" : {} }\n";
    flow.advance(&line(ready));
    assert_eq!(flow.pending(), FlowAction::Deliver);
    assert_eq!(flow.finish(), Some(Ok(format!("scene\n{}", ready))));
}

#[test]
fn a_failed_stage_ends_the_submission_before_any_signal() {
    for (outcome, error) in [
        (StageOutcome::OpenFailed, ServiceError::FileOpen),
        (StageOutcome::TruncateFailed, ServiceError::FileTruncate),
        (StageOutcome::WriteFailed, ServiceError::FileWrite),
    ] {
        let mut flow = Flow::submit(stop());
        flow.advance(&FlowEvent::Staged(outcome));
        assert_eq!(flow.pending(), FlowAction::Report(error));
        flow.advance(&FlowEvent::Signalled { wrote: true, flushed: true });
        flow.advance(&line("<SENTINEL>\n"));
        assert_eq!(flow.pending(), FlowAction::Report(error));
        assert_eq!(flow.finish(), Some(Err(error)));
    }
}

#[test]
fn a_failed_signal_ends_the_submission() {
    for (wrote, flushed) in [(false, true), (true, false), (false, false)] {
        let mut flow = Flow::submit(stop());
        flow.advance(&FlowEvent::Staged(StageOutcome::Written));
        flow.advance(&FlowEvent::Signalled { wrote, flushed });
        assert_eq!(flow.pending(), FlowAction::Report(ServiceError::SignalFailed));
    }
}

#[test]
fn a_failed_directory_ends_the_creation_before_any_start() {
    let mut flow = Flow::create(stop());
    flow.advance(&FlowEvent::Directory(DirectoryOutcome::Failed));
    assert_eq!(flow.pending(), FlowAction::Report(ServiceError::DirectoryCreate));
    flow.advance(&FlowEvent::Spawned { spawned: true, has_stdout: true, has_stdin: true });
    assert_eq!(flow.finish(), Some(Err(ServiceError::DirectoryCreate)));
}

#[test]
fn a_sandbox_without_streams_ends_the_creation() {
    let cases = [
        (false, false, false, ServiceError::Spawn),
        (true, false, true, ServiceError::StdoutUnavailable),
        (true, true, false, ServiceError::StdinUnavailable),
    ];
    for (spawned, has_stdout, has_stdin, error) in cases {
        let mut flow = Flow::create(stop());
        flow.advance(&FlowEvent::Directory(DirectoryOutcome::Created));
        flow.advance(&FlowEvent::Spawned { spawned, has_stdout, has_stdin });
        assert_eq!(flow.pending(), FlowAction::Report(error));
    }
}

#[test]
fn a_closed_or_failing_stream_ends_the_reading() {
    for event in [ReadEvent::Closed, ReadEvent::Failed] {
        let mut flow = Flow::submit(stop());
        flow.advance(&FlowEvent::Staged(StageOutcome::Written));
        flow.advance(&FlowEvent::Signalled { wrote: true, flushed: true });
        flow.advance(&line("partial\n"));
        flow.advance(&FlowEvent::Read(event));
        assert_eq!(flow.pending(), FlowAction::Report(ServiceError::ReadFailed));
        assert_eq!(flow.finish(), Some(Err(ServiceError::ReadFailed)));
    }
}

#[test]
fn an_event_that_was_not_asked_for_changes_nothing() {
    let mut flow = Flow::submit(stop());
    flow.advance(&line("<SENTINEL>\n"));
    assert_eq!(flow.pending(), FlowAction::WriteCode);
    flow.advance(&FlowEvent::Directory(DirectoryOutcome::Failed));
    assert_eq!(flow.pending(), FlowAction::WriteCode);
    flow.advance(&FlowEvent::Signalled { wrote: false, flushed: false });
    assert_eq!(flow.pending(), FlowAction::WriteCode);
    assert_eq!(flow.finish(), None);
}

#[test]
fn an_unfinished_operation_has_no_result() {
    let mut flow = Flow::submit(stop());
    flow.advance(&FlowEvent::Staged(StageOutcome::Written));
    flow.advance(&FlowEvent::Signalled { wrote: true, flushed: true });
    flow.advance(&line("still running\n"));
    assert_eq!(flow.finish(), None);
}

#[test]
fn a_timeout_ends_the_reading_with_a_timeout() {
    let mut flow = Flow::submit(stop());
    flow.advance(&FlowEvent::Staged(StageOutcome::Written));
    flow.advance(&FlowEvent::Signalled { wrote: true, flushed: true });
    flow.advance(&line("partial\n"));
    flow.advance(&FlowEvent::Read(ReadEvent::TimedOut));
    assert_eq!(flow.pending(), FlowAction::Report(ServiceError::ReadTimeout));
    assert_eq!(flow.finish(), Some(Err(ServiceError::ReadTimeout)));
}
