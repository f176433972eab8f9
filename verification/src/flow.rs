//! The course of one operation against a sandbox, as a state machine.
//!
//! The machine decides; its driver acts. The driver asks which action is
//! pending, performs it on the host, and reports how it ended; the machine
//! takes that event to its next state. Creating a session prepares the
//! staging directory, starts the sandbox and reads until the sandbox reports
//! ready. Submitting code stages the code, signals the sandbox and reads
//! until the sandbox pauses again.

use vstd::prelude::*;
use vstd::string::*;
use crate::error::ServiceError;
use crate::launch::{
    directory_result,
    directory_result_spec,
    streams_result,
    streams_result_spec,
    DirectoryOutcome,
};
use crate::protocol::{
    event_text,
    quiet_prefix,
    signal_outcome,
    step_spec,
    MatchMode,
    ReadEvent,
    ReadStep,
    Sentinel,
    Transcript,
};
use crate::store::{stage_result, stage_result_spec, StageOutcome};

verus! {

/// Where an operation stands.
#[derive(Clone, Copy, Debug, PartialEq, Eq, Structural)]
pub enum FlowState {
    /// The staging directory is being prepared.
    AwaitDirectory,
    /// The sandbox is being started.
    AwaitSpawn,
    /// The submitted code is being written.
    AwaitStage,
    /// The resume token is being sent.
    AwaitSignal,
    /// A line of the sandbox's output is being read.
    AwaitLine,
    /// The sentinel has arrived: the transcript is complete.
    Succeeded,
    /// The operation has failed.
    Failed(ServiceError),
}

/// What the driver is to do next.
#[derive(Clone, Copy, Debug, PartialEq, Eq, Structural)]
pub enum FlowAction {
    /// Create the staging directory.
    PrepareDirectory,
    /// Start the sandbox with its streams piped.
    Spawn,
    /// Write the staged code to its file.
    WriteCode,
    /// Write the resume token to the sandbox and flush.
    Signal,
    /// Read one line from the sandbox.
    ReadLine,
    /// Hand the transcript to the caller.
    Deliver,
    /// Report the failure to the caller.
    Report(ServiceError),
}

/// How an action ended.
#[derive(Debug)]
pub enum FlowEvent {
    /// The staging directory was attempted.
    Directory(DirectoryOutcome),
    /// The start of the sandbox was attempted.
    Spawned { spawned: bool, has_stdout: bool, has_stdin: bool },
    /// The write of the staged code was attempted.
    Staged(StageOutcome),
    /// The resume token was attempted.
    Signalled { wrote: bool, flushed: bool },
    /// A read of one line was attempted.
    Read(ReadEvent),
}

/// One operation under way: its state, the sentinel that it waits for and
/// what the sandbox has said so far.
#[derive(Debug)]
pub struct Flow {
    pub state: FlowState,
    pub sentinel: Sentinel,
    pub transcript: Transcript,
}

/// The state that follows a judged step: `next` where the step went well,
/// failure otherwise.
pub open spec fn after(result: Result<(), ServiceError>, next: FlowState) -> FlowState {
    match result {
        Ok(_) => next,
        Err(error) => FlowState::Failed(error),
    }
}

/// The state that follows `state` on `event`. An event that does not answer
/// the pending action changes nothing; a finished operation stays finished.
pub open spec fn next_state_spec(
    state: FlowState,
    event: FlowEvent,
    pattern: Seq<char>,
    mode: MatchMode,
) -> FlowState {
    match (state, event) {
        (FlowState::AwaitDirectory, FlowEvent::Directory(outcome)) => after(
            directory_result_spec(outcome),
            FlowState::AwaitSpawn,
        ),
        (FlowState::AwaitSpawn, FlowEvent::Spawned { spawned, has_stdout, has_stdin }) => after(
            streams_result_spec(spawned, has_stdout, has_stdin),
            FlowState::AwaitLine,
        ),
        (FlowState::AwaitStage, FlowEvent::Staged(outcome)) => after(
            stage_result_spec(outcome),
            FlowState::AwaitSignal,
        ),
        (FlowState::AwaitSignal, FlowEvent::Signalled { wrote, flushed }) => if wrote && flushed {
            FlowState::AwaitLine
        } else {
            FlowState::Failed(ServiceError::SignalFailed)
        },
        (FlowState::AwaitLine, FlowEvent::Read(read)) => match step_spec(read, pattern, mode) {
            ReadStep::Continue => FlowState::AwaitLine,
            ReadStep::Complete => FlowState::Succeeded,
            ReadStep::Abort(error) => FlowState::Failed(error),
        },
        _ => state,
    }
}

/// The text that `event` adds to the transcript in `state`: the line of a
/// read that was waited for, and nothing otherwise.
pub open spec fn gathered_spec(state: FlowState, event: FlowEvent) -> Seq<char> {
    match (state, event) {
        (FlowState::AwaitLine, FlowEvent::Read(read)) => event_text(read),
        _ => Seq::empty(),
    }
}

/// The action that `state` waits for.
pub open spec fn pending_spec(state: FlowState) -> FlowAction {
    match state {
        FlowState::AwaitDirectory => FlowAction::PrepareDirectory,
        FlowState::AwaitSpawn => FlowAction::Spawn,
        FlowState::AwaitStage => FlowAction::WriteCode,
        FlowState::AwaitSignal => FlowAction::Signal,
        FlowState::AwaitLine => FlowAction::ReadLine,
        FlowState::Succeeded => FlowAction::Deliver,
        FlowState::Failed(error) => FlowAction::Report(error),
    }
}

/// Whether the operation has ended, well or badly.
pub open spec fn is_finished(state: FlowState) -> bool {
    state is Succeeded || state is Failed
}

/// The state after a whole run of events, taken in order.
pub open spec fn run_spec(
    state: FlowState,
    events: Seq<FlowEvent>,
    pattern: Seq<char>,
    mode: MatchMode,
) -> FlowState
    decreases events.len(),
{
    if events.len() == 0 {
        state
    } else {
        next_state_spec(run_spec(state, events.drop_last(), pattern, mode), events.last(), pattern, mode)
    }
}

/// The events of reading a stream, read by read.
pub open spec fn reads(stream: Seq<ReadEvent>) -> Seq<FlowEvent> {
    Seq::new(stream.len(), |i: int| FlowEvent::Read(stream[i]))
}

/// The state that follows a judged step.
fn after_step(result: Result<(), ServiceError>, next: FlowState) -> (state: FlowState)
    ensures
        state == after(result, next),
{
    match result {
        Ok(_) => next,
        Err(error) => FlowState::Failed(error),
    }
}

impl Flow {
    /// The creation of a session, which ends when `sentinel` arrives.
    pub fn create(sentinel: Sentinel) -> (flow: Flow)
        ensures
            flow.state == FlowState::AwaitDirectory,
            flow.sentinel == sentinel,
            flow.transcript@ == Seq::<char>::empty(),
    {
        Flow { state: FlowState::AwaitDirectory, sentinel, transcript: Transcript::new() }
    }

    /// The submission of code, which ends when `sentinel` arrives.
    pub fn submit(sentinel: Sentinel) -> (flow: Flow)
        ensures
            flow.state == FlowState::AwaitStage,
            flow.sentinel == sentinel,
            flow.transcript@ == Seq::<char>::empty(),
    {
        Flow { state: FlowState::AwaitStage, sentinel, transcript: Transcript::new() }
    }

    /// The action that the driver is to perform now.
    pub fn pending(&self) -> (action: FlowAction)
        ensures
            action == pending_spec(self.state),
    {
        match self.state {
            FlowState::AwaitDirectory => FlowAction::PrepareDirectory,
            FlowState::AwaitSpawn => FlowAction::Spawn,
            FlowState::AwaitStage => FlowAction::WriteCode,
            FlowState::AwaitSignal => FlowAction::Signal,
            FlowState::AwaitLine => FlowAction::ReadLine,
            FlowState::Succeeded => FlowAction::Deliver,
            FlowState::Failed(error) => FlowAction::Report(error),
        }
    }

    /// Takes the outcome of an action to the next state. A line that was
    /// waited for joins the transcript, whether or not it is the sentinel.
    pub fn advance(&mut self, event: &FlowEvent)
        ensures
            final(self).state == next_state_spec(
                old(self).state,
                *event,
                old(self).sentinel.pattern@,
                old(self).sentinel.mode,
            ),
            final(self).transcript@ == old(self).transcript@ + gathered_spec(
                old(self).state,
                *event,
            ),
            final(self).sentinel == old(self).sentinel,
    {
        proof {
            assert(self.transcript@ + Seq::<char>::empty() =~= self.transcript@);
        }
        match (self.state, event) {
            (FlowState::AwaitDirectory, FlowEvent::Directory(outcome)) => {
                self.state = after_step(directory_result(*outcome), FlowState::AwaitSpawn);
            },
            (FlowState::AwaitSpawn, FlowEvent::Spawned { spawned, has_stdout, has_stdin }) => {
                self.state = after_step(
                    streams_result(*spawned, *has_stdout, *has_stdin),
                    FlowState::AwaitLine,
                );
            },
            (FlowState::AwaitStage, FlowEvent::Staged(outcome)) => {
                self.state = after_step(stage_result(*outcome), FlowState::AwaitSignal);
            },
            (FlowState::AwaitSignal, FlowEvent::Signalled { wrote, flushed }) => {
                self.state = after_step(signal_outcome(*wrote, *flushed), FlowState::AwaitLine);
            },
            (FlowState::AwaitLine, FlowEvent::Read(read)) => {
                let step = self.transcript.absorb(read, &self.sentinel);
                self.state = match step {
                    ReadStep::Continue => FlowState::AwaitLine,
                    ReadStep::Complete => FlowState::Succeeded,
                    ReadStep::Abort(error) => FlowState::Failed(error),
                };
            },
            _ => {},
        }
    }

    /// The result of the operation: nothing while it is under way, then the
    /// transcript or the failure.
    pub fn finish(self) -> (outcome: Option<Result<String, ServiceError>>)
        ensures
            match self.state {
                FlowState::Succeeded => outcome matches Some(Ok(text)) && text@ == self.transcript@,
                FlowState::Failed(error) => outcome == Some(
                    Err::<String, ServiceError>(error),
                ),
                _ => outcome is None,
            },
    {
        match self.state {
            FlowState::Succeeded => Some(Ok(self.transcript.into_text())),
            FlowState::Failed(error) => Some(Err(error)),
            _ => None,
        }
    }
}

/// A finished operation stays as it is, whatever events still arrive.
pub proof fn lemma_finished_is_final(
    state: FlowState,
    events: Seq<FlowEvent>,
    pattern: Seq<char>,
    mode: MatchMode,
)
    requires
        is_finished(state),
    ensures
        run_spec(state, events, pattern, mode) == state,
    decreases events.len(),
{
    if events.len() > 0 {
        lemma_finished_is_final(state, events.drop_last(), pattern, mode);
    }
}

/// The states through which the creation of a session passes.
pub open spec fn in_creation(state: FlowState) -> bool {
    !(state is AwaitStage) && !(state is AwaitSignal)
}

/// The states through which a submission passes.
pub open spec fn in_submission(state: FlowState) -> bool {
    !(state is AwaitDirectory) && !(state is AwaitSpawn)
}

/// The creation of a session never asks for code to be staged or for a
/// sandbox to be signalled, whatever events arrive.
pub proof fn lemma_creation_stays_in_creation(
    events: Seq<FlowEvent>,
    pattern: Seq<char>,
    mode: MatchMode,
)
    ensures
        in_creation(run_spec(FlowState::AwaitDirectory, events, pattern, mode)),
    decreases events.len(),
{
    if events.len() > 0 {
        lemma_creation_stays_in_creation(events.drop_last(), pattern, mode);
    }
}

/// A submission never asks for a directory or for a sandbox to be started,
/// whatever events arrive.
pub proof fn lemma_submission_stays_in_submission(
    events: Seq<FlowEvent>,
    pattern: Seq<char>,
    mode: MatchMode,
)
    ensures
        in_submission(run_spec(FlowState::AwaitStage, events, pattern, mode)),
    decreases events.len(),
{
    if events.len() > 0 {
        lemma_submission_stays_in_submission(events.drop_last(), pattern, mode);
    }
}

/// While the lines read are no sentinel, the operation keeps reading.
pub proof fn lemma_quiet_lines_keep_reading(
    stream: Seq<ReadEvent>,
    pattern: Seq<char>,
    mode: MatchMode,
    n: int,
)
    requires
        0 <= n <= stream.len(),
        quiet_prefix(stream, pattern, mode, n),
    ensures
        run_spec(FlowState::AwaitLine, reads(stream.take(n)), pattern, mode)
            == FlowState::AwaitLine,
    decreases n,
{
    if n > 0 {
        lemma_quiet_lines_keep_reading(stream, pattern, mode, n - 1);
        let events = reads(stream.take(n));
        assert(events.drop_last() =~= reads(stream.take(n - 1)));
        assert(events.last() == FlowEvent::Read(stream[n - 1]));
        assert(step_spec(stream[n - 1], pattern, mode) == ReadStep::Continue);
    }
}

/// The machine reads a stream as `read_until_sentinel` does: after the lines
/// that are no sentinel, the next event decides. The sentinel completes the
/// operation, and a read that brought no line fails it.
pub proof fn lemma_reading_follows_stream(
    stream: Seq<ReadEvent>,
    pattern: Seq<char>,
    mode: MatchMode,
    n: int,
)
    requires
        0 <= n < stream.len(),
        quiet_prefix(stream, pattern, mode, n),
    ensures
        run_spec(FlowState::AwaitLine, reads(stream.take(n + 1)), pattern, mode) == match step_spec(
            stream[n],
            pattern,
            mode,
        ) {
            ReadStep::Continue => FlowState::AwaitLine,
            ReadStep::Complete => FlowState::Succeeded,
            ReadStep::Abort(error) => FlowState::Failed(error),
        },
{
    lemma_quiet_lines_keep_reading(stream, pattern, mode, n);
    let events = reads(stream.take(n + 1));
    assert(events.drop_last() =~= reads(stream.take(n)));
    assert(events.last() == FlowEvent::Read(stream[n]));
}

/// Only the sentinel ends an operation well: it succeeds on an event exactly
/// when it was waiting for a line and the line read is the sentinel.
pub proof fn lemma_success_needs_sentinel(
    state: FlowState,
    event: FlowEvent,
    pattern: Seq<char>,
    mode: MatchMode,
)
    requires
        !(state is Succeeded),
    ensures
        next_state_spec(state, event, pattern, mode) is Succeeded <==> (state is AwaitLine
            && event is Read && step_spec(event->Read_0, pattern, mode) == ReadStep::Complete),
{
}

} // verus!
