//! The two operations offered to callers, creating a session and submitting
//! code to one, as decisions around the work that only the host can do, and
//! the envelopes in which their results travel.

use vstd::prelude::*;
use vstd::string::*;
use crate::error::{ErrorClass, ServiceError};
use crate::launch::{is_plan_for, plan_launch, LaunchPlan};
use crate::registry::SessionRegistry;
use crate::store::{stage_code, staged_file_spec, StagedCode};
use crate::text::{join_lines_spec, split_lines, split_lines_spec};

verus! {

/// The request to create a session.
#[derive(Debug)]
pub struct CreateSessionRequest {
    pub username: String,
}

/// The request to run code in a session: the user and the lines of source.
#[derive(Debug)]
pub struct SendCodeRequest {
    pub username: String,
    pub code: Vec<String>,
}

/// The output of a sandbox, line by line.
#[derive(Debug)]
pub struct SendCodeResponse {
    pub stdout: Vec<String>,
    pub stderr: Vec<String>,
}

/// What the creation of a session answers: the text with which the sandbox
/// reported ready.
#[derive(Debug)]
pub struct CreateSessionResponse {
    pub text: String,
}

/// The envelope of a failure: a negative code and a message.
#[derive(Debug)]
pub struct ErrorResponse {
    pub code: i32,
    pub error: String,
}

/// What goes back to the caller of either operation.
#[derive(Debug)]
pub enum Reply {
    Created(CreateSessionResponse),
    Output(SendCodeResponse),
    Failure(ErrorResponse),
}

/// The code that every failure envelope carries.
pub const FAILURE_CODE: i32 = -1;

/// The message with which the creation of a session reports a failure: one
/// text for all that keeps the sandbox from starting, one for a sandbox that
/// does not report ready, and the failure's own text otherwise.
pub open spec fn create_message_spec(error: ServiceError) -> Seq<char> {
    match error.class_spec() {
        ErrorClass::Directory => "Could not create new container"@,
        ErrorClass::Launch => "Could not create new container"@,
        ErrorClass::Bridge => "Could not read new containers output"@,
        _ => error.message_spec(),
    }
}

impl ErrorResponse {
    /// The envelope with the given code and message.
    pub fn new(code: i32, error: String) -> (response: ErrorResponse)
        ensures
            response.code == code,
            response.error@ == error@,
    {
        ErrorResponse { code, error }
    }
}

/// The envelope of a failure while code was submitted.
pub fn error_envelope(error: ServiceError) -> (response: ErrorResponse)
    ensures
        response.code == FAILURE_CODE,
        response.error@ == error.message_spec(),
{
    ErrorResponse::new(FAILURE_CODE, error.message())
}

/// The envelope of a failure while a session was created.
pub fn create_error_envelope(error: ServiceError) -> (response: ErrorResponse)
    ensures
        response.code == FAILURE_CODE,
        response.error@ == create_message_spec(error),
{
    let message = match error.class() {
        ErrorClass::Directory | ErrorClass::Launch => String::from_str(
            "Could not create new container",
        ),
        ErrorClass::Bridge => String::from_str("Could not read new containers output"),
        _ => error.message(),
    };
    ErrorResponse::new(FAILURE_CODE, message)
}

/// The envelope of a sandbox's output: each transcript split at its line
/// terminators.
pub fn output_envelope(stdout: &str, stderr: &str) -> (response: SendCodeResponse)
    ensures
        response.stdout.deep_view() == split_lines_spec(stdout@),
        response.stderr.deep_view() == split_lines_spec(stderr@),
{
    SendCodeResponse { stdout: split_lines(stdout), stderr: split_lines(stderr) }
}

/// Opens a submission. For a user without a session it is refused at once,
/// before anything is staged or sent to a sandbox; otherwise the result is
/// the code to stage.
pub fn start_submit<H>(registry: &SessionRegistry<H>, request: &SendCodeRequest) -> (outcome:
    Result<StagedCode, ServiceError>)
    requires
        registry.wf(),
    ensures
        match outcome {
            Ok(staged) => {
                &&& registry@.contains_key(request.username@)
                &&& staged.path@ == staged_file_spec(request.username@)
                &&& staged.content@ == join_lines_spec(request.code.deep_view())
            },
            Err(error) => {
                &&& !registry@.contains_key(request.username@)
                &&& error == ServiceError::NoSession
            },
        },
{
    if registry.contains(request.username.as_str()) {
        Ok(stage_code(request.username.as_str(), &request.code))
    } else {
        Err(ServiceError::NoSession)
    }
}

/// Opens the creation of a session. For a user who has one it is refused at
/// once, before any sandbox is started; otherwise the result is the plan for
/// starting an interactive sandbox.
pub fn start_create<H>(registry: &SessionRegistry<H>, request: &CreateSessionRequest) -> (outcome:
    Result<LaunchPlan, ServiceError>)
    requires
        registry.wf(),
    ensures
        match outcome {
            Ok(plan) => {
                &&& !registry@.contains_key(request.username@)
                &&& is_plan_for(plan, request.username@, true)
            },
            Err(error) => {
                &&& registry@.contains_key(request.username@)
                &&& error == ServiceError::SessionExists
            },
        },
{
    if registry.contains(request.username.as_str()) {
        Err(ServiceError::SessionExists)
    } else {
        Ok(plan_launch(request.username.as_str(), true))
    }
}

/// The reply to a submission: the transcript as output, with nothing on the
/// error stream, or the failure in its envelope.
pub fn submit_reply(outcome: Result<String, ServiceError>) -> (reply: Reply)
    ensures
        match outcome {
            Ok(transcript) => reply matches Reply::Output(response) && {
                &&& response.stdout.deep_view() == split_lines_spec(transcript@)
                &&& response.stderr.deep_view() == split_lines_spec(Seq::<char>::empty())
            },
            Err(error) => reply matches Reply::Failure(response) && {
                &&& response.code == FAILURE_CODE
                &&& response.error@ == error.message_spec()
            },
        },
{
    match outcome {
        Ok(transcript) => {
            let empty = String::new();
            Reply::Output(output_envelope(transcript.as_str(), empty.as_str()))
        },
        Err(error) => Reply::Failure(error_envelope(error)),
    }
}

/// The reply to the creation of a session: what the sandbox said until it
/// was ready, or the failure in its envelope.
pub fn create_reply(outcome: Result<String, ServiceError>) -> (reply: Reply)
    ensures
        match outcome {
            Ok(transcript) => reply matches Reply::Created(response) && response.text@
                == transcript@,
            Err(error) => reply matches Reply::Failure(response) && {
                &&& response.code == FAILURE_CODE
                &&& response.error@ == create_message_spec(error)
            },
        },
{
    match outcome {
        Ok(transcript) => Reply::Created(CreateSessionResponse { text: transcript }),
        Err(error) => Reply::Failure(create_error_envelope(error)),
    }
}

} // verus!
