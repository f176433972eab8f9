//! Planning the start of a sandbox: where a user's code is staged, the
//! command that starts the sandbox over it, and the judgement of each step's
//! outcome.

use vstd::prelude::*;
use vstd::string::*;
use crate::error::ServiceError;

verus! {

/// How the attempt to create the staging directory ended.
#[derive(Clone, Copy, Debug, PartialEq, Eq, Structural)]
pub enum DirectoryOutcome {
    /// The directory was created.
    Created,
    /// The directory was there already.
    AlreadyExists,
    /// The directory could not be created for any other reason.
    Failed,
}

/// What to do to start a sandbox for one user.
#[derive(Debug)]
pub struct LaunchPlan {
    /// The staging directory, which must exist before the sandbox starts.
    pub directory: String,
    /// The program of the sandbox runtime.
    pub program: String,
    /// The arguments handed to it, in order.
    pub args: Vec<String>,
    /// Whether the sandbox's input is a pipe held by the caller.
    pub pipe_stdin: bool,
    /// Whether the sandbox's output is a pipe held by the caller.
    pub pipe_stdout: bool,
}

/// The per-user staging directory.
pub open spec fn staging_dir_spec(user: Seq<char>) -> Seq<char> {
    "./usr/"@ + user
}

/// The mount of the staging directory into the sandbox, read-only.
pub open spec fn volume_spec(user: Seq<char>) -> Seq<char> {
    staging_dir_spec(user) + ":/code:ro"@
}

/// The flag that keeps the input stream of the sandbox open, or the empty
/// argument.
pub open spec fn interactive_flag_spec(interactive: bool) -> Seq<char> {
    if interactive {
        "--interactive"@
    } else {
        ""@
    }
}

/// The program that runs sandboxes.
pub open spec fn program_spec() -> Seq<char> {
    "podman"@
}

/// The arguments that start a sandbox over a user's staging directory: the
/// interactive flag, once for the runtime and once for the interpreter in
/// it, the execution timeout, the read-only mount, the image, and the staged
/// file as the sandbox sees it.
pub open spec fn launch_args_spec(user: Seq<char>, interactive: bool) -> Seq<Seq<char>> {
    seq![
        "run"@,
        interactive_flag_spec(interactive),
        "--timeout"@,
        "3600"@,
        "-v"@,
        volume_spec(user),
        "lynx-runtime:0.4"@,
        interactive_flag_spec(interactive),
        "/code/code.py"@,
    ]
}

/// Whether a directory outcome lets the launch go on.
pub open spec fn directory_result_spec(outcome: DirectoryOutcome) -> Result<(), ServiceError> {
    match outcome {
        DirectoryOutcome::Failed => Err(ServiceError::DirectoryCreate),
        _ => Ok(()),
    }
}

/// Whether a started process can serve as a sandbox: the first of start,
/// output stream and input stream that is missing decides the failure.
pub open spec fn streams_result_spec(spawned: bool, has_stdout: bool, has_stdin: bool) -> Result<
    (),
    ServiceError,
> {
    if !spawned {
        Err(ServiceError::Spawn)
    } else if !has_stdout {
        Err(ServiceError::StdoutUnavailable)
    } else if !has_stdin {
        Err(ServiceError::StdinUnavailable)
    } else {
        Ok(())
    }
}

/// The per-user staging directory.
pub fn staging_dir(user: &str) -> (path: String)
    ensures
        path@ == staging_dir_spec(user@),
{
    String::from_str("./usr/").concat(user)
}

/// The mount argument for a user's staging directory.
pub fn volume_arg(user: &str) -> (arg: String)
    ensures
        arg@ == volume_spec(user@),
{
    staging_dir(user).concat(":/code:ro")
}

/// The interactive flag, or the empty argument.
pub fn interactive_flag(interactive: bool) -> (flag: String)
    ensures
        flag@ == interactive_flag_spec(interactive),
{
    if interactive {
        String::from_str("--interactive")
    } else {
        String::from_str("")
    }
}

/// The arguments that start a sandbox for `user`.
pub fn launch_args(user: &str, interactive: bool) -> (args: Vec<String>)
    ensures
        args.deep_view() == launch_args_spec(user@, interactive),
{
    let mut args: Vec<String> = Vec::new();
    args.push(String::from_str("run"));
    args.push(interactive_flag(interactive));
    args.push(String::from_str("--timeout"));
    args.push(String::from_str("3600"));
    args.push(String::from_str("-v"));
    args.push(volume_arg(user));
    args.push(String::from_str("lynx-runtime:0.4"));
    args.push(interactive_flag(interactive));
    args.push(String::from_str("/code/code.py"));
    assert(args.deep_view() =~= launch_args_spec(user@, interactive));
    args
}

/// Whether `plan` is the plan for starting a sandbox for `user`: the user's
/// staging directory, the sandbox runtime with its arguments, and both of
/// the sandbox's streams piped.
pub open spec fn is_plan_for(plan: LaunchPlan, user: Seq<char>, interactive: bool) -> bool {
    &&& plan.directory@ == staging_dir_spec(user)
    &&& plan.program@ == program_spec()
    &&& plan.args.deep_view() == launch_args_spec(user, interactive)
    &&& plan.pipe_stdin
    &&& plan.pipe_stdout
}

/// The whole plan for starting a sandbox for `user`.
pub fn plan_launch(user: &str, interactive: bool) -> (plan: LaunchPlan)
    ensures
        is_plan_for(plan, user@, interactive),
{
    LaunchPlan {
        directory: staging_dir(user),
        program: String::from_str("podman"),
        args: launch_args(user, interactive),
        pipe_stdin: true,
        pipe_stdout: true,
    }
}

/// Judges the preparation of the staging directory: that it was there
/// already is as good as its creation.
pub fn directory_result(outcome: DirectoryOutcome) -> (result: Result<(), ServiceError>)
    ensures
        result == directory_result_spec(outcome),
{
    match outcome {
        DirectoryOutcome::Created => Ok(()),
        DirectoryOutcome::AlreadyExists => Ok(()),
        DirectoryOutcome::Failed => Err(ServiceError::DirectoryCreate),
    }
}

/// Judges the start of the sandbox process and the presence of its streams.
pub fn streams_result(spawned: bool, has_stdout: bool, has_stdin: bool) -> (result: Result<
    (),
    ServiceError,
>)
    ensures
        result == streams_result_spec(spawned, has_stdout, has_stdin),
{
    if !spawned {
        Err(ServiceError::Spawn)
    } else if !has_stdout {
        Err(ServiceError::StdoutUnavailable)
    } else if !has_stdin {
        Err(ServiceError::StdinUnavailable)
    } else {
        Ok(())
    }
}

} // verus!
