use lynx_runner::error::{ErrorClass, ServiceError};
use lynx_runner::registry::SessionRegistry;
use lynx_runner::service::{
    create_error_envelope, create_reply, error_envelope, output_envelope, start_create,
    start_submit, submit_reply, CreateSessionRequest, ErrorResponse, Reply, SendCodeRequest,
    FAILURE_CODE,
};
use lynx_runner::store::{stage_code, stage_result, StageOutcome};

fn submission(user: &str, code: &[&str]) -> SendCodeRequest {
    SendCodeRequest {
        username: user.to_string(),
        code: code.iter().map(|s| s.to_string()).collect(),
    }
}

#[test]
fn error_response_new_keeps_code_and_message() {
    let response = ErrorResponse::new(-1, "Could not create new container".to_string());
    assert_eq!(response.code, -1);
    assert_eq!(response.error, "Could not create new container");
    let other = ErrorResponse::new(i32::MIN, String::new());
    assert_eq!(other.code, i32::MIN);
    assert_eq!(other.error, "");
}

#[test]
fn every_failure_has_its_class_and_message() {
    let table = [
        (ServiceError::DirectoryCreate, ErrorClass::Directory, "Could not create users directory"),
        (ServiceError::FileOpen, ErrorClass::FileWrite, "Could not open file with users code"),
        (ServiceError::FileTruncate, ErrorClass::FileWrite, "Could not clear contents of users file"),
        (ServiceError::FileWrite, ErrorClass::FileWrite, "Could not write users code into users file"),
        (ServiceError::Spawn, ErrorClass::Launch, "Could not run users container"),
        (ServiceError::StdoutUnavailable, ErrorClass::Launch, "Could not access child process stdout"),
        (ServiceError::StdinUnavailable, ErrorClass::Launch, "Could not access child process stdin"),
        (ServiceError::NoSession, ErrorClass::NotFound, "There is no interactive session for the user!"),
        (ServiceError::SessionExists, ErrorClass::AlreadyExists, "Session already exists"),
        (ServiceError::ReadFailed, ErrorClass::Bridge, "Could not read line from stdout"),
        (ServiceError::SignalFailed, ErrorClass::Bridge, "Could not signal the users container"),
        (ServiceError::ReadTimeout, ErrorClass::Timeout, "Timed out waiting for the users container"),
    ];
    for (error, class, message) in table {
        assert_eq!(error.class(), class);
        assert_eq!(error.message(), message);
        let envelope = error_envelope(error);
        assert_eq!(envelope.code, -1);
        assert_eq!(envelope.error, message);
    }
}

#[test]
fn failure_code_is_negative_one() {
    assert_eq!(FAILURE_CODE, -1);
}

#[test]
fn creation_failures_are_reported_in_two_texts() {
    for error in [
        ServiceError::DirectoryCreate,
        ServiceError::Spawn,
        ServiceError::StdoutUnavailable,
        ServiceError::StdinUnavailable,
    ] {
        let envelope = create_error_envelope(error);
        assert_eq!(envelope.code, -1);
        assert_eq!(envelope.error, "Could not create new container");
    }
    for error in [ServiceError::ReadFailed, ServiceError::SignalFailed] {
        assert_eq!(create_error_envelope(error).error, "Could not read new containers output");
    }
    assert_eq!(create_error_envelope(ServiceError::SessionExists).error, "Session already exists");
    assert_eq!(
        create_error_envelope(ServiceError::ReadTimeout).error,
        "Timed out waiting for the users container"
    );
    assert_eq!(
        create_error_envelope(ServiceError::FileOpen).error,
        "Could not open file with users code"
    );
}

#[test]
fn output_envelope_splits_both_transcripts() {
    let response = output_envelope("hi\nthere\n", "");
    assert_eq!(response.stdout, vec!["hi", "there", ""]);
    assert_eq!(response.stderr, vec![""]);
    let both = output_envelope("out", "warn\nmore");
    assert_eq!(both.stdout, vec!["out"]);
    assert_eq!(both.stderr, vec!["warn", "more"]);
}

#[test]
fn stage_outcomes_map_to_file_failures() {
    assert_eq!(stage_result(StageOutcome::Written), Ok(()));
    assert_eq!(stage_result(StageOutcome::OpenFailed), Err(ServiceError::FileOpen));
    assert_eq!(stage_result(StageOutcome::TruncateFailed), Err(ServiceError::FileTruncate));
    assert_eq!(stage_result(StageOutcome::WriteFailed), Err(ServiceError::FileWrite));
}

#[test]
fn staged_code_is_the_joined_lines_at_the_user_file() {
    let code = vec!["print(1)".to_string(), "print(2)".to_string()];
    let staged = stage_code("alice", &code);
    assert_eq!(staged.path, "./usr/alice/code.py");
    assert_eq!(staged.content, "print(1)\nprint(2)");
}

#[test]
fn submit_without_session_is_not_found() {
    let registry: SessionRegistry<u32> = SessionRegistry::new();
    let outcome = start_submit(&registry, &submission("alice", &["print(1)"]));
    assert_eq!(outcome.err(), Some(ServiceError::NoSession));
}

#[test]
fn submit_for_another_users_session_is_not_found() {
    let mut registry: SessionRegistry<u32> = SessionRegistry::new();
    registry.create("bob".to_string(), 1).unwrap();
    let outcome = start_submit(&registry, &submission("alice", &["print(1)"]));
    assert_eq!(outcome.err(), Some(ServiceError::NoSession));
}

#[test]
fn submit_with_session_stages_the_code() {
    let mut registry: SessionRegistry<u32> = SessionRegistry::new();
    registry.create("alice".to_string(), 1).unwrap();
    let staged = start_submit(&registry, &submission("alice", &["print('hi')", "x = 1"])).unwrap();
    assert_eq!(staged.path, "./usr/alice/code.py");
    assert_eq!(staged.content, "print('hi')\nx = 1");
}

#[test]
fn create_for_a_new_user_plans_an_interactive_launch() {
    let registry: SessionRegistry<u32> = SessionRegistry::new();
    let request = CreateSessionRequest { username: "alice".to_string() };
    let plan = start_create(&registry, &request).unwrap();
    assert_eq!(plan.directory, "./usr/alice");
    assert_eq!(plan.program, "podman");
    assert_eq!(plan.args[1], "--interactive");
    assert_eq!(plan.args[5], "./usr/alice:/code:ro");
    assert_eq!(plan.args.len(), 9);
    assert!(plan.pipe_stdin && plan.pipe_stdout);
}

#[test]
fn create_for_a_user_with_a_session_is_refused() {
    let mut registry: SessionRegistry<u32> = SessionRegistry::new();
    registry.create("alice".to_string(), 1).unwrap();
    let request = CreateSessionRequest { username: "alice".to_string() };
    assert_eq!(start_create(&registry, &request).err(), Some(ServiceError::SessionExists));
}

#[test]
fn submit_reply_carries_the_transcript_or_the_failure() {
    match submit_reply(Ok("hi\n<done>\n".to_string())) {
        Reply::Output(response) => {
            assert_eq!(response.stdout, vec!["hi", "<done>", ""]);
            assert_eq!(response.stderr, vec![""]);
        }
        other => panic!("expected output, got {:?}", other),
    }
    match submit_reply(Err(ServiceError::NoSession)) {
        Reply::Failure(response) => {
            assert_eq!(response.code, -1);
            assert_eq!(response.error, "There is no interactive session for the user!");
        }
        other => panic!("expected a failure, got {:?}", other),
    }
}

#[test]
fn create_reply_carries_the_text_or_the_failure() {
    match create_reply(Ok("scene\nready\n".to_string())) {
        Reply::Created(response) => assert_eq!(response.text, "scene\nready\n"),
        other => panic!("expected a created session, got {:?}", other),
    }
    match create_reply(Err(ServiceError::Spawn)) {
        Reply::Failure(response) => {
            assert_eq!(response.code, -1);
            assert_eq!(response.error, "Could not create new container");
        }
        other => panic!("expected a failure, got {:?}", other),
    }
    match create_reply(Err(ServiceError::ReadFailed)) {
        Reply::Failure(response) => {
            assert_eq!(response.error, "Could not read new containers output");
        }
        other => panic!("expected a failure, got {:?}", other),
    }
    match create_reply(Err(ServiceError::SessionExists)) {
        Reply::Failure(response) => assert_eq!(response.error, "Session already exists"),
        other => panic!("expected a failure, got {:?}", other),
    }
}

#[test]
fn only_a_broken_exchange_ends_the_session() {
    let ending =
        [ServiceError::ReadFailed, ServiceError::SignalFailed, ServiceError::ReadTimeout];
    let keeping = [
        ServiceError::DirectoryCreate,
        ServiceError::FileOpen,
        ServiceError::FileTruncate,
        ServiceError::FileWrite,
        ServiceError::Spawn,
        ServiceError::StdoutUnavailable,
        ServiceError::StdinUnavailable,
        ServiceError::NoSession,
        ServiceError::SessionExists,
    ];
    for error in ending {
        assert!(error.ends_session());
    }
    for error in keeping {
        assert!(!error.ends_session());
    }
}
