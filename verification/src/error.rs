//! The failures that the service reports, their classes and their messages.

use vstd::prelude::*;
use vstd::string::*;

verus! {

/// The classes into which every failure falls.
#[derive(Clone, Copy, Debug, PartialEq, Eq, Structural)]
pub enum ErrorClass {
    /// The staging directory could not be prepared.
    Directory,
    /// The submitted code could not be staged.
    FileWrite,
    /// The sandbox could not be started, or a stream of it is missing.
    Launch,
    /// No session exists for the user.
    NotFound,
    /// A session for the user exists already.
    AlreadyExists,
    /// Reading from or writing to the sandbox failed.
    Bridge,
    /// The sandbox did not answer in time.
    Timeout,
}

/// One failure of the service, as precise as the place where it arose.
#[derive(Clone, Copy, Debug, PartialEq, Eq, Structural)]
pub enum ServiceError {
    /// Creating the staging directory failed for a reason other than its
    /// being there already.
    DirectoryCreate,
    /// The staged file could not be opened or created.
    FileOpen,
    /// The staged file could not be emptied.
    FileTruncate,
    /// The code could not be written into the staged file.
    FileWrite,
    /// The sandbox process could not be started.
    Spawn,
    /// The started sandbox has no output stream.
    StdoutUnavailable,
    /// The started sandbox has no input stream.
    StdinUnavailable,
    /// No session exists for the user.
    NoSession,
    /// A session exists already for the user.
    SessionExists,
    /// A line could not be read from the sandbox, or its stream has closed.
    ReadFailed,
    /// The resume token could not be written or flushed.
    SignalFailed,
    /// No line came from the sandbox within the time allowed.
    ReadTimeout,
}

impl ServiceError {
    /// The class of the failure.
    pub open spec fn class_spec(self) -> ErrorClass {
        match self {
            ServiceError::DirectoryCreate => ErrorClass::Directory,
            ServiceError::FileOpen => ErrorClass::FileWrite,
            ServiceError::FileTruncate => ErrorClass::FileWrite,
            ServiceError::FileWrite => ErrorClass::FileWrite,
            ServiceError::Spawn => ErrorClass::Launch,
            ServiceError::StdoutUnavailable => ErrorClass::Launch,
            ServiceError::StdinUnavailable => ErrorClass::Launch,
            ServiceError::NoSession => ErrorClass::NotFound,
            ServiceError::SessionExists => ErrorClass::AlreadyExists,
            ServiceError::ReadFailed => ErrorClass::Bridge,
            ServiceError::SignalFailed => ErrorClass::Bridge,
            ServiceError::ReadTimeout => ErrorClass::Timeout,
        }
    }

    /// The text shown to the caller for the failure.
    pub open spec fn message_spec(self) -> Seq<char> {
        match self {
            ServiceError::DirectoryCreate => "Could not create users directory"@,
            ServiceError::FileOpen => "Could not open file with users code"@,
            ServiceError::FileTruncate => "Could not clear contents of users file"@,
            ServiceError::FileWrite => "Could not write users code into users file"@,
            ServiceError::Spawn => "Could not run users container"@,
            ServiceError::StdoutUnavailable => "Could not access child process stdout"@,
            ServiceError::StdinUnavailable => "Could not access child process stdin"@,
            ServiceError::NoSession => "There is no interactive session for the user!"@,
            ServiceError::SessionExists => "Session already exists"@,
            ServiceError::ReadFailed => "Could not read line from stdout"@,
            ServiceError::SignalFailed => "Could not signal the users container"@,
            ServiceError::ReadTimeout => "Timed out waiting for the users container"@,
        }
    }

    /// The class of the failure.
    pub fn class(&self) -> (class: ErrorClass)
        ensures
            class == self.class_spec(),
    {
        match self {
            ServiceError::DirectoryCreate => ErrorClass::Directory,
            ServiceError::FileOpen | ServiceError::FileTruncate | ServiceError::FileWrite => {
                ErrorClass::FileWrite
            },
            ServiceError::Spawn
            | ServiceError::StdoutUnavailable
            | ServiceError::StdinUnavailable => ErrorClass::Launch,
            ServiceError::NoSession => ErrorClass::NotFound,
            ServiceError::SessionExists => ErrorClass::AlreadyExists,
            ServiceError::ReadFailed | ServiceError::SignalFailed => ErrorClass::Bridge,
            ServiceError::ReadTimeout => ErrorClass::Timeout,
        }
    }

    /// Whether the failure leaves the user's sandbox beyond use, so that the
    /// session is to be removed and the sandbox shut down: so it is when the
    /// exchange with the sandbox broke down or ran out of time.
    pub fn ends_session(&self) -> (ends: bool)
        ensures
            ends == (self.class_spec() == ErrorClass::Bridge || self.class_spec()
                == ErrorClass::Timeout),
    {
        match self {
            ServiceError::ReadFailed | ServiceError::SignalFailed | ServiceError::ReadTimeout => {
                true
            },
            _ => false,
        }
    }

    /// The text shown to the caller for the failure.
    pub fn message(&self) -> (text: String)
        ensures
            text@ == self.message_spec(),
    {
        let text: &str = match self {
            ServiceError::DirectoryCreate => "Could not create users directory",
            ServiceError::FileOpen => "Could not open file with users code",
            ServiceError::FileTruncate => "Could not clear contents of users file",
            ServiceError::FileWrite => "Could not write users code into users file",
            ServiceError::Spawn => "Could not run users container",
            ServiceError::StdoutUnavailable => "Could not access child process stdout",
            ServiceError::StdinUnavailable => "Could not access child process stdin",
            ServiceError::NoSession => "There is no interactive session for the user!",
            ServiceError::SessionExists => "Session already exists",
            ServiceError::ReadFailed => "Could not read line from stdout",
            ServiceError::SignalFailed => "Could not signal the users container",
            ServiceError::ReadTimeout => "Timed out waiting for the users container",
        };
        String::from_str(text)
    }
}

} // verus!
