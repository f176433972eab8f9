//! The code store: where a submission is staged for the sandbox, what is
//! written there, and the judgement of the write.

use vstd::prelude::*;
use vstd::string::*;
use crate::error::ServiceError;
use crate::launch::{staging_dir, staging_dir_spec};
use crate::text::{join_lines, join_lines_spec};

verus! {

/// The code of a submission, ready to be written: the file and its content.
#[derive(Debug)]
pub struct StagedCode {
    pub path: String,
    pub content: String,
}

/// How the attempt to write the staged file ended.
#[derive(Clone, Copy, Debug, PartialEq, Eq, Structural)]
pub enum StageOutcome {
    /// The file holds the new content.
    Written,
    /// The file could not be opened or created.
    OpenFailed,
    /// The file could not be emptied.
    TruncateFailed,
    /// The content could not be written.
    WriteFailed,
}

/// The file in which a user's code is staged.
pub open spec fn staged_file_spec(user: Seq<char>) -> Seq<char> {
    staging_dir_spec(user) + "/code.py"@
}

/// Whether a staging outcome lets the submission go on.
pub open spec fn stage_result_spec(outcome: StageOutcome) -> Result<(), ServiceError> {
    match outcome {
        StageOutcome::Written => Ok(()),
        StageOutcome::OpenFailed => Err(ServiceError::FileOpen),
        StageOutcome::TruncateFailed => Err(ServiceError::FileTruncate),
        StageOutcome::WriteFailed => Err(ServiceError::FileWrite),
    }
}

/// The file in which a user's code is staged.
pub fn staged_file(user: &str) -> (path: String)
    ensures
        path@ == staged_file_spec(user@),
{
    staging_dir(user).concat("/code.py")
}

/// Judges the staging of the code.
pub fn stage_result(outcome: StageOutcome) -> (result: Result<(), ServiceError>)
    ensures
        result == stage_result_spec(outcome),
{
    match outcome {
        StageOutcome::Written => Ok(()),
        StageOutcome::OpenFailed => Err(ServiceError::FileOpen),
        StageOutcome::TruncateFailed => Err(ServiceError::FileTruncate),
        StageOutcome::WriteFailed => Err(ServiceError::FileWrite),
    }
}

/// The file and the content that stage the lines of a submission.
pub fn stage_code(user: &str, lines: &Vec<String>) -> (staged: StagedCode)
    ensures
        staged.path@ == staged_file_spec(user@),
        staged.content@ == join_lines_spec(lines.deep_view()),
{
    StagedCode { path: staged_file(user), content: join_lines(lines) }
}

} // verus!
