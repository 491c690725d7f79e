//! Creating the application's data directory: which outcomes of the file
//! system calls count as success.
use vstd::prelude::*;
use crate::text::joined;

verus! {

/// How creating the directory itself ended.
#[derive(Debug, PartialEq, Eq)]
pub enum CreateDirResult {
    Created,
    /// Another process created it first.
    AlreadyExists,
    /// Any other failure, with its description.
    Failed(String),
}

/// The outcome once the directory was found not to exist and its parent was
/// made or failed to be made (`parent_error`).
pub fn parent_outcome(parent_error: Option<String>) -> (r: Option<Result<bool, String>>)
    ensures
        match parent_error {
            None => r is None,
            Some(e) => r matches Some(Err(m)) && m@ == "Failed to create parent directory: "@
                + e@,
        },
{
    match parent_error {
        None => None,
        Some(e) => Some(Err(joined("Failed to create parent directory: ", e.as_str()))),
    }
}

/// The outcome of creating the directory itself.
pub fn create_outcome(created: CreateDirResult) -> (r: Result<bool, String>)
    ensures
        match r {
            Ok(b) => b && !(created is Failed),
            Err(m) => created matches CreateDirResult::Failed(e) && m@
                == "Failed to create directory: "@ + e@,
        },
{
    match created {
        CreateDirResult::Failed(e) => Err(joined("Failed to create directory: ", e.as_str())),
        _ => Ok(true),
    }
}

} // verus!
