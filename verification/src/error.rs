//! The error of every operation of the client.

use vstd::prelude::*;
use vstd::string::*;

verus! {

/// What went wrong. Errors that come from the version-control engine or
/// from the file system are held by their message.
#[derive(Debug, Clone, PartialEq, Eq)]
pub enum GitClientError {
    Git(String),
    NoRepository,
    RepoNotFound(String),
    InvalidPath(String),
    Io(String),
    Lock(String),
    Operation(String),
}

impl GitClientError {
    /// The text shown to the user for this error.
    pub open spec fn message_text(self) -> Seq<char> {
        match self {
            GitClientError::Git(detail) => "Git error: "@ + detail@,
            GitClientError::NoRepository => "No repository open"@,
            GitClientError::RepoNotFound(path) => "Repository not found at path: "@ + path@,
            GitClientError::InvalidPath(path) => "Invalid path: "@ + path@,
            GitClientError::Io(detail) => "IO error: "@ + detail@,
            GitClientError::Lock(detail) => "Lock error: "@ + detail@,
            GitClientError::Operation(detail) => "Operation failed: "@ + detail@,
        }
    }

    /// The text shown to the user for this error.
    pub fn message(&self) -> (text: String)
        ensures
            text@ == self.message_text(),
    {
        match self {
            GitClientError::Git(detail) => String::from_str("Git error: ").concat(detail.as_str()),
            GitClientError::NoRepository => String::from_str("No repository open"),
            GitClientError::RepoNotFound(path) => String::from_str(
                "Repository not found at path: ",
            ).concat(path.as_str()),
            GitClientError::InvalidPath(path) => String::from_str("Invalid path: ").concat(
                path.as_str(),
            ),
            GitClientError::Io(detail) => String::from_str("IO error: ").concat(detail.as_str()),
            GitClientError::Lock(detail) => String::from_str("Lock error: ").concat(
                detail.as_str(),
            ),
            GitClientError::Operation(detail) => String::from_str("Operation failed: ").concat(
                detail.as_str(),
            ),
        }
    }
}

} // verus!
