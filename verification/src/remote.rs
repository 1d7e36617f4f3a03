//! Remotes: what a pull has to do and what it reports, and which credential
//! to offer at each attempt.

use vstd::prelude::*;
use vstd::string::*;
use crate::error::GitClientError;
use crate::merge::conflict_message;
use crate::text::decimal;

verus! {

/// How a pull ended.
#[derive(Debug, Clone, PartialEq, Eq)]
pub struct PullResult {
    pub success: bool,
    pub fast_forward: bool,
    pub conflicts: Vec<String>,
    pub message: String,
}

/// A remote as the client lists it.
#[derive(Debug, Clone, PartialEq, Eq)]
pub struct RemoteInfo {
    pub name: String,
    pub url: String,
    pub push_url: Option<String>,
}

/// The refspec that pushes local branch `branch` to the branch of the same
/// name.
pub fn push_refspec(branch: &str) -> (refspec: String)
    ensures
        refspec@ == "refs/heads/"@ + branch@ + ":refs/heads/"@ + branch@,
{
    String::from_str("refs/heads/").concat(branch).concat(":refs/heads/").concat(branch)
}

/// The reference of local branch `branch`.
pub fn branch_reference(branch: &str) -> (reference: String)
    ensures
        reference@ == "refs/heads/"@ + branch@,
{
    String::from_str("refs/heads/").concat(branch)
}

/// The result of a pull where there was nothing to do.
pub fn pull_up_to_date() -> (result: PullResult)
    ensures
        result.success,
        !result.fast_forward,
        result.conflicts@.len() == 0,
        result.message@ == "Already up to date"@,
{
    PullResult {
        success: true,
        fast_forward: false,
        conflicts: Vec::new(),
        message: String::from_str("Already up to date"),
    }
}

/// The result of a pull that moved the branch forward to commit
/// `target_id`.
pub fn pull_fast_forwarded(target_id: &str) -> (result: PullResult)
    ensures
        result.success,
        result.fast_forward,
        result.conflicts@.len() == 0,
        result.message@ == "Fast-forward to "@ + target_id@,
{
    PullResult {
        success: true,
        fast_forward: true,
        conflicts: Vec::new(),
        message: String::from_str("Fast-forward to ").concat(target_id),
    }
}

/// The result of a pull that left files in conflict, or `None` where it
/// left none and can be committed.
pub fn pull_conflicted(conflicts: Vec<String>) -> (result: Option<PullResult>)
    ensures
        result is Some <==> conflicts@.len() > 0,
        result matches Some(failed) ==> !failed.success && !failed.fast_forward
            && failed.conflicts == conflicts && failed.message@ == conflict_message(
            conflicts@.len(),
        ),
{
    if conflicts.len() == 0 {
        return None;
    }
    let message = String::from_str("Merge conflicts in ").concat(
        decimal(conflicts.len()).as_str(),
    ).concat(" files");
    Some(PullResult { success: false, fast_forward: false, conflicts, message })
}

/// The message of the commit that merges what was pulled from branch
/// `branch` of remote `remote`.
pub fn pull_commit_message(remote: &str, branch: &str) -> (message: String)
    ensures
        message@ == "Merge remote-tracking branch '"@ + remote@ + "/"@ + branch@ + "'"@,
{
    String::from_str("Merge remote-tracking branch '").concat(remote).concat("/").concat(
        branch,
    ).concat("'")
}

/// The result of a pull that was merged and committed.
pub fn pull_merged() -> (result: PullResult)
    ensures
        result.success,
        !result.fast_forward,
        result.conflicts@.len() == 0,
        result.message@ == "Pull completed with merge"@,
{
    PullResult {
        success: true,
        fast_forward: false,
        conflicts: Vec::new(),
        message: String::from_str("Pull completed with merge"),
    }
}

/// Whether a pull may start, and whether the local changes are to be
/// stashed first. A pull into a working tree with changes is refused unless
/// the user agreed to stash them.
pub fn pull_guard(is_dirty: bool, auto_stash: bool) -> (stash: Result<bool, GitClientError>)
    ensures
        stash is Err <==> is_dirty && !auto_stash,
        stash matches Ok(needed) ==> needed == (is_dirty && auto_stash),
        stash matches Err(error) ==> error matches GitClientError::Operation(detail) && detail@
            == "Worktree has uncommitted changes. Confirm auto-stash before pulling."@,
{
    if is_dirty && !auto_stash {
        Err(
            GitClientError::Operation(
                String::from_str(
                    "Worktree has uncommitted changes. Confirm auto-stash before pulling.",
                ),
            ),
        )
    } else {
        Ok(is_dirty && auto_stash)
    }
}

/// What is said where the stashed changes could not be restored after a
/// pull that succeeded, or after one that failed with `pull_error`.
pub open spec fn restore_failure_text(pull_error: Option<Seq<char>>, restore_error: Seq<char>) -> Seq<
    char,
> {
    match pull_error {
        None => "Pull succeeded, but failed to restore auto-stashed changes: "@ + restore_error,
        Some(failure) => "Pull failed ("@ + failure
            + "), and restoring auto-stashed changes also failed: "@ + restore_error,
    }
}

/// The error of a pull after which the stashed changes could not be
/// restored.
pub fn restore_failure(pull_error: Option<&str>, restore_error: &str) -> (error: GitClientError)
    ensures
        error matches GitClientError::Operation(detail) && detail@ == restore_failure_text(
            match pull_error {
                Some(failure) => Some(failure@),
                None => None,
            },
            restore_error@,
        ),
{
    let detail = match pull_error {
        None => String::from_str(
            "Pull succeeded, but failed to restore auto-stashed changes: ",
        ).concat(restore_error),
        Some(failure) => String::from_str("Pull failed (").concat(failure).concat(
            "), and restoring auto-stashed changes also failed: ",
        ).concat(restore_error),
    };
    GitClientError::Operation(detail)
}

/// What is said of a reference that the remote refused, with the remote's
/// reason.
pub fn push_rejection(reference: &str, reason: &str) -> (detail: String)
    ensures
        detail@ == "Failed to push "@ + reference@ + ": "@ + reason@,
{
    String::from_str("Failed to push ").concat(reference).concat(": ").concat(reason)
}

} // verus!
