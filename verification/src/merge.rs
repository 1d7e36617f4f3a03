//! Branches and merges: what a merge has to do, and what it reports.

use vstd::prelude::*;
use vstd::string::*;
use crate::error::GitClientError;
use crate::path_parts::begins_with;
use crate::path_parts::chars_begin_with;
use crate::text::chars_of;
use crate::text::decimal;
use crate::text::decimal_digits;
use crate::text::string_of;
use crate::text::text_of;

verus! {

/// How a merge ended.
#[derive(Debug, Clone, PartialEq, Eq)]
pub struct MergeResult {
    pub success: bool,
    pub fast_forward: bool,
    pub conflicts: Vec<String>,
    pub message: String,
}

/// A branch as the client lists it.
#[derive(Debug, Clone, PartialEq, Eq)]
pub struct BranchInfo {
    pub name: String,
    pub is_head: bool,
    pub is_remote: bool,
    pub is_default: bool,
    pub upstream: Option<String>,
    pub commit_id: Option<String>,
    pub commit_summary: Option<String>,
    pub ahead: Option<usize>,
    pub behind: Option<usize>,
}

/// What the engine finds when it compares the current branch with the one
/// to merge.
#[derive(Debug, Clone, Copy, PartialEq, Eq, Structural)]
pub struct MergeAnalysis {
    pub up_to_date: bool,
    pub fast_forward: bool,
}

/// What a merge has to do.
#[derive(Debug, Clone, Copy, PartialEq, Eq, Structural)]
pub enum MergeStep {
    /// Nothing: the current branch holds the other already.
    UpToDate,
    /// Move the current branch forward to the other.
    FastForward,
    /// Merge the two histories.
    Merge,
}

/// What a merge has to do: nothing where the branch is up to date, even
/// if it could also be moved forward; else a move forward where that is
/// possible; else a merge.
pub fn merge_step(analysis: MergeAnalysis) -> (step: MergeStep)
    ensures
        step == if analysis.up_to_date {
            MergeStep::UpToDate
        } else if analysis.fast_forward {
            MergeStep::FastForward
        } else {
            MergeStep::Merge
        },
{
    if analysis.up_to_date {
        MergeStep::UpToDate
    } else if analysis.fast_forward {
        MergeStep::FastForward
    } else {
        MergeStep::Merge
    }
}

/// The result of a merge where there was nothing to do.
pub fn already_up_to_date() -> (result: MergeResult)
    ensures
        result.success,
        !result.fast_forward,
        result.conflicts@.len() == 0,
        result.message@ == "Already up to date"@,
{
    MergeResult {
        success: true,
        fast_forward: false,
        conflicts: Vec::new(),
        message: String::from_str("Already up to date"),
    }
}

/// The reference that a fast-forward moves: the branch that `HEAD` is on.
/// A detached `HEAD` cannot be moved forward. Where the branch has no short
/// name, `HEAD` stands for it.
pub fn fast_forward_reference(head_is_branch: bool, head_shorthand: Option<&str>) -> (reference:
    Result<String, GitClientError>)
    ensures
        reference is Ok <==> head_is_branch,
        reference matches Ok(name) ==> name@ == "refs/heads/"@ + match head_shorthand {
            Some(short) => short@,
            None => "HEAD"@,
        },
        reference matches Err(error) ==> error matches GitClientError::Operation(detail)
            && detail@ == "Cannot fast-forward merge: HEAD is detached"@,
{
    if !head_is_branch {
        return Err(
            GitClientError::Operation(
                String::from_str("Cannot fast-forward merge: HEAD is detached"),
            ),
        );
    }
    let short = match head_shorthand {
        Some(short) => short,
        None => "HEAD",
    };
    Ok(String::from_str("refs/heads/").concat(short))
}

/// The result of a merge that moved the branch forward to commit
/// `target_id`.
pub fn fast_forwarded(target_id: &str) -> (result: MergeResult)
    ensures
        result.success,
        result.fast_forward,
        result.conflicts@.len() == 0,
        result.message@ == "Fast-forward to "@ + target_id@,
{
    MergeResult {
        success: true,
        fast_forward: true,
        conflicts: Vec::new(),
        message: String::from_str("Fast-forward to ").concat(target_id),
    }
}

/// What is said of `count` files in conflict.
pub open spec fn conflict_message(count: nat) -> Seq<char> {
    "Merge conflicts in "@ + decimal_digits(count) + " files"@
}

/// The result of a merge that left files in conflict, or `None` where it
/// left none and can be committed.
pub fn conflicted(conflicts: Vec<String>) -> (result: Option<MergeResult>)
    ensures
        result is Some <==> conflicts@.len() > 0,
        result matches Some(failed) ==> !failed.success && !failed.fast_forward
            && failed.conflicts == conflicts && failed.message@ == conflict_message(
            conflicts@.len(),
        ),
{
    if conflicts.len() == 0 {
        return None;
    }
    let message = String::from_str("Merge conflicts in ").concat(
        decimal(conflicts.len()).as_str(),
    ).concat(" files");
    Some(MergeResult { success: false, fast_forward: false, conflicts, message })
}

/// The message of the commit that merges branch `name`.
pub fn merge_commit_message(name: &str) -> (message: String)
    ensures
        message@ == "Merge branch '"@ + name@ + "'"@,
{
    String::from_str("Merge branch '").concat(name).concat("'")
}

/// The result of a merge of branch `name` that was committed.
pub fn merged(name: &str) -> (result: MergeResult)
    ensures
        result.success,
        !result.fast_forward,
        result.conflicts@.len() == 0,
        result.message@ == "Merged branch '"@ + name@ + "'"@,
{
    MergeResult {
        success: true,
        fast_forward: false,
        conflicts: Vec::new(),
        message: String::from_str("Merged branch '").concat(name).concat("'"),
    }
}

/// The side that stands for a file in conflict: ours, else theirs, else
/// the common ancestor.
pub fn first_side<T>(our: Option<T>, their: Option<T>, ancestor: Option<T>) -> (side: Option<T>)
    ensures
        side == if our is Some {
            our
        } else if their is Some {
            their
        } else {
            ancestor
        },
{
    match our {
        Some(side) => Some(side),
        None => match their {
            Some(side) => Some(side),
            None => ancestor,
        },
    }
}

/// The error of a checkout that failed: where local changes stood in the
/// way, the advice to commit or stash them; else the engine's own error.
pub fn checkout_error(is_conflict: bool, detail: String) -> (error: GitClientError)
    ensures
        is_conflict ==> (error matches GitClientError::Operation(advice) && advice@
            == "Cannot switch branches: you have uncommitted changes that would be overwritten. Commit or stash them first."@),
        !is_conflict ==> error == GitClientError::Git(detail),
{
    if is_conflict {
        GitClientError::Operation(
            String::from_str(
                "Cannot switch branches: you have uncommitted changes that would be overwritten. Commit or stash them first.",
            ),
        )
    } else {
        GitClientError::Git(detail)
    }
}

/// The branch that a remote's `HEAD` points at, by the reference it points
/// to: what follows `refs/remotes/origin/`. `None` where the reference is
/// of another form.
pub open spec fn default_branch_of(target: Seq<char>) -> Option<Seq<char>> {
    if begins_with(target, "refs/remotes/origin/"@) {
        Some(target.skip("refs/remotes/origin/"@.len() as int))
    } else {
        None
    }
}

/// The branch that a remote's `HEAD` points at.
pub fn default_branch_name(target: &str) -> (name: Option<String>)
    ensures
        text_of(name) == default_branch_of(target@),
{
    let chars = chars_of(target);
    let prefix = chars_of("refs/remotes/origin/");
    if !chars_begin_with(chars.as_slice(), prefix.as_slice()) {
        return None;
    }
    let mut rest: Vec<char> = Vec::new();
    let mut i: usize = prefix.len();
    while i < chars.len()
        invariant
            prefix@.len() <= i <= chars@.len(),
            rest@ == chars@.subrange(prefix@.len() as int, i as int),
        decreases chars@.len() - i,
    {
        rest.push(chars[i]);
        assert(chars@.subrange(prefix@.len() as int, i + 1) =~= chars@.subrange(
            prefix@.len() as int,
            i as int,
        ).push(chars@[i as int]));
        i += 1;
    }
    assert(rest@ =~= chars@.skip(prefix@.len() as int));
    Some(string_of(rest.as_slice()))
}

/// A branch as plain values.
pub struct BranchView {
    pub name: Seq<char>,
    pub is_head: bool,
    pub is_remote: bool,
    pub is_default: bool,
    pub upstream: Option<Seq<char>>,
    pub commit_id: Option<Seq<char>>,
    pub commit_summary: Option<Seq<char>>,
    pub ahead: Option<usize>,
    pub behind: Option<usize>,
}

impl View for BranchInfo {
    type V = BranchView;

    open spec fn view(&self) -> BranchView {
        BranchView {
            name: self.name@,
            is_head: self.is_head,
            is_remote: self.is_remote,
            is_default: self.is_default,
            upstream: text_of(self.upstream),
            commit_id: text_of(self.commit_id),
            commit_summary: text_of(self.commit_summary),
            ahead: self.ahead,
            behind: self.behind,
        }
    }
}

/// What is known of a branch before it is listed.
#[derive(Debug, Clone, PartialEq, Eq)]
pub struct BranchFacts {
    pub name: String,
    pub is_remote: bool,
    pub upstream: Option<String>,
    pub commit_id: Option<String>,
    pub commit_summary: Option<String>,
    /// How far the branch is ahead of and behind its upstream, where that
    /// could be counted.
    pub ahead_behind: Option<(usize, usize)>,
}

/// The listing of a branch: it is the current branch where `head_name` is
/// its name, the default branch where `default_name` is its name, and only
/// a local branch is given its distance from its upstream.
pub open spec fn listed_branch(
    facts: BranchFacts,
    head_name: Option<Seq<char>>,
    default_name: Option<Seq<char>>,
) -> BranchView {
    BranchView {
        name: facts.name@,
        is_head: head_name == Some(facts.name@),
        is_remote: facts.is_remote,
        is_default: default_name == Some(facts.name@),
        upstream: text_of(facts.upstream),
        commit_id: text_of(facts.commit_id),
        commit_summary: text_of(facts.commit_summary),
        ahead: match facts.ahead_behind {
            Some(distance) if !facts.is_remote => Some(distance.0),
            _ => None,
        },
        behind: match facts.ahead_behind {
            Some(distance) if !facts.is_remote => Some(distance.1),
            _ => None,
        },
    }
}

/// Lists a branch.
pub fn list_branch(facts: BranchFacts, head_name: &Option<String>, default_name: &Option<String>) -> (
    branch: BranchInfo
)
    ensures
        branch@ == listed_branch(facts, text_of(*head_name), text_of(*default_name)),
{
    let is_head = match head_name {
        Some(head) => *head == facts.name,
        None => false,
    };
    let is_default = match default_name {
        Some(default) => *default == facts.name,
        None => false,
    };
    let (ahead, behind) = if facts.is_remote {
        (None, None)
    } else {
        match facts.ahead_behind {
            Some(distance) => (Some(distance.0), Some(distance.1)),
            None => (None, None),
        }
    };
    BranchInfo {
        name: facts.name,
        is_head,
        is_remote: facts.is_remote,
        is_default,
        upstream: facts.upstream,
        commit_id: facts.commit_id,
        commit_summary: facts.commit_summary,
        ahead,
        behind,
    }
}

/// The listing of a branch that was just created on commit `commit_id`: a
/// local branch, not current, not default, without upstream.
pub fn created_branch(name: &str, commit_id: String, commit_summary: Option<String>) -> (branch:
    BranchInfo)
    ensures
        branch@ == (BranchView {
            name: name@,
            is_head: false,
            is_remote: false,
            is_default: false,
            upstream: None,
            commit_id: Some(commit_id@),
            commit_summary: text_of(commit_summary),
            ahead: None,
            behind: None,
        }),
{
    BranchInfo {
        name: String::from_str(name),
        is_head: false,
        is_remote: false,
        is_default: false,
        upstream: None,
        commit_id: Some(commit_id),
        commit_summary,
        ahead: None,
        behind: None,
    }
}

} // verus!
