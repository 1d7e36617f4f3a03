//! Rules of the staging area: which paths may be touched below the working
//! directory, and how the changes of one file are discarded.

use vstd::prelude::*;
use vstd::string::*;
use crate::error::GitClientError;
use crate::path_parts::chars_equal;
use crate::repository::StatusFlags;
use crate::text::chars_of;

verus! {

/// The path starts at the root of the file system.
pub open spec fn is_absolute(path: Seq<char>) -> bool {
    path.len() > 0 && path[0] == '/'
}

/// The two characters at `i` are a component `..` of the path: they stand
/// between separators or the ends of the path.
pub open spec fn is_parent_dir_at(path: Seq<char>, i: int) -> bool {
    &&& 0 <= i
    &&& i + 1 < path.len()
    &&& path[i] == '.'
    &&& path[i + 1] == '.'
    &&& (i == 0 || path[i - 1] == '/')
    &&& (i + 2 == path.len() || path[i + 2] == '/')
}

/// Some component of the path is `..`.
pub open spec fn has_parent_dir(path: Seq<char>) -> bool {
    exists|i: int| is_parent_dir_at(path, i)
}

/// The path stays below the directory it is joined to: it is not absolute
/// and no component of it is `..`.
pub open spec fn is_contained(path: Seq<char>) -> bool {
    !is_absolute(path) && !has_parent_dir(path)
}

/// Accepts a path that stays below the working directory and hands it back;
/// rejects every other path as `InvalidPath`, with the path as given.
/// Components are separated by `/`.
pub fn validate_relative_path(path: &str) -> (outcome: Result<&str, GitClientError>)
    ensures
        outcome is Ok <==> is_contained(path@),
        outcome matches Ok(relative) ==> relative@ == path@,
        outcome matches Err(error) ==> (error matches GitClientError::InvalidPath(rejected)
            && rejected@ == path@),
{
    let chars = chars_of(path);
    let len = chars.len();
    if len > 0 && chars[0] == '/' {
        return Err(GitClientError::InvalidPath(String::from_str(path)));
    }
    let mut i: usize = 0;
    while i < len && i + 1 < len
        invariant
            len == chars@.len(),
            chars@ == path@,
            forall|j: int| 0 <= j < i ==> !is_parent_dir_at(path@, j),
        decreases len - i,
    {
        if chars[i] == '.' && chars[i + 1] == '.' && (i == 0 || chars[i - 1] == '/') && (i + 2
            == len || chars[i + 2] == '/') {
            assert(is_parent_dir_at(path@, i as int));
            return Err(GitClientError::InvalidPath(String::from_str(path)));
        }
        i += 1;
    }
    Ok(path)
}

/// How the changes of one file are discarded.
#[derive(Debug, Clone, Copy, PartialEq, Eq, Structural)]
pub enum DiscardPlan {
    /// The file is new: take it out of the index where `unstage` is set,
    /// and delete it from the working tree where `delete` is set.
    RemoveNew { unstage: bool, delete: bool },
    /// The file is known to the last commit: check it out again.
    Checkout,
}

/// How the changes of a file with these flags are discarded. A file that is
/// new in the index or in the working tree is removed from where it is new;
/// any other file is checked out again.
pub fn discard_plan(flags: StatusFlags) -> (plan: DiscardPlan)
    ensures
        plan == if flags.index_new || flags.wt_new {
            DiscardPlan::RemoveNew { unstage: flags.index_new, delete: flags.wt_new }
        } else {
            DiscardPlan::Checkout
        },
{
    if flags.index_new || flags.wt_new {
        DiscardPlan::RemoveNew { unstage: flags.index_new, delete: flags.wt_new }
    } else {
        DiscardPlan::Checkout
    }
}

/// How far a reset goes.
#[derive(Debug, Clone, Copy, PartialEq, Eq, Structural)]
pub enum ResetMode {
    /// Move the branch only.
    Soft,
    /// Move the branch and make index and working tree follow.
    Hard,
}

/// Reads the mode of a reset: `soft` or `hard`. Any other word is refused
/// as a failed operation that names the word.
pub fn parse_reset_mode(mode: &str) -> (parsed: Result<ResetMode, GitClientError>)
    ensures
        mode@ == "soft"@ ==> parsed == Ok::<ResetMode, GitClientError>(ResetMode::Soft),
        mode@ == "hard"@ ==> parsed == Ok::<ResetMode, GitClientError>(ResetMode::Hard),
        mode@ != "soft"@ && mode@ != "hard"@ ==> (parsed matches Err(
            GitClientError::Operation(detail),
        ) && detail@ == "Invalid reset mode: "@ + mode@ + ". Expected 'soft' or 'hard'."@),
{
    let chars = chars_of(mode);
    let soft = chars_of("soft");
    let hard = chars_of("hard");
    proof {
        reveal_strlit("soft");
        reveal_strlit("hard");
        assert("soft"@ != "hard"@) by {
            assert("soft"@[0] == 's');
            assert("hard"@[0] == 'h');
        }
    }
    if chars_equal(chars.as_slice(), soft.as_slice()) {
        Ok(ResetMode::Soft)
    } else if chars_equal(chars.as_slice(), hard.as_slice()) {
        Ok(ResetMode::Hard)
    } else {
        Err(
            GitClientError::Operation(
                String::from_str("Invalid reset mode: ").concat(mode).concat(
                    ". Expected 'soft' or 'hard'.",
                ),
            ),
        )
    }
}

} // verus!
