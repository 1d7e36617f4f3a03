//! Which changes on disk are worth a refresh of the view.
//!
//! Every change outside the repository's `.git` directory counts. Inside
//! it, only the files that move with the user's work: `HEAD`, what is below
//! `refs`, and the index.

use vstd::prelude::*;
use crate::path_parts::begins_with;
use crate::path_parts::chars_begin_with;
use crate::path_parts::chars_equal;
use crate::path_parts::components;
use crate::path_parts::has_root;
use crate::path_parts::parts_view;
use crate::path_parts::split_components;
use crate::text::chars_of;

verus! {

/// The components of the `.git` directory of the repository at `repo_root`.
pub open spec fn git_dir_parts(repo_root: Seq<char>) -> Seq<Seq<char>> {
    components(repo_root).push(".git"@)
}

/// Where `path` lies inside the `.git` directory of `repo_root`: the
/// components that follow those of the directory. `None` where it lies
/// outside.
pub open spec fn git_relative(path: Seq<char>, repo_root: Seq<char>) -> Option<Seq<Seq<char>>> {
    let dir = git_dir_parts(repo_root);
    if has_root(path) == has_root(repo_root) && dir.is_prefix_of(components(path)) {
        Some(components(path).skip(dir.len() as int))
    } else {
        None
    }
}

/// A place inside `.git` that moves with the user's work: its first
/// component begins with `HEAD` or with `refs`, or it is the file `index`.
pub open spec fn is_watched(rest: Seq<Seq<char>>) -> bool {
    ||| rest.len() > 0 && (begins_with(rest[0], "HEAD"@) || begins_with(rest[0], "refs"@))
    ||| rest.len() == 1 && rest[0] == "index"@
}

/// A change at `path` is worth a refresh.
pub open spec fn is_worth_emitting(path: Seq<char>, repo_root: Seq<char>) -> bool {
    match git_relative(path, repo_root) {
        Some(rest) => is_watched(rest),
        None => true,
    }
}

/// Whether `path` starts at the root.
pub fn starts_at_root(path: &str) -> (rooted: bool)
    ensures
        rooted == has_root(path@),
{
    let chars = chars_of(path);
    chars.len() > 0 && chars[0] == '/'
}

/// Whether a change at `path` is worth a refresh of the view of the
/// repository at `repo_root`.
pub fn should_emit_for_path(path: &str, repo_root: &str) -> (emit: bool)
    ensures
        emit == is_worth_emitting(path@, repo_root@),
{
    let parts = split_components(path);
    let mut dir = split_components(repo_root);
    let ghost root_parts = parts_view(dir@);
    dir.push(chars_of(".git"));
    assert(parts_view(dir@) =~= git_dir_parts(repo_root@));
    let ghost dir_parts = git_dir_parts(repo_root@);
    let ghost path_parts = components(path@);

    assert(parts_view(parts@).len() == parts@.len());
    assert(parts_view(dir@).len() == dir@.len());
    if starts_at_root(path) != starts_at_root(repo_root) || parts.len() < dir.len() {
        return true;
    }
    let mut i: usize = 0;
    while i < dir.len()
        invariant
            i <= dir@.len(),
            dir@.len() <= parts@.len(),
            parts_view(dir@) == dir_parts,
            parts_view(parts@) == path_parts,
            dir_parts == git_dir_parts(repo_root@),
            path_parts == components(path@),
            forall|j: int| 0 <= j < i ==> dir_parts[j] == path_parts[j],
        decreases dir@.len() - i,
    {
        assert(dir_parts[i as int] == dir@[i as int]@);
        assert(path_parts[i as int] == parts@[i as int]@);
        if !chars_equal(parts[i].as_slice(), dir[i].as_slice()) {
            assert(path_parts.subrange(0, dir_parts.len() as int)[i as int] != dir_parts[i as int]);
            return true;
        }
        i += 1;
    }
    assert(dir_parts =~= path_parts.subrange(0, dir_parts.len() as int));
    let ghost rest = path_parts.skip(dir_parts.len() as int);
    let inside = dir.len();
    if parts.len() == inside {
        assert(rest.len() == 0);
        return false;
    }
    assert(rest[0] == parts@[inside as int]@);
    let head = chars_of("HEAD");
    let refs = chars_of("refs");
    let index = chars_of("index");
    let front = parts[inside].as_slice();
    if chars_begin_with(front, head.as_slice()) || chars_begin_with(front, refs.as_slice()) {
        return true;
    }
    parts.len() == inside + 1 && chars_equal(front, index.as_slice())
}

} // verus!
