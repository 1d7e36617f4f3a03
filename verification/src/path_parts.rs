//! Paths as lists of components.
//!
//! A path is read as text in which `/` separates components. Empty
//! components are dropped, and so is every component `.` but one that
//! opens the path. Whether the path starts at the root is kept apart from
//! the components.

use vstd::prelude::*;
use crate::text::chars_of;

verus! {

/// Where a scan of a path stands: the components that are complete, the
/// characters of the component being read, and whether no separator has
/// been read yet.
pub struct ScanState {
    pub done: Seq<Seq<char>>,
    pub current: Seq<char>,
    pub first: bool,
}

/// A component that ends here counts: it is not empty, and it is not a `.`
/// after the start of the path.
pub open spec fn counts(current: Seq<char>, first: bool) -> bool {
    current.len() > 0 && (first || current != seq!['.'])
}

/// The components once the one being read is closed.
pub open spec fn closed(state: ScanState) -> Seq<Seq<char>> {
    if counts(state.current, state.first) {
        state.done.push(state.current)
    } else {
        state.done
    }
}

/// The scan after the first `n` characters of `path`.
pub open spec fn scan(path: Seq<char>, n: int) -> ScanState
    decreases n,
{
    if n <= 0 {
        ScanState { done: Seq::empty(), current: Seq::empty(), first: true }
    } else {
        let before = scan(path, n - 1);
        if path[n - 1] == '/' {
            ScanState { done: closed(before), current: Seq::empty(), first: false }
        } else {
            ScanState { current: before.current.push(path[n - 1]), ..before }
        }
    }
}

/// The components of `path`, in order.
pub open spec fn components(path: Seq<char>) -> Seq<Seq<char>> {
    closed(scan(path, path.len() as int))
}

/// The path starts at the root.
pub open spec fn has_root(path: Seq<char>) -> bool {
    path.len() > 0 && path[0] == '/'
}

/// The components of a list, each as its characters.
pub open spec fn parts_view(parts: Seq<Vec<char>>) -> Seq<Seq<char>> {
    Seq::new(parts.len(), |i: int| parts[i]@)
}

/// Splits `path` into its components.
pub fn split_components(path: &str) -> (parts: Vec<Vec<char>>)
    ensures
        parts_view(parts@) == components(path@),
{
    let chars = chars_of(path);
    let mut done: Vec<Vec<char>> = Vec::new();
    let mut current: Vec<char> = Vec::new();
    let mut first = true;
    let mut i: usize = 0;
    while i < chars.len()
        invariant
            i <= chars@.len(),
            chars@ == path@,
            parts_view(done@) =~= scan(path@, i as int).done,
            current@ =~= scan(path@, i as int).current,
            first == scan(path@, i as int).first,
        decreases chars@.len() - i,
    {
        if chars[i] == '/' {
            let is_dot = current.len() == 1 && current[0] == '.';
            assert(is_dot <==> current@ =~= seq!['.']);
            if current.len() > 0 && (first || !is_dot) {
                let ghost before = parts_view(done@);
                done.push(current);
                assert(parts_view(done@) =~= before.push(current@));
            }
            current = Vec::new();
            first = false;
        } else {
            current.push(chars[i]);
        }
        i += 1;
    }
    let is_dot = current.len() == 1 && current[0] == '.';
    assert(is_dot <==> current@ =~= seq!['.']);
    if current.len() > 0 && (first || !is_dot) {
        let ghost before = parts_view(done@);
        done.push(current);
        assert(parts_view(done@) =~= before.push(current@));
    }
    done
}

/// Whether the characters of `text` are exactly those of `word`.
pub fn chars_equal(text: &[char], word: &[char]) -> (same: bool)
    ensures
        same == (text@ == word@),
{
    if text.len() != word.len() {
        return false;
    }
    let mut i: usize = 0;
    while i < text.len()
        invariant
            i <= text@.len(),
            text@.len() == word@.len(),
            forall|j: int| 0 <= j < i ==> text@[j] == word@[j],
        decreases text@.len() - i,
    {
        if text[i] != word[i] {
            return false;
        }
        i += 1;
    }
    assert(text@ =~= word@);
    true
}

/// `text` begins with `prefix`.
pub open spec fn begins_with(text: Seq<char>, prefix: Seq<char>) -> bool {
    prefix.len() <= text.len() && text.subrange(0, prefix.len() as int) == prefix
}

/// Whether `text` begins with `prefix`.
pub fn chars_begin_with(text: &[char], prefix: &[char]) -> (found: bool)
    ensures
        found == begins_with(text@, prefix@),
{
    if text.len() < prefix.len() {
        return false;
    }
    let mut i: usize = 0;
    while i < prefix.len()
        invariant
            i <= prefix@.len(),
            prefix@.len() <= text@.len(),
            forall|j: int| 0 <= j < i ==> text@[j] == prefix@[j],
        decreases prefix@.len() - i,
    {
        if text[i] != prefix[i] {
            assert(text@.subrange(0, prefix@.len() as int)[i as int] != prefix@[i as int]);
            return false;
        }
        i += 1;
    }
    assert(text@.subrange(0, prefix@.len() as int) =~= prefix@);
    true
}

} // verus!
