//! Stashes.

use vstd::prelude::*;

verus! {

/// A stash as the client lists it.
#[derive(Debug, Clone, PartialEq, Eq)]
pub struct StashEntry {
    pub index: usize,
    pub message: String,
    pub oid: String,
}

/// The message a stash is saved under: the one given, or `WIP`.
pub fn stash_message<'a>(message: Option<&'a str>) -> (text: &'a str)
    ensures
        text@ == match message {
            Some(given) => given@,
            None => "WIP"@,
        },
{
    match message {
        Some(given) => given,
        None => "WIP",
    }
}

} // verus!
