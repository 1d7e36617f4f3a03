//! Commit ids as text: which texts name an object, and the full form of the
//! id they name.

use vstd::prelude::*;
use vstd::string::*;
use crate::error::GitClientError;
use crate::text::chars_of;
use crate::text::string_of;

verus! {

/// `c` is a hexadecimal digit, in either case.
pub open spec fn is_hex_digit(c: char) -> bool {
    ||| c == '0' || c == '1' || c == '2' || c == '3' || c == '4'
    ||| c == '5' || c == '6' || c == '7' || c == '8' || c == '9'
    ||| c == 'a' || c == 'b' || c == 'c' || c == 'd' || c == 'e' || c == 'f'
    ||| c == 'A' || c == 'B' || c == 'C' || c == 'D' || c == 'E' || c == 'F'
}

/// `text` can be read as an object id: one to forty hexadecimal digits.
pub open spec fn is_hex_id(text: Seq<char>) -> bool {
    1 <= text.len() <= 40 && forall|i: int| 0 <= i < text.len() ==> is_hex_digit(#[trigger] text[i])
}

/// The digit `c` in lower case.
pub open spec fn lower_hex(c: char) -> char {
    if c == 'A' {
        'a'
    } else if c == 'B' {
        'b'
    } else if c == 'C' {
        'c'
    } else if c == 'D' {
        'd'
    } else if c == 'E' {
        'e'
    } else if c == 'F' {
        'f'
    } else {
        c
    }
}

/// The full form of the id that `text` names: forty digits in lower case,
/// those of `text` first and zeros after them.
pub open spec fn full_id(text: Seq<char>) -> Seq<char> {
    Seq::new(
        40,
        |i: int|
            if i < text.len() {
                lower_hex(text[i])
            } else {
                '0'
            },
    )
}

/// What the engine says of a text that it cannot read as an object id.
pub uninterp spec fn oid_error_text(text: Seq<char>) -> Seq<char>;

/// Wraps `git2::Oid::from_str`, with the id and the error each rendered by
/// their `Display`. The engine reads a text of one to forty hexadecimal
/// digits and no other; the id it reads has the digits of the text in its
/// leading places and zeros in the rest, and is printed as forty digits in
/// lower case. Nothing is claimed of the error's wording but that it
/// depends on the text alone.
#[verifier::external_body]
fn oid_from_str(text: &str) -> (parsed: Result<String, String>)
    ensures
        parsed is Ok <==> is_hex_id(text@),
        parsed matches Ok(id) ==> id@ == full_id(text@),
        parsed matches Err(detail) ==> detail@ == oid_error_text(text@),
{
    match git2::Oid::from_str(text) {
        Ok(oid) => Ok(oid.to_string()),
        Err(error) => Err(error.to_string()),
    }
}

/// Reads `text` as a commit id and gives the id in full. A text that is not
/// one to forty hexadecimal digits is refused as a failed operation, with
/// the engine's words.
pub fn parse_commit_id(text: &str) -> (parsed: Result<String, GitClientError>)
    ensures
        parsed is Ok <==> is_hex_id(text@),
        parsed matches Ok(id) ==> id@ == full_id(text@),
        parsed matches Err(error) ==> error matches GitClientError::Operation(detail) && detail@
            == oid_error_text(text@),
{
    match oid_from_str(text) {
        Ok(id) => Ok(id),
        Err(detail) => Err(GitClientError::Operation(detail)),
    }
}

/// Reads `text` as the commit to reset to. A text that is not one to forty
/// hexadecimal digits is refused as a failed operation: `Invalid commit
/// ID: ` and the engine's words.
pub fn parse_reset_commit_id(text: &str) -> (parsed: Result<String, GitClientError>)
    ensures
        parsed is Ok <==> is_hex_id(text@),
        parsed matches Ok(id) ==> id@ == full_id(text@),
        parsed matches Err(error) ==> error matches GitClientError::Operation(detail) && detail@
            == "Invalid commit ID: "@ + oid_error_text(text@),
{
    match oid_from_str(text) {
        Ok(id) => Ok(id),
        Err(detail) => Err(
            GitClientError::Operation(
                String::from_str("Invalid commit ID: ").concat(detail.as_str()),
            ),
        ),
    }
}

/// The short form of an id: its first seven characters, or all of it where
/// it has fewer.
pub open spec fn short_form(id: Seq<char>) -> Seq<char> {
    if id.len() <= 7 {
        id
    } else {
        id.take(7)
    }
}

/// The short form of `id`.
pub fn short_id(id: &str) -> (short: String)
    ensures
        short@ == short_form(id@),
{
    let chars = chars_of(id);
    if chars.len() <= 7 {
        return String::from_str(id);
    }
    let mut head: Vec<char> = Vec::new();
    let mut i: usize = 0;
    while i < 7
        invariant
            i <= 7,
            7 < chars@.len(),
            head@ == chars@.take(i as int),
        decreases 7 - i,
    {
        head.push(chars[i]);
        assert(chars@.take(i + 1) =~= chars@.take(i as int).push(chars@[i as int]));
        i += 1;
    }
    string_of(head.as_slice())
}

} // verus!
