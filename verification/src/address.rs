//! Syntax check of mail addresses.
//!
//! An address is accepted on its shape alone: one `@`, something before it,
//! and after it a domain with a dot inside. Nothing is looked up.

use crate::text::is_whitespace;
use vstd::prelude::*;

verus! {

/// The pattern that an address has to match from its first character to its last.
pub const ADDRESS_PATTERN: &'static str = r"^[^\s@]+@[^\s@]+\.[^\s@]+$";

/// A character that may stand in either part of an address: any but `@` and whitespace.
pub open spec fn is_part_char(c: char) -> bool {
    c != '@' && !is_whitespace(c)
}

/// `s` has its only `@` at index `at` and a dot of the domain at index `dot`:
/// the local part `s[..at]` is not empty, and the dot has at least one
/// character of the domain on either side.
pub open spec fn splits_address(s: Seq<char>, at: int, dot: int) -> bool {
    &&& 0 < at
    &&& at + 1 < dot < s.len() - 1
    &&& s[at] == '@'
    &&& s[dot] == '.'
    &&& forall|i: int| 0 <= i < s.len() && i != at ==> is_part_char(#[trigger] s[i])
}

/// The addresses that the service accepts.
pub open spec fn is_valid_address(s: Seq<char>) -> bool {
    exists|at: int, dot: int| splits_address(s, at, dot)
}

/// What every accepted address looks like: it is not empty, holds no
/// whitespace, holds `@` exactly once, and has a dot after the `@`.
pub proof fn lemma_valid_address_shape(s: Seq<char>)
    requires
        is_valid_address(s),
    ensures
        s.len() >= 5,
        forall|i: int| 0 <= i < s.len() ==> !is_whitespace(#[trigger] s[i]),
        exists|at: int|
            0 < at < s.len() && s[at] == '@' && (forall|i: int|
                0 <= i < s.len() && #[trigger] s[i] == '@' ==> i == at) && (exists|dot: int|
                at < dot < s.len() && s[dot] == '.'),
{
    let (at, dot) = choose|at: int, dot: int| splits_address(s, at, dot);
    assert(!is_whitespace('@'));
    assert forall|i: int| 0 <= i < s.len() implies !is_whitespace(#[trigger] s[i]) by {
        if i != at {
            assert(is_part_char(s[i]));
        }
    }
    assert forall|i: int| 0 <= i < s.len() && #[trigger] s[i] == '@' implies i == at by {
        if i != at {
            assert(is_part_char(s[i]));
        }
    }
    assert(at < dot < s.len() && s[dot] == '.');
}

/// Calls `regex::Regex::new(pattern)` and, on the compiled pattern,
/// `Regex::is_match(text)`.
///
/// Trusted, not proved: for the pattern of [`ADDRESS_PATTERN`], `is_match`
/// returns [`is_valid_address`] of the text. The crate's documentation gives
/// the parts. `is_match` is true if and only if the pattern matches
/// somewhere in the text. `^` and `$` match only at the beginning and at the
/// end of the text, so here a match is a match of the whole text. `[^\s@]`
/// is any one character that is neither `@` nor in `\s`, which is
/// `\p{White_Space}`; `x+` is one or more of `x`; `\.` is a dot. So a text
/// matches exactly if it reads: one or more such characters, `@`, one or
/// more such characters, a dot, one or more such characters. A dot is such a
/// character itself, so any dot after the `@` that has a character of the
/// domain on either side can be the one.
///
/// The pattern compiles, so `unwrap` does not panic.
#[verifier::external_body]
fn pattern_matches(pattern: &str, text: &str) -> (found: bool)
    requires
        pattern@ == ADDRESS_PATTERN@,
    ensures
        found == is_valid_address(text@),
{
    regex::Regex::new(pattern).unwrap().is_match(text)
}

/// Tells whether `email` has the shape of an address.
pub fn is_valid_email(email: &str) -> (valid: bool)
    ensures
        valid == is_valid_address(email@),
{
    pattern_matches(ADDRESS_PATTERN, email)
}

} // verus!
