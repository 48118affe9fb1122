//! Identifiers: which texts the `uuid` crate accepts, and fresh random ids.

use vstd::prelude::*;
use crate::text::{eq_ignore_case, is_digit};

verus! {

pub open spec fn is_hex(c: char) -> bool {
    is_digit(c) || ('a' <= c && c <= 'f') || ('A' <= c && c <= 'F')
}

pub open spec fn is_lower_hex(c: char) -> bool {
    is_digit(c) || ('a' <= c && c <= 'f')
}

pub open spec fn is_hyphen_position(i: int) -> bool {
    i == 8 || i == 13 || i == 18 || i == 23
}

/// The 8-4-4-4-12 hyphenated form.
pub open spec fn hyphenated(s: Seq<char>) -> bool {
    &&& s.len() == 36
    &&& forall|i: int|
        0 <= i < 36 ==> if is_hyphen_position(i) {
            #[trigger] s[i] == '-'
        } else {
            is_hex(s[i])
        }
}

/// The texts `uuid::Uuid::parse_str` accepts: 32 hex digits, the hyphenated
/// form, the hyphenated form in braces, or `urn:uuid:` (any case) followed
/// by the hyphenated form.
pub open spec fn uuid_text(s: Seq<char>) -> bool {
    ||| s.len() == 32 && forall|i: int| 0 <= i < 32 ==> is_hex(#[trigger] s[i])
    ||| hyphenated(s)
    ||| s.len() == 38 && s[0] == '{' && s[37] == '}' && hyphenated(s.subrange(1, 37))
    ||| s.len() == 45 && eq_ignore_case(s.take(9), "urn:uuid:"@) && hyphenated(s.skip(9))
}

/// What `Uuid::new_v4().to_string()` prints: lowercase hyphenated text with
/// version 4 and the RFC 4122 variant.
pub open spec fn v4_text(s: Seq<char>) -> bool {
    &&& hyphenated(s)
    &&& forall|i: int| 0 <= i < 36 && !is_hyphen_position(i) ==> is_lower_hex(#[trigger] s[i])
    &&& s[14] == '4'
    &&& (s[19] == '8' || s[19] == '9' || s[19] == 'a' || s[19] == 'b')
}

/// Calls `uuid::Uuid::parse_str`. Claimed: it succeeds exactly on the texts
/// `uuid_text` describes (the formats its parser matches on).
#[verifier::external_body]
pub(crate) fn uuid_parses(s: &str) -> (r: bool)
    ensures
        r == uuid_text(s@),
{
    uuid::Uuid::parse_str(s).is_ok()
}

/// Calls `uuid::Uuid::new_v4` and formats it with `to_string`. Claimed: the
/// text is lowercase and hyphenated with the version-4 and variant digits;
/// the value itself is random and not stated.
#[verifier::external_body]
pub(crate) fn new_v4_text() -> (r: String)
    ensures
        v4_text(r@),
{
    uuid::Uuid::new_v4().to_string()
}

} // verus!
