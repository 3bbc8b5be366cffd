//! The calls into the `uuid` crate, which parses and prints identifiers.
//!
//! Nothing in this file is proved: each contract says what the crate's code
//! does, and the rest of the library is proved from these contracts.

use crate::text::{ascii_upper, canonical_text, hyphenated_value, simple_value};
use vstd::prelude::*;

verus! {

/// Whether nine characters spell `urn:uuid:`, letters in either case.
pub open spec fn is_urn_prefix(p: Seq<char>) -> bool {
    &&& p.len() == 9
    &&& ascii_upper(p[0]) == 'U'
    &&& ascii_upper(p[1]) == 'R'
    &&& ascii_upper(p[2]) == 'N'
    &&& p[3] == ':'
    &&& ascii_upper(p[4]) == 'U'
    &&& ascii_upper(p[5]) == 'U'
    &&& ascii_upper(p[6]) == 'I'
    &&& ascii_upper(p[7]) == 'D'
    &&& p[8] == ':'
}

/// What the `uuid` parser makes of a text. It goes by the length: 32
/// characters are read as the ungrouped form, 36 as the grouped form, 38 as
/// the grouped form between braces, 45 as the grouped form behind `urn:uuid:`.
/// Every other text is refused.
pub open spec fn uuid_text_value(s: Seq<char>) -> Option<Seq<u8>> {
    if s.len() == 32 {
        simple_value(s)
    } else if s.len() == 36 {
        hyphenated_value(s)
    } else if s.len() == 38 && s[0] == '{' && s[37] == '}' {
        hyphenated_value(s.subrange(1, 37))
    } else if s.len() == 45 && is_urn_prefix(s.subrange(0, 9)) {
        hyphenated_value(s.subrange(9, 45))
    } else {
        None
    }
}

/// `uuid::Uuid::parse_str`, with the identifier handed out as its sixteen
/// bytes and the parser's own error left behind. The contract claims that the
/// parser accepts exactly the texts for which `uuid_text_value` has a value,
/// and that the bytes are that value.
#[verifier::external_body]
pub(crate) fn parse_str(text: &str) -> (parsed: Option<[u8; 16]>)
    ensures
        parsed is Some <==> uuid_text_value(text@) is Some,
        parsed matches Some(bytes) ==> Some(bytes@) == uuid_text_value(text@),
{
    match uuid::Uuid::parse_str(text) {
        Ok(id) => Some(id.into_bytes()),
        Err(_) => None,
    }
}

/// The upper-case hexadecimal formatting of `uuid::Uuid`, which is what `{:X}`
/// prints. The contract claims that the text is the grouped form with
/// upper-case digits.
#[verifier::external_body]
pub(crate) fn format_upper(bytes: &[u8; 16]) -> (text: String)
    ensures
        text@ == canonical_text(bytes@),
{
    format!("{:X}", uuid::Uuid::from_bytes(*bytes))
}

} // verus!
