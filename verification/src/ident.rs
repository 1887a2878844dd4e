//! Message identifiers.
//!
//! An identifier is a UUID, held as the 128-bit number that its sixteen bytes
//! spell in big-endian order. New identifiers, the reading of an identifier
//! out of a text and its canonical text come from the `uuid` crate.

use uuid::Uuid;
use vstd::arithmetic::power::pow;
use vstd::prelude::*;

verus! {

/// The identifier that `Uuid::parse_str` reads out of `text`, as
/// `Uuid::as_u128` gives it, or `None` where it rejects the text.
pub uninterp spec fn uuid_parse(text: Seq<char>) -> Option<u128>;

/// The lower-case hexadecimal digit of a value below sixteen.
pub open spec fn hex_digit(value: int) -> char
    recommends
        0 <= value < 16,
{
    "0123456789abcdef"@[value]
}

/// The thirty-two hexadecimal digits of an identifier, most significant first.
pub open spec fn hex_digits(id: u128) -> Seq<char> {
    Seq::new(32, |n: int| hex_digit((id as int / pow(16, (31 - n) as nat)) % 16))
}

/// The canonical text of an identifier: its hexadecimal digits in lower case,
/// in groups of 8, 4, 4, 4 and 12 joined by hyphens.
pub open spec fn hyphenated(id: u128) -> Seq<char> {
    let hex = hex_digits(id);
    hex.subrange(0, 8) + seq!['-'] + hex.subrange(8, 12) + seq!['-'] + hex.subrange(12, 16)
        + seq!['-'] + hex.subrange(16, 20) + seq!['-'] + hex.subrange(20, 32)
}

/// Whether an identifier carries the version number 7 and the RFC 4122
/// variant in the bits reserved for them.
pub open spec fn is_version_7(id: u128) -> bool {
    id & 0x0000_0000_0000_f000_c000_0000_0000_0000 == 0x0000_0000_0000_7000_8000_0000_0000_0000
}

/// The identifier, if any, that `text` names in the queue: the one that the
/// text parses to, provided that the text is its canonical form.
pub open spec fn named_id(text: Seq<char>) -> Option<u128> {
    match uuid_parse(text) {
        Some(id) => if hyphenated(id) == text {
            Some(id)
        } else {
            None
        },
        None => None,
    }
}

/// Draws a new identifier with `Uuid::now_v7`.
///
/// Trusted: the value depends on the clock and on random bits, so all that
/// is claimed is what holds of every version 7 UUID, namely its version and
/// variant bits.
#[verifier::external_body]
pub(crate) fn fresh_id() -> (id: u128)
    ensures
        is_version_7(id),
{
    Uuid::now_v7().as_u128()
}

/// Reads an identifier out of a text with `Uuid::parse_str`.
///
/// Trusted: the result is the crate's own reading of the text, which
/// [`uuid_parse`] stands for.
#[verifier::external_body]
pub(crate) fn parse_id(text: &str) -> (parsed: Option<u128>)
    ensures
        parsed == uuid_parse(text@),
{
    match Uuid::parse_str(text) {
        Ok(uuid) => Some(uuid.as_u128()),
        Err(_) => None,
    }
}

/// Writes an identifier as text through the `Display` impl of `Uuid`.
///
/// Trusted: the crate formats a UUID in its hyphenated lower-case form,
/// which [`hyphenated`] spells out.
#[verifier::external_body]
pub(crate) fn id_text(id: u128) -> (text: String)
    ensures
        text@ == hyphenated(id),
{
    Uuid::from_u128(id).to_string()
}

/// Keeps a parsed identifier only if `text` is its canonical form.
pub fn canonical(parsed: Option<u128>, text: &String) -> (id: Option<u128>)
    ensures
        id == match parsed {
            Some(value) => if hyphenated(value) == text@ {
                Some(value)
            } else {
                None
            },
            None => None,
        },
{
    match parsed {
        Some(value) => {
            let canon = id_text(value);
            if canon == *text {
                Some(value)
            } else {
                None
            }
        },
        None => None,
    }
}

/// Finds the identifier that a text names in the queue.
pub fn resolve(text: &String) -> (id: Option<u128>)
    ensures
        id == named_id(text@),
{
    canonical(parse_id(text.as_str()), text)
}

} // verus!
