//! UUIDs as plain 128-bit values.
//!
//! An item's boundary-facing identity is a 128-bit UUID, held here as a
//! `u128`. The uuid crate supplies generation, formatting and parsing; the
//! rest of the library works on the bits alone. The nil UUID (all zero bits)
//! is the sentinel an unparsable or absent identifier degrades to.

use vstd::prelude::*;

verus! {

/// The nil UUID: the sentinel for an identifier that is not yet known.
pub const NIL_UUID: u128 = 0;

/// The hyphenated text that the uuid crate writes for a 128-bit value.
pub uninterp spec fn uuid_text_of(u: u128) -> Seq<char>;

/// The 128-bit value, if any, that the uuid crate reads out of a text.
pub uninterp spec fn uuid_value_of(s: Seq<char>) -> Option<u128>;

/// Relies on uuid::Uuid::new_v4: a fresh random UUID. The version and
/// variant bits it always sets make the value nonzero.
#[verifier::external_body]
fn new_v4_bits() -> (r: u128)
    ensures
        r != NIL_UUID,
{
    uuid::Uuid::new_v4().as_u128()
}

/// Relies on uuid::Uuid::hyphenated: the text depends on the 128 bits alone.
#[verifier::external_body]
fn hyphenate_bits(u: u128) -> (r: String)
    ensures
        r@ == uuid_text_of(u),
{
    uuid::Uuid::from_u128(u).hyphenated().to_string()
}

/// Relies on uuid::Uuid::parse_str: the outcome depends on the text alone.
#[verifier::external_body]
fn parse_bits(s: &str) -> (r: Option<u128>)
    ensures
        r == uuid_value_of(s@),
{
    match uuid::Uuid::parse_str(s) {
        Ok(u) => Some(u.as_u128()),
        Err(_) => None,
    }
}

/// Draws a fresh random UUID for a newly created item; never nil.
pub fn create_uuid() -> (r: u128)
    ensures
        r != NIL_UUID,
{
    new_v4_bits()
}

/// The canonical hyphenated text of a UUID.
pub fn uuid_to_text(u: u128) -> (r: String)
    ensures
        r@ == uuid_text_of(u),
{
    hyphenate_bits(u)
}

/// Reads a UUID from its text form; `None` when the text does not parse.
pub fn parse_uuid(s: &str) -> (r: Option<u128>)
    ensures
        r == uuid_value_of(s@),
{
    parse_bits(s)
}

} // verus!
