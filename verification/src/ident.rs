//! Identifiers of messages, events and projects: 128-bit numbers, written
//! and read as UUID texts.
use vstd::prelude::*;

use uuid::Uuid;

verus! {

/// The character for a hexadecimal digit, in lower case.
pub open spec fn hex_digit(d: int) -> char {
    if d == 0 {
        '0'
    } else if d == 1 {
        '1'
    } else if d == 2 {
        '2'
    } else if d == 3 {
        '3'
    } else if d == 4 {
        '4'
    } else if d == 5 {
        '5'
    } else if d == 6 {
        '6'
    } else if d == 7 {
        '7'
    } else if d == 8 {
        '8'
    } else if d == 9 {
        '9'
    } else if d == 10 {
        'a'
    } else if d == 11 {
        'b'
    } else if d == 12 {
        'c'
    } else if d == 13 {
        'd'
    } else if d == 14 {
        'e'
    } else {
        'f'
    }
}

/// The hexadecimal digit of `id` at place `k`, counted from the most
/// significant (place 0) to the least (place 31).
pub open spec fn nibble(id: u128, k: int) -> int {
    ((id >> ((4 * (31 - k)) as u128)) & 0xfu128) as int
}

/// How many hyphens a UUID text holds before offset `i`.
pub open spec fn hyphens_before(i: int) -> int {
    (if i > 8 {
        1int
    } else {
        0
    }) + (if i > 13 {
        1int
    } else {
        0
    }) + (if i > 18 {
        1int
    } else {
        0
    }) + (if i > 23 {
        1int
    } else {
        0
    })
}

/// The text of an identifier: its 32 hexadecimal digits in lower case, in
/// groups of 8, 4, 4, 4 and 12 with a hyphen between them.
pub open spec fn uuid_text(id: u128) -> Seq<char> {
    Seq::new(
        36,
        |i: int|
            if i == 8 || i == 13 || i == 18 || i == 23 {
                '-'
            } else {
                hex_digit(nibble(id, i - hyphens_before(i)))
            },
    )
}

/// The bits of the identifier that `uuid::Uuid::parse_str` reads from a
/// text; `None` where it reports an error.
pub uninterp spec fn uuid_parsed(text: Seq<char>) -> Option<u128>;

/// Whether an identifier is laid out as a random one: its digit at place
/// 12 is the version 4, and its digit at place 16 begins with the bits 10
/// of the variant, so that it is 8, 9, a or b.
pub open spec fn is_random_layout(id: u128) -> bool {
    nibble(id, 12) == 4 && 8 <= nibble(id, 16) <= 11
}

/// A fresh random identifier. Whatever bits were drawn, it is laid out as
/// a random identifier.
pub fn fresh_id() -> (id: u128)
    ensures
        is_random_layout(id),
{
    random_id()
}

/// The identifier as a UUID text.
pub fn id_to_text(id: u128) -> (text: String)
    ensures
        text@ == uuid_text(id),
        uuid_parsed(text@) == Some(id),
{
    write_id(id)
}

/// The identifier that a UUID text names, where it names one.
pub fn parse_id(text: &str) -> (id: Option<u128>)
    ensures
        id == uuid_parsed(text@),
{
    read_id(text)
}

/// `uuid::Uuid::new_v4`, as its 128 bits. The bits come from the system's
/// random source, and nothing is claimed of what was drawn. One thing
/// holds of every outcome: the crate sets the version digit to 4 and the
/// two variant bits to 10 before it hands the identifier out, as its
/// documentation of a random identifier says. The crate does not return
/// where the random source fails.
#[verifier::external_body]
fn random_id() -> (id: u128)
    ensures
        is_random_layout(id),
{
    Uuid::new_v4().as_u128()
}

/// `uuid::Uuid::from_u128` followed by `to_string`, which writes the
/// hyphenated form in lower case. The crate documents that `parse_str`
/// reads every text that it writes itself, so the text names the same
/// identifier.
#[verifier::external_body]
fn write_id(id: u128) -> (text: String)
    ensures
        text@ == uuid_text(id),
        uuid_parsed(text@) == Some(id),
{
    Uuid::from_u128(id).to_string()
}

/// `uuid::Uuid::parse_str`, the result as its 128 bits. The result is
/// named, not described.
#[verifier::external_body]
fn read_id(text: &str) -> (id: Option<u128>)
    ensures
        id == uuid_parsed(text@),
{
    match Uuid::parse_str(text) {
        Ok(id) => Some(id.as_u128()),
        Err(_) => None,
    }
}

} // verus!
