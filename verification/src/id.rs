//! Identifiers of habits and entries: 128-bit values, generated, written and read by `uuid`.
use vstd::arithmetic::power2::pow2;
use vstd::prelude::*;

verus! {

/// Lower-case hexadecimal digit of `v` (0 to 15).
pub open spec fn hex_digit(v: int) -> char {
    if v < 10 {
        (48 + v) as char
    } else {
        (87 + v) as char
    }
}

/// The `k`-th hexadecimal digit of `id`, most significant first (`k` from 0 to 31).
pub open spec fn nibble(id: u128, k: int) -> int {
    ((id as int) / (pow2((4 * (31 - k)) as nat) as int)) % 16
}

/// The character at position `i` of the hyphenated form of `id`.
pub open spec fn uuid_char(id: u128, i: int) -> char {
    if i == 8 || i == 13 || i == 18 || i == 23 {
        '-'
    } else {
        let k: int = if i < 8 {
            i
        } else if i < 13 {
            i - 1
        } else if i < 18 {
            i - 2
        } else if i < 23 {
            i - 3
        } else {
            i - 4
        };
        hex_digit(nibble(id, k))
    }
}

/// The hyphenated lower-case form of an identifier, such as
/// `67e55044-10b1-426f-9247-bb680e5fe0c8`: 32 hexadecimal digits, most significant first,
/// in groups of 8, 4, 4, 4 and 12.
pub open spec fn uuid_text(id: u128) -> Seq<char> {
    Seq::new(36, |i: int| uuid_char(id, i))
}

/// What `uuid` reads from the text `s`, if `s` is one of the forms it accepts.
pub uninterp spec fn uuid_parse(s: Seq<char>) -> Option<u128>;

/// A randomly generated identifier carries version 4 and the RFC 4122 variant:
/// bits 76 to 79 hold 4, bits 62 and 63 hold binary 10.
pub open spec fn is_random_id(id: u128) -> bool {
    &&& (id >> 76u128) & 0xfu128 == 4
    &&& (id >> 62u128) & 0x3u128 == 2
}

/// Reads an identifier from its text (as given back by the screen, for instance); the
/// hyphenated form of an identifier reads back as that identifier.
pub fn parse_id(text: &str) -> (r: Option<u128>)
    ensures
        r == uuid_parse(text@),
        forall|x: u128| #![trigger uuid_text(x)] text@ == uuid_text(x) ==> r == Some(x),
{
    id_from_text(text)
}

/// Calls `uuid::Uuid::new_v4`: a random identifier, whose version and variant bits are set.
/// Nothing else is said of the value.
#[verifier::external_body]
pub(crate) fn new_id() -> (r: u128)
    ensures
        is_random_id(r),
{
    uuid::Uuid::new_v4().as_u128()
}

/// Calls `ToString::to_string` on `uuid::Uuid::from_u128(id)`: the hyphenated lower-case form.
#[verifier::external_body]
pub(crate) fn id_to_text(id: u128) -> (r: String)
    ensures
        r@ == uuid_text(id),
{
    uuid::Uuid::from_u128(id).to_string()
}

/// Calls `uuid::Uuid::parse_str`. The result is the name `uuid_parse` applied to `s`, and
/// the hyphenated form of an identifier reads back as that identifier.
#[verifier::external_body]
pub(crate) fn id_from_text(s: &str) -> (r: Option<u128>)
    ensures
        r == uuid_parse(s@),
        forall|x: u128| #![trigger uuid_text(x)] s@ == uuid_text(x) ==> r == Some(x),
{
    match uuid::Uuid::parse_str(s) {
        Ok(u) => Some(u.as_u128()),
        Err(_) => None,
    }
}

} // verus!
