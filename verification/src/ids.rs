//! Session identifiers: random version-4 UUIDs and their hyphenated text form,
//! by way of `uuid`.

use vstd::prelude::*;

verus! {

/// The lowercase hexadecimal digit for a nibble `n < 16`.
pub open spec fn hex_digit(n: u128) -> char {
    if n < 10 {
        (n + 48) as char
    } else {
        (n + 87) as char
    }
}

/// The `i`-th nibble of `id`, counting from the most significant one.
pub open spec fn nibble(id: u128, i: int) -> u128 {
    (id >> ((124 - 4 * i) as u128)) & 0xf
}

/// The 32 lowercase hexadecimal digits of `id`, most significant first.
pub open spec fn hex_digits(id: u128) -> Seq<char> {
    Seq::new(32, |i: int| hex_digit(nibble(id, i)))
}

/// The hyphenated text form of a UUID: its hexadecimal digits in groups of
/// 8, 4, 4, 4 and 12, separated by '-'.
pub open spec fn hyphenated(id: u128) -> Seq<char> {
    let h = hex_digits(id);
    h.subrange(0, 8) + seq!['-'] + h.subrange(8, 12) + seq!['-'] + h.subrange(12, 16) + seq!['-']
        + h.subrange(16, 20) + seq!['-'] + h.subrange(20, 32)
}

/// Whether `id` carries the marks of a random UUID: version 4 and the RFC 4122
/// variant.
pub open spec fn is_random_uuid(id: u128) -> bool {
    &&& (id >> 76u128) & 0xf == 4
    &&& (id >> 62u128) & 0x3 == 2
}

/// The number whose big-endian bytes are `bytes`.
pub open spec fn big_endian(bytes: Seq<u8>) -> int
    decreases bytes.len(),
{
    if bytes.len() == 0 {
        0
    } else {
        big_endian(bytes.drop_last()) * 256 + bytes.last()
    }
}

/// The random UUID made of 16 random bytes: the bytes read big-endian, with
/// the version nibble set to 4 and the variant bits to `10`.
pub open spec fn random_uuid(bytes: Seq<u8>) -> u128 {
    ((big_endian(bytes) as u128) & 0xffff_ffff_ffff_0fff_3fff_ffff_ffff_ffff) | 0x0000_0000_0000_4000_8000_0000_0000_0000
}

/// A UUID made from random bytes carries the marks of a random UUID.
pub proof fn lemma_random_uuid_is_marked(bytes: Seq<u8>)
    ensures
        is_random_uuid(random_uuid(bytes)),
{
    let x = big_endian(bytes) as u128;
    assert((((x & 0xffff_ffff_ffff_0fff_3fff_ffff_ffff_ffff) | 0x0000_0000_0000_4000_8000_0000_0000_0000) >> 76u128)
        & 0xf == 4) by (bit_vector);
    assert((((x & 0xffff_ffff_ffff_0fff_3fff_ffff_ffff_ffff) | 0x0000_0000_0000_4000_8000_0000_0000_0000) >> 62u128)
        & 0x3 == 2) by (bit_vector);
}

/// Calls `uuid::Builder::from_random_bytes(bytes).into_uuid()` and gives the
/// UUID as a `u128` (`as_u128`, big-endian). Claimed: the result is
/// `random_uuid(bytes)`; `from_random_bytes` keeps the bytes in order and sets
/// the high nibble of byte 6 to 4 (`with_version`) and the two high bits of
/// byte 8 to `10` (`with_variant`).
#[verifier::external_body]
pub(crate) fn uuid_from_random_bytes(bytes: &Vec<u8>) -> (id: u128)
    requires
        bytes@.len() == 16,
    ensures
        id == random_uuid(bytes@),
{
    let bytes: [u8; 16] = bytes.as_slice().try_into().unwrap();
    uuid::Builder::from_random_bytes(bytes).into_uuid().as_u128()
}

/// Calls `uuid::Uuid::from_u128(id).hyphenated().to_string()`. Claimed: the
/// result is `hyphenated(id)`; `from_u128` takes the bytes big-endian and the
/// hyphenated form writes each byte as two lowercase hexadecimal digits.
#[verifier::external_body]
pub(crate) fn hyphenated_string(id: u128) -> (s: String)
    ensures
        s@ == hyphenated(id),
{
    uuid::Uuid::from_u128(id).hyphenated().to_string()
}

} // verus!
