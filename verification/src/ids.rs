//! Identifiers of jobs and of job runs: version-4 UUIDs, held as their
//! 128-bit values, and their textual form.
use vstd::prelude::*;

verus! {

/// The lowercase hexadecimal digit of a value below 16.
pub open spec fn hex_char(d: u128) -> char {
    if d < 10 {
        (d + 48) as char
    } else {
        (d + 87) as char
    }
}

/// The 32 hexadecimal digits of a 128-bit value, most significant first.
pub open spec fn hex_digits(id: u128) -> Seq<char> {
    Seq::new(32, |k: int| hex_char((id >> ((124 - 4 * k) as u128)) & 0xf))
}

/// The hyphenated form of a UUID: its hexadecimal digits in groups of
/// 8, 4, 4, 4 and 12, separated by `-`.
pub open spec fn uuid_text(id: u128) -> Seq<char> {
    let h = hex_digits(id);
    h.subrange(0, 8) + seq!['-'] + h.subrange(8, 12) + seq!['-'] + h.subrange(12, 16) + seq!['-']
        + h.subrange(16, 20) + seq!['-'] + h.subrange(20, 32)
}

/// The UUID is a random one of version 4 (RFC 4122): its version nibble is 4
/// and its two variant bits are `10`.
pub open spec fn uuid_is_v4(id: u128) -> bool {
    &&& (id >> 76u128) & 0xf == 4
    &&& (id >> 62u128) & 0x3 == 2
}

/// `Uuid::new_v4`: a random UUID, returned as its 128-bit value. The source
/// sets the version nibble to 4 and the two variant bits to `10`; the other
/// bits are random, so nothing else is stated.
#[verifier::external_body]
pub(crate) fn new_uuid_v4() -> (id: u128)
    ensures
        uuid_is_v4(id),
{
    uuid::Uuid::new_v4().as_u128()
}

/// `Uuid::to_string` of the UUID with the 128-bit value `id`: its lowercase
/// hyphenated form.
#[verifier::external_body]
pub(crate) fn uuid_string(id: u128) -> (s: String)
    ensures
        s@ == uuid_text(id),
{
    uuid::Uuid::from_u128(id).to_string()
}

} // verus!
