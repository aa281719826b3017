//! The two kinds of numbers that name someone: the identity of a user, and the
//! connection over which a user is reached.

use vstd::prelude::*;

verus! {

/// The identity of a user: the 128 bits of a UUID, most significant first.
pub type UserId = u128;

/// One open connection. The process that owns the sockets hands these out.
pub type ConnId = u64;

/// The character of one hexadecimal digit, in lower case.
pub open spec fn hex_char(digit: int) -> char {
    if digit < 10 {
        (digit + '0' as int) as char
    } else {
        (digit - 10 + 'a' as int) as char
    }
}

/// The hexadecimal digit that stands `place` digits left of the last one.
pub open spec fn hex_digit(id: UserId, place: nat) -> int {
    (id as int / vstd::arithmetic::power::pow(16, place)) % 16
}

/// How many hyphens the hyphenated form of a UUID has before its position `i`.
pub open spec fn hyphens_before(i: int) -> int {
    if i <= 8 {
        0
    } else if i <= 13 {
        1
    } else if i <= 18 {
        2
    } else if i <= 23 {
        3
    } else {
        4
    }
}

/// The hyphenated form of a UUID: 32 hexadecimal digits in groups of 8, 4, 4, 4
/// and 12, with a hyphen between one group and the next.
pub open spec fn hyphenated(id: UserId) -> Seq<char> {
    Seq::new(
        36,
        |i: int|
            if i == 8 || i == 13 || i == 18 || i == 23 {
                '-'
            } else {
                hex_char(hex_digit(id, (31 - (i - hyphens_before(i))) as nat))
            },
    )
}

/// `uuid::Uuid::new_v4`: a random UUID. Every one carries version 4 and the
/// variant bits `10`; nothing is said of the other bits, and two calls may differ.
/// The call panics where the operating system has no random numbers to give.
#[verifier::external_body]
pub(crate) fn random_id() -> (id: UserId)
    ensures
        id & 0xf000_0000_0000_0000_0000u128 == 0x4000_0000_0000_0000_0000u128,
        id & 0xc000_0000_0000_0000u128 == 0x8000_0000_0000_0000u128,
{
    uuid::Uuid::new_v4().as_u128()
}

/// The `Display` of `uuid::Uuid`: the hyphenated form, in lower case.
#[verifier::external_body]
pub(crate) fn id_text(id: UserId) -> (text: String)
    ensures
        text@ == hyphenated(id),
{
    uuid::Uuid::from_u128(id).to_string()
}

} // verus!
