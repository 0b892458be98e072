use uuid::Uuid;
use vstd::prelude::*;

verus! {

/// The lower-case hexadecimal digit of a value below sixteen, as an ASCII byte.
pub open spec fn hex_lower(n: u128) -> u8 {
    if n < 10 {
        (48 + n) as u8
    } else {
        (87 + n) as u8
    }
}

/// The `k`-th four-bit digit of `id`, most significant first (`k` below 32).
pub open spec fn nibble(id: u128, k: int) -> u128 {
    (id >> ((124 - 4 * k) as u128)) & 15u128
}

/// Which of the 32 digits stands at position `i` of the hyphenated text.
pub open spec fn uuid_digit_index(i: int) -> int {
    if i < 8 {
        i
    } else if i < 13 {
        i - 1
    } else if i < 18 {
        i - 2
    } else if i < 23 {
        i - 3
    } else {
        i - 4
    }
}

/// The canonical text of an identifier: 32 lower-case hex digits in groups of
/// 8, 4, 4, 4 and 12, joined by hyphens.
pub open spec fn uuid_text(id: u128) -> Seq<u8> {
    Seq::new(
        36,
        |i: int|
            if i == 8 || i == 13 || i == 18 || i == 23 {
                45u8
            } else {
                hex_lower(nibble(id, uuid_digit_index(i)))
            },
    )
}

/// The identifier that the uuid parser reads from a byte string, if any.
pub uninterp spec fn uuid_parse(text: Seq<u8>) -> Option<u128>;

/// Relies on uuid's `Hyphenated::encode_lower`: the identifier's 16 bytes,
/// most significant first, as lower-case hex digits with hyphens after the
/// 8th, 12th, 16th and 20th digit.
#[verifier::external_body]
pub(crate) fn uuid_text_bytes(id: u128) -> (r: Vec<u8>)
    ensures
        r@ == uuid_text(id),
{
    let mut buf = [0u8; 36];
    Uuid::from_u128(id).hyphenated().encode_lower(&mut buf).as_bytes().to_vec()
}

/// Relies on uuid's `Uuid::try_parse_ascii`: the identifier that a byte string
/// spells (hyphenated, simple, braced or URN form), or nothing if it is
/// malformed.
#[verifier::external_body]
pub(crate) fn parse_uuid(text: &[u8]) -> (r: Option<u128>)
    ensures
        r == uuid_parse(text@),
{
    match Uuid::try_parse_ascii(text) {
        Ok(u) => Some(u.as_u128()),
        Err(_) => None,
    }
}

/// Relies on uuid's `Uuid::new_v4`: a random identifier, of which nothing is
/// promised.
#[verifier::external_body]
pub(crate) fn new_uuid() -> (r: u128) {
    Uuid::new_v4().as_u128()
}

} // verus!
