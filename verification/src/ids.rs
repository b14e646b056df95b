//! Identifiers: UUIDs held as their 128-bit value, and their text.
use uuid::Uuid;
use vstd::prelude::*;

verus! {

/// A lowercase hexadecimal digit.
pub open spec fn hex_digit(d: nat) -> char {
    if d < 10 {
        ((d + 48) as u32) as char
    } else {
        ((d + 87) as u32) as char
    }
}

/// The last `width` hexadecimal digits of `n`, most significant first.
pub open spec fn hex_fixed(n: nat, width: nat) -> Seq<char>
    decreases width,
{
    if width == 0 {
        Seq::empty()
    } else {
        hex_fixed(n / 16, (width - 1) as nat).push(hex_digit(n % 16))
    }
}

/// The hyphenated text of a UUID: 32 lowercase hexadecimal digits of its value, most
/// significant first, grouped 8-4-4-4-12.
pub open spec fn uuid_text(id: u128) -> Seq<char> {
    let h = hex_fixed(id as nat, 32);
    h.subrange(0, 8) + "-"@ + h.subrange(8, 12) + "-"@ + h.subrange(12, 16) + "-"@ + h.subrange(
        16,
        20,
    ) + "-"@ + h.subrange(20, 32)
}

pub proof fn lemma_hex_fixed_len(n: nat, width: nat)
    ensures
        hex_fixed(n, width).len() == width,
    decreases width,
{
    if width > 0 {
        lemma_hex_fixed_len(n / 16, (width - 1) as nat);
    }
}

/// `Uuid::from_u128(id).to_string()`: the hyphenated lowercase text of the UUID whose
/// bytes are `id` in big-endian order.
#[verifier::external_body]
pub(crate) fn uuid_string(id: u128) -> (r: String)
    ensures
        r@ == uuid_text(id),
{
    Uuid::from_u128(id).to_string()
}

/// A UUID of version 4 (random) with the RFC 4122 variant.
pub open spec fn random_v4(u: u128) -> bool {
    (u >> 76u128) & 0xfu128 == 4 && (u >> 62u128) & 0x3u128 == 2
}

/// `Uuid::new_v4().as_u128()`: a random version 4 UUID. Which one depends on chance;
/// its version field is 4 and its variant field is the RFC 4122 one.
#[verifier::external_body]
pub(crate) fn new_uuid() -> (r: u128)
    ensures
        random_v4(r),
{
    Uuid::new_v4().as_u128()
}

} // verus!
