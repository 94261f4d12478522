//! Lowercase hexadecimal encoding, used to compare a fetched transaction's
//! hex-encoded sender against an expected raw address.

use vstd::prelude::*;

verus! {

/// The ASCII code of the lowercase hex digit for `n` (`n < 16`).
pub open spec fn spec_hex_digit(n: u8) -> u8
    recommends
        n < 16,
{
    if n < 10 {
        (0x30 + n) as u8
    } else {
        (0x57 + n) as u8
    }
}

/// Lowercase hex encoding of a byte string: two digits per byte, high
/// nibble first.
pub open spec fn spec_hex_encode(s: Seq<u8>) -> Seq<u8> {
    Seq::new(
        s.len() * 2,
        |i: int|
            if i % 2 == 0 {
                spec_hex_digit(s[i / 2] >> 4)
            } else {
                spec_hex_digit((s[i / 2] & 0x0f) as u8)
            },
    )
}

/// Relies on hex::encode: lowercase hexadecimal, two digits per byte, high
/// nibble first, in input order.
#[verifier::external_body]
pub fn hex_encode(b: &Vec<u8>) -> (r: Vec<u8>)
    ensures
        r@ == spec_hex_encode(b@),
{
    hex::encode(b.as_slice()).into_bytes()
}

} // verus!
