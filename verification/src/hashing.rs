//! Claim ids: the Blake2b-256 digest of the canonically encoded parameters.
//!
//! The digest itself is computed by the `blake2` crate; this module gives its
//! result a name, so that every contract downstream can say "the claim id of
//! these parameters" and determinism holds by construction.

use vstd::prelude::*;

use blake2::Digest;

use crate::codec::{encode_lockdrop, spec_encode_lockdrop};
use crate::types::{ClaimId, Hash256, Lockdrop};

verus! {

/// The Blake2b-256 digest of a byte string, as four little-endian words.
/// The digest is a function of the input bytes alone; nothing more is
/// assumed of it.
pub uninterp spec fn blake2_words(input: Seq<u8>) -> (u64, u64, u64, u64);

/// The Blake2b-256 digest of a byte string, as a hash value.
pub open spec fn spec_blake2_256(input: Seq<u8>) -> Hash256 {
    Hash256 {
        w0: blake2_words(input).0,
        w1: blake2_words(input).1,
        w2: blake2_words(input).2,
        w3: blake2_words(input).3,
    }
}

/// Relies on blake2::Blake2b256 (Blake2b with a 32-byte digest): the digest
/// depends on the input bytes alone. The 32 bytes are packed into four
/// words, little-endian, in order.
#[verifier::external_body]
fn blake2_256(input: &Vec<u8>) -> (r: Hash256)
    ensures
        (r.w0, r.w1, r.w2, r.w3) == blake2_words(input@),
{
    let d = blake2::Blake2b256::digest(input.as_slice());
    Hash256 {
        w0: u64::from_le_bytes(d[0..8].try_into().unwrap()),
        w1: u64::from_le_bytes(d[8..16].try_into().unwrap()),
        w2: u64::from_le_bytes(d[16..24].try_into().unwrap()),
        w3: u64::from_le_bytes(d[24..32].try_into().unwrap()),
    }
}

/// The claim id of the given parameters: the hash of their canonical
/// encoding. A pure function of the parameters, so identical parameters
/// always map to the same id; this is the dedup key for requests.
pub open spec fn spec_claim_id(params: Lockdrop) -> ClaimId {
    spec_blake2_256(spec_encode_lockdrop(params))
}

/// Compute the claim id of the given parameters.
pub fn claim_id(params: &Lockdrop) -> (r: ClaimId)
    ensures
        r == spec_claim_id(*params),
{
    let encoded = encode_lockdrop(params);
    blake2_256(&encoded)
}

} // verus!
