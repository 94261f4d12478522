//! Canonical, deterministic encoding of the wire values.
//!
//! Claim ids are hashes of an encoded `Lockdrop`, and votes and ticker rates
//! are signed and deduplicated over their encodings, so the encoding must be
//! reproducible byte for byte: integers in little-endian order, a `bool` as
//! one byte, an enum as its variant index followed by the variant's fields.

use vstd::prelude::*;
use vstd::bytes::*;

use crate::types::{Hash256, Lockdrop, ClaimVote, TickerRate, PublicKey};

verus! {

/// The 32 bytes of a hash value, word by word.
pub open spec fn spec_hash_bytes(h: Hash256) -> Seq<u8> {
    spec_u64_to_le_bytes(h.w0) + spec_u64_to_le_bytes(h.w1) + spec_u64_to_le_bytes(h.w2)
        + spec_u64_to_le_bytes(h.w3)
}

/// Canonical encoding of lockdrop parameters: a variant tag (0 for Bitcoin,
/// 1 for Ethereum), the 33 key bytes, the value, the duration, and the
/// transaction hash. 90 bytes in all.
pub open spec fn spec_encode_lockdrop(p: Lockdrop) -> Seq<u8> {
    seq![if p is Bitcoin { 0u8 } else { 1u8 }] + p.spec_public().bytes@
        + spec_u128_to_le_bytes(p.spec_value()) + spec_u64_to_le_bytes(p.spec_duration())
        + spec_hash_bytes(p.spec_transaction_hash())
}

/// Canonical encoding of a claim vote: the claim id, the verdict as one
/// byte, and the authority index.
pub open spec fn spec_encode_vote(v: ClaimVote) -> Seq<u8> {
    spec_hash_bytes(v.claim_id) + seq![if v.approve { 1u8 } else { 0u8 }]
        + spec_u16_to_le_bytes(v.authority)
}

/// Canonical encoding of a ticker rate: the authority index, then the BTC
/// and ETH rates.
pub open spec fn spec_encode_rate(r: TickerRate) -> Seq<u8> {
    spec_u16_to_le_bytes(r.authority) + spec_u64_to_le_bytes(r.btc) + spec_u64_to_le_bytes(r.eth)
}

fn push_u16_le(out: &mut Vec<u8>, x: u16)
    ensures
        final(out)@ == old(out)@ + spec_u16_to_le_bytes(x),
{
    let mut b = u16_to_le_bytes(x);
    out.append(&mut b);
}

fn push_u64_le(out: &mut Vec<u8>, x: u64)
    ensures
        final(out)@ == old(out)@ + spec_u64_to_le_bytes(x),
{
    let mut b = u64_to_le_bytes(x);
    out.append(&mut b);
}

fn push_u128_le(out: &mut Vec<u8>, x: u128)
    ensures
        final(out)@ == old(out)@ + spec_u128_to_le_bytes(x),
{
    let mut b = u128_to_le_bytes(x);
    out.append(&mut b);
}

fn push_hash(out: &mut Vec<u8>, h: &Hash256)
    ensures
        final(out)@ == old(out)@ + spec_hash_bytes(*h),
{
    push_u64_le(out, h.w0);
    push_u64_le(out, h.w1);
    push_u64_le(out, h.w2);
    push_u64_le(out, h.w3);
    assert(out@ =~= old(out)@ + spec_hash_bytes(*h));
}

fn push_key(out: &mut Vec<u8>, key: &PublicKey)
    ensures
        final(out)@ == old(out)@ + key.bytes@,
{
    let mut i: usize = 0;
    while i < 33
        invariant
            i <= 33,
            out@ == old(out)@ + key.bytes@.subrange(0, i as int),
        decreases 33 - i,
    {
        out.push(key.bytes[i]);
        assert(out@ =~= old(out)@ + key.bytes@.subrange(0, i + 1));
        i = i + 1;
    }
    assert(out@ =~= old(out)@ + key.bytes@);
}

/// Encode lockdrop parameters canonically.
pub fn encode_lockdrop(p: &Lockdrop) -> (r: Vec<u8>)
    ensures
        r@ == spec_encode_lockdrop(*p),
{
    let mut out: Vec<u8> = Vec::new();
    let tag: u8 = match p {
        Lockdrop::Bitcoin { .. } => 0,
        Lockdrop::Ethereum { .. } => 1,
    };
    out.push(tag);
    let key = p.public();
    push_key(&mut out, &key);
    match p {
        Lockdrop::Bitcoin { value, duration, transaction_hash, .. } => {
            push_u128_le(&mut out, *value);
            push_u64_le(&mut out, *duration);
            push_hash(&mut out, transaction_hash);
        },
        Lockdrop::Ethereum { value, duration, transaction_hash, .. } => {
            push_u128_le(&mut out, *value);
            push_u64_le(&mut out, *duration);
            push_hash(&mut out, transaction_hash);
        },
    }
    assert(out@ =~= spec_encode_lockdrop(*p));
    out
}

/// Encode a claim vote canonically.
pub fn encode_vote(v: &ClaimVote) -> (r: Vec<u8>)
    ensures
        r@ == spec_encode_vote(*v),
{
    let mut out: Vec<u8> = Vec::new();
    push_hash(&mut out, &v.claim_id);
    out.push(if v.approve { 1 } else { 0 });
    push_u16_le(&mut out, v.authority);
    assert(out@ =~= spec_encode_vote(*v));
    out
}

/// Encode a ticker rate canonically.
pub fn encode_rate(r: &TickerRate) -> (out: Vec<u8>)
    ensures
        out@ == spec_encode_rate(*r),
{
    let mut out: Vec<u8> = Vec::new();
    push_u16_le(&mut out, r.authority);
    push_u64_le(&mut out, r.btc);
    push_u64_le(&mut out, r.eth);
    assert(out@ =~= spec_encode_rate(*r));
    out
}

/// The encoding of lockdrop parameters is 90 bytes long, with the value at
/// offset 34 and the duration at offset 50.
pub proof fn lemma_encode_lockdrop_shape(p: Lockdrop)
    ensures
        spec_encode_lockdrop(p).len() == 90,
        spec_encode_lockdrop(p).subrange(34, 50) == spec_u128_to_le_bytes(p.spec_value()),
        spec_encode_lockdrop(p).subrange(50, 58) == spec_u64_to_le_bytes(p.spec_duration()),
{
    lemma_auto_spec_u64_to_from_le_bytes();
    lemma_auto_spec_u128_to_from_le_bytes();
    let e = spec_encode_lockdrop(p);
    assert(e.subrange(34, 50) =~= spec_u128_to_le_bytes(p.spec_value()));
    assert(e.subrange(50, 58) =~= spec_u64_to_le_bytes(p.spec_duration()));
}

/// The canonical encoding separates parameters that differ in their locked
/// value or in their lock duration: those fields sit at fixed offsets and
/// little-endian encoding is injective. (Distinctness of the claim ids
/// themselves additionally rests on the hash being collision-free.)
pub proof fn lemma_encode_lockdrop_separates(p1: Lockdrop, p2: Lockdrop)
    requires
        p1.spec_value() != p2.spec_value() || p1.spec_duration() != p2.spec_duration(),
    ensures
        spec_encode_lockdrop(p1) != spec_encode_lockdrop(p2),
{
    lemma_auto_spec_u64_to_from_le_bytes();
    lemma_auto_spec_u128_to_from_le_bytes();
    lemma_encode_lockdrop_shape(p1);
    lemma_encode_lockdrop_shape(p2);
    if spec_encode_lockdrop(p1) == spec_encode_lockdrop(p2) {
        assert(spec_u128_from_le_bytes(spec_u128_to_le_bytes(p1.spec_value()))
            == spec_u128_from_le_bytes(spec_u128_to_le_bytes(p2.spec_value())));
        assert(spec_u64_from_le_bytes(spec_u64_to_le_bytes(p1.spec_duration()))
            == spec_u64_from_le_bytes(spec_u64_to_le_bytes(p2.spec_duration())));
    }
}

} // verus!
