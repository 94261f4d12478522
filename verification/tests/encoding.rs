use blake2::Digest;
use lockdrop::codec::{encode_lockdrop, encode_rate, encode_vote};
use lockdrop::hashing::claim_id;
use lockdrop::hexutil::hex_encode;
use lockdrop::types::{ClaimVote, Hash256, Lockdrop, PublicKey, TickerRate};

fn sample_params() -> Lockdrop {
    Lockdrop::Bitcoin {
        public: PublicKey { bytes: [0xabu8; 33] },
        value: 0x0102030405060708,
        duration: 0x1122334455667788,
        transaction_hash: Hash256 { w0: 1, w1: 2, w2: 3, w3: 4 },
    }
}

#[test]
fn lockdrop_encoding_layout() {
    let e = encode_lockdrop(&sample_params());
    assert_eq!(e.len(), 90);
    assert_eq!(e[0], 0); // Bitcoin tag
    assert_eq!(&e[1..34], &[0xabu8; 33][..]);
    // The value, little-endian, at offset 34.
    assert_eq!(&e[34..50], &0x0102030405060708u128.to_le_bytes()[..]);
    // The duration, little-endian, at offset 50.
    assert_eq!(&e[50..58], &0x1122334455667788u64.to_le_bytes()[..]);
    // The transaction hash, word by word, at offset 58.
    assert_eq!(&e[58..66], &1u64.to_le_bytes()[..]);

    let eth = Lockdrop::Ethereum {
        public: PublicKey { bytes: [0u8; 33] },
        value: 0,
        duration: 0,
        transaction_hash: Hash256 { w0: 0, w1: 0, w2: 0, w3: 0 },
    };
    assert_eq!(encode_lockdrop(&eth)[0], 1); // Ethereum tag
}

#[test]
fn vote_and_rate_encodings() {
    let v = ClaimVote {
        claim_id: Hash256 { w0: 5, w1: 6, w2: 7, w3: 8 },
        approve: true,
        authority: 0x0201,
    };
    let e = encode_vote(&v);
    assert_eq!(e.len(), 32 + 1 + 2);
    assert_eq!(e[32], 1);
    assert_eq!(&e[33..35], &[0x01, 0x02]);

    let r = TickerRate { authority: 3, btc: 256, eth: 1 };
    let e = encode_rate(&r);
    assert_eq!(e.len(), 2 + 8 + 8);
    assert_eq!(&e[0..2], &[3, 0]);
    assert_eq!(&e[2..10], &256u64.to_le_bytes()[..]);
}

#[test]
fn claim_id_is_deterministic() {
    let p = sample_params();
    assert_eq!(claim_id(&p), claim_id(&p));
    // Differing value or duration gives a different id for these inputs.
    let other_value = Lockdrop::Bitcoin {
        public: PublicKey { bytes: [0xabu8; 33] },
        value: 0x0102030405060709,
        duration: 0x1122334455667788,
        transaction_hash: Hash256 { w0: 1, w1: 2, w2: 3, w3: 4 },
    };
    assert_ne!(claim_id(&p), claim_id(&other_value));
}

#[test]
fn claim_id_is_blake2b_of_encoding() {
    let p = sample_params();
    let digest = blake2::Blake2b256::digest(encode_lockdrop(&p));
    let id = claim_id(&p);
    assert_eq!(id.w0, u64::from_le_bytes(digest[0..8].try_into().unwrap()));
    assert_eq!(id.w1, u64::from_le_bytes(digest[8..16].try_into().unwrap()));
    assert_eq!(id.w2, u64::from_le_bytes(digest[16..24].try_into().unwrap()));
    assert_eq!(id.w3, u64::from_le_bytes(digest[24..32].try_into().unwrap()));
}

#[test]
fn hex_encodes_lowercase_pairs() {
    assert_eq!(hex_encode(&vec![0x0f, 0xa0, 0x00]), b"0fa000".to_vec());
    assert_eq!(hex_encode(&vec![]), Vec::<u8>::new());
    assert_eq!(hex_encode(&vec![0xde, 0xad, 0xbe, 0xef]), b"deadbeef".to_vec());
}
