use lockdrop::builder::ExtBuilder;
use lockdrop::codec::{encode_rate, encode_vote};
use lockdrop::module::LockdropModule;
use lockdrop::types::{
    Call, ChainTx, ClaimVote, Hash256, InvalidTransaction, Lockdrop, LockdropError, PublicKey,
    TickerRate,
};

fn gated_module() -> (LockdropModule, Hash256) {
    let mut m = ExtBuilder::new()
        .thresholds(2, 1)
        .contract(b"c0ffee".to_vec(), 0)
        .build();
    m.on_new_session(vec![10, 20, 30]);
    let id = m
        .request(Lockdrop::Bitcoin {
            public: PublicKey { bytes: [9u8; 33] },
            value: 77,
            duration: 100,
            transaction_hash: Hash256 { w0: 4, w1: 3, w2: 2, w3: 1 },
        })
        .unwrap();
    (m, id)
}

#[test]
fn gate_admits_a_fresh_vote() {
    let (m, id) = gated_module();
    let vote = ClaimVote { claim_id: id, approve: true, authority: 1 };
    let vt = m.validate_unsigned(&Call::Vote(vote), true).unwrap();
    assert_eq!(vt.priority, u64::MAX);
    assert_eq!(vt.provides, encode_vote(&vote));
    assert_eq!(vt.longevity, 64);
    assert!(vt.propagate);
}

#[test]
fn gate_rejects_unknown_claim() {
    let (m, _) = gated_module();
    let vote = ClaimVote {
        claim_id: Hash256 { w0: 0, w1: 0, w2: 0, w3: 9 },
        approve: true,
        authority: 1,
    };
    assert_eq!(m.validate_unsigned(&Call::Vote(vote), true), Err(InvalidTransaction::Call));
}

#[test]
fn gate_rejects_unknown_authority_and_bad_signature() {
    let (m, id) = gated_module();
    let bad_index = ClaimVote { claim_id: id, approve: true, authority: 5 };
    assert_eq!(
        m.validate_unsigned(&Call::Vote(bad_index), true),
        Err(InvalidTransaction::BadProof)
    );
    let vote = ClaimVote { claim_id: id, approve: true, authority: 1 };
    assert_eq!(m.validate_unsigned(&Call::Vote(vote), false), Err(InvalidTransaction::BadProof));
}

#[test]
fn gate_rejects_replayed_vote() {
    let (mut m, id) = gated_module();
    let vote = ClaimVote { claim_id: id, approve: true, authority: 1 };
    assert!(m.validate_unsigned(&Call::Vote(vote), true).is_ok());
    m.vote(vote).unwrap();
    // Once the vote is recorded, the same authority's vote on the same claim
    // is turned away at admission.
    assert_eq!(m.validate_unsigned(&Call::Vote(vote), true), Err(InvalidTransaction::Call));
}

#[test]
fn gate_admits_a_rate_submission() {
    let (m, _) = gated_module();
    let rate = TickerRate { authority: 2, btc: 5, eth: 6 };
    let vt = m.validate_unsigned(&Call::SetDollarRate(rate), true).unwrap();
    assert_eq!(vt.provides, encode_rate(&rate));
    assert_eq!(
        m.validate_unsigned(&Call::SetDollarRate(rate), false),
        Err(InvalidTransaction::BadProof)
    );
    let bad = TickerRate { authority: 9, btc: 5, eth: 6 };
    assert_eq!(
        m.validate_unsigned(&Call::SetDollarRate(bad), true),
        Err(InvalidTransaction::BadProof)
    );
}

#[test]
fn check_lock_bitcoin_rules() {
    let (m, id) = gated_module();
    let script = vec![0x51, 0x52, 0x53];
    let tx = ChainTx {
        confirmations: 9,
        value: 77,
        script: script.clone(),
        sender: vec![],
        recipient: vec![],
    };
    assert_eq!(m.check_lock(id, &tx, &script, &vec![]), Ok(true));

    // Exactly eight confirmations are not enough.
    let shallow = ChainTx { confirmations: 8, ..tx.clone() };
    assert_eq!(m.check_lock(id, &shallow, &script, &vec![]), Ok(false));

    let wrong_value = ChainTx { value: 78, ..tx.clone() };
    assert_eq!(m.check_lock(id, &wrong_value, &script, &vec![]), Ok(false));

    let wrong_script = ChainTx { script: vec![0x51], ..tx };
    assert_eq!(m.check_lock(id, &wrong_script, &script, &vec![]), Ok(false));

    let absent = Hash256 { w0: 8, w1: 8, w2: 8, w3: 8 };
    let tx2 = ChainTx {
        confirmations: 9,
        value: 77,
        script: script.clone(),
        sender: vec![],
        recipient: vec![],
    };
    assert_eq!(m.check_lock(absent, &tx2, &script, &vec![]), Err(LockdropError::UnknownClaim));
}

#[test]
fn check_lock_ethereum_rules() {
    let mut m = ExtBuilder::new().contract(b"c0ffee".to_vec(), 0).build();
    m.on_new_session(vec![10]);
    let id = m
        .request(Lockdrop::Ethereum {
            public: PublicKey { bytes: [3u8; 33] },
            value: 5000,
            duration: 100,
            transaction_hash: Hash256 { w0: 1, w1: 1, w2: 1, w3: 1 },
        })
        .unwrap();
    let call_data = vec![0xaa, 0xbb];
    let sender_address = vec![0xde, 0xad];
    let tx = ChainTx {
        confirmations: 11,
        value: 5000,
        script: call_data.clone(),
        sender: b"dead".to_vec(), // hex of the expected address
        recipient: b"c0ffee".to_vec(),
    };
    assert_eq!(m.check_lock(id, &tx, &call_data, &sender_address), Ok(true));

    // Exactly ten confirmations are not enough.
    let shallow = ChainTx { confirmations: 10, ..tx.clone() };
    assert_eq!(m.check_lock(id, &shallow, &call_data, &sender_address), Ok(false));

    let wrong_recipient = ChainTx { recipient: b"beef".to_vec(), ..tx.clone() };
    assert_eq!(m.check_lock(id, &wrong_recipient, &call_data, &sender_address), Ok(false));

    let wrong_sender = ChainTx { sender: b"dEAd".to_vec(), ..tx };
    assert_eq!(m.check_lock(id, &wrong_sender, &call_data, &sender_address), Ok(false));
}
