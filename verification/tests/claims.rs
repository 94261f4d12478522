use lockdrop::builder::ExtBuilder;
use lockdrop::hashing::claim_id;
use lockdrop::issuance::Alpha;
use lockdrop::module::LockdropModule;
use lockdrop::types::{ClaimVote, Event, Hash256, Lockdrop, LockdropError, PublicKey};
use lockdrop::weights::{SubstrateWeight, WeightInfo};

fn bitcoin_params() -> Lockdrop {
    Lockdrop::Bitcoin {
        public: PublicKey { bytes: [7u8; 33] },
        value: 2,
        duration: 8640, // 8640 blocks of 10 minutes: 60 days locked
        transaction_hash: Hash256 { w0: 1, w1: 2, w2: 3, w3: 4 },
    }
}

fn module_with_three_authorities() -> LockdropModule {
    let mut m = ExtBuilder::new()
        .alpha(Alpha { parts: 500_000_000 })
        .dollar_rate((100, 200))
        .thresholds(2, 1)
        .build();
    m.on_new_session(vec![10, 20, 30]);
    m
}

#[test]
fn example_scenario_three_authorities() {
    // Authority set {A, B, C}, vote threshold 2, margin 1. A and B approve,
    // C declines: sum 3 >= 2 and margin 1 >= 1, so the claim pays out once,
    // and a second claim fails as already paid.
    let mut m = module_with_three_authorities();
    let params = bitcoin_params();
    let id = m.request(params).unwrap();
    assert_eq!(id, claim_id(&params));

    assert_eq!(m.vote(ClaimVote { claim_id: id, approve: true, authority: 0 }), Ok(()));
    assert_eq!(m.vote(ClaimVote { claim_id: id, approve: true, authority: 1 }), Ok(()));
    assert_eq!(m.vote(ClaimVote { claim_id: id, approve: false, authority: 2 }), Ok(()));

    let c = m.get_claim(id).unwrap();
    assert_eq!(c.approve, 2);
    assert_eq!(c.decline, 1);
    assert!(!c.complete);

    let (account, amount) = m.claim(id).unwrap();
    assert_eq!(account, PublicKey { bytes: [7u8; 33] });
    // alpha 0.5 of rate 100 is 50; 60 days earn bonus 24; the satoshi value
    // 2 is scaled by a million; times 10.
    assert_eq!(amount, 50 * 24 * 2_000_000 * 10);
    assert!(m.get_claim(id).unwrap().complete);

    assert_eq!(m.claim(id), Err(LockdropError::AlreadyPaid));
    assert_eq!(
        m.events.last(),
        Some(&Event::ClaimComplete(id, PublicKey { bytes: [7u8; 33] }, amount))
    );
}

#[test]
fn request_is_idempotent() {
    let mut m = module_with_three_authorities();
    let params = bitcoin_params();
    let id1 = m.request(params).unwrap();
    let amount1 = m.get_claim(id1).unwrap().amount;
    let id2 = m.request(params).unwrap();
    assert_eq!(id1, id2);
    assert_eq!(m.claims.len(), 1);
    assert_eq!(m.get_claim(id1).unwrap().amount, amount1);
    // Both requests registered the id for the off-chain scan.
    assert_eq!(m.requests, vec![id1, id1]);
}

#[test]
fn request_after_payout_fails() {
    let mut m = module_with_three_authorities();
    let params = bitcoin_params();
    let id = m.request(params).unwrap();
    m.vote(ClaimVote { claim_id: id, approve: true, authority: 0 }).unwrap();
    m.vote(ClaimVote { claim_id: id, approve: true, authority: 1 }).unwrap();
    m.claim(id).unwrap();
    assert_eq!(m.request(params), Err(LockdropError::AlreadyPaid));
}

#[test]
fn vote_deduplicates_per_authority() {
    let mut m = module_with_three_authorities();
    let id = m.request(bitcoin_params()).unwrap();
    assert_eq!(m.vote(ClaimVote { claim_id: id, approve: true, authority: 0 }), Ok(()));
    // The same authority cannot move the tallies again, not even declining.
    assert_eq!(
        m.vote(ClaimVote { claim_id: id, approve: true, authority: 0 }),
        Err(LockdropError::AlreadyVoted)
    );
    assert_eq!(
        m.vote(ClaimVote { claim_id: id, approve: false, authority: 0 }),
        Err(LockdropError::AlreadyVoted)
    );
    let c = m.get_claim(id).unwrap();
    assert_eq!((c.approve, c.decline), (1, 0));
}

#[test]
fn vote_validates_before_mutating() {
    // An unknown authority index is rejected before any tally moves.
    let mut m = module_with_three_authorities();
    let id = m.request(bitcoin_params()).unwrap();
    assert_eq!(
        m.vote(ClaimVote { claim_id: id, approve: true, authority: 3 }),
        Err(LockdropError::UnknownAuthority)
    );
    let c = m.get_claim(id).unwrap();
    assert_eq!((c.approve, c.decline), (0, 0));
}

#[test]
fn vote_unknown_claim_fails() {
    let mut m = module_with_three_authorities();
    let absent = Hash256 { w0: 9, w1: 9, w2: 9, w3: 9 };
    assert_eq!(
        m.vote(ClaimVote { claim_id: absent, approve: true, authority: 0 }),
        Err(LockdropError::UnknownClaim)
    );
}

#[test]
fn claim_unknown_id_fails() {
    let mut m = module_with_three_authorities();
    let absent = Hash256 { w0: 9, w1: 9, w2: 9, w3: 9 };
    assert_eq!(m.claim(absent), Err(LockdropError::UnknownClaim));
}

#[test]
fn claim_needs_enough_votes() {
    let mut m = module_with_three_authorities();
    let id = m.request(bitcoin_params()).unwrap();
    m.vote(ClaimVote { claim_id: id, approve: true, authority: 0 }).unwrap();
    // One vote of two required.
    assert_eq!(m.claim(id), Err(LockdropError::NotEnoughVotes));
}

#[test]
fn claim_needs_positive_margin() {
    let mut m = module_with_three_authorities();
    let id = m.request(bitcoin_params()).unwrap();
    m.vote(ClaimVote { claim_id: id, approve: true, authority: 0 }).unwrap();
    m.vote(ClaimVote { claim_id: id, approve: false, authority: 1 }).unwrap();
    // Two votes, but approve minus decline is zero, under the margin of one.
    assert_eq!(m.claim(id), Err(LockdropError::NotApproved));
    // A declined claim saturates at zero rather than going negative.
    m.vote(ClaimVote { claim_id: id, approve: false, authority: 2 }).unwrap();
    assert_eq!(m.claim(id), Err(LockdropError::NotApproved));
}

#[test]
fn request_overflow_is_fatal() {
    // A duration that does not survive the conversion to seconds.
    let mut m = module_with_three_authorities();
    let params = Lockdrop::Bitcoin {
        public: PublicKey { bytes: [1u8; 33] },
        value: 1,
        duration: u64::MAX,
        transaction_hash: Hash256 { w0: 0, w1: 0, w2: 0, w3: 0 },
    };
    assert_eq!(m.request(params), Err(LockdropError::Overflow));
    assert_eq!(m.claims.len(), 0);
}

#[test]
fn ethereum_amount_scales_down() {
    let mut m = module_with_three_authorities();
    let params = Lockdrop::Ethereum {
        public: PublicKey { bytes: [2u8; 33] },
        value: 5_000, // wei, scaled down by a thousand
        duration: 100 * 86400,
        transaction_hash: Hash256 { w0: 5, w1: 6, w2: 7, w3: 8 },
    };
    let id = m.request(params).unwrap();
    // alpha 0.5 of the ETH rate 200 is 100; 100 days earn bonus 100.
    assert_eq!(m.get_claim(id).unwrap().amount, 100 * 100 * 5 * 10);
}

#[test]
fn on_initialize_clears_requests() {
    let mut m = module_with_three_authorities();
    let id = m.request(bitcoin_params()).unwrap();
    assert_eq!(m.requests, vec![id]);
    let w = m.on_initialize();
    assert_eq!(w, 50_000);
    assert!(m.requests.is_empty());
    // The claim itself survives block initialisation.
    assert!(m.get_claim(id).is_some());
}

#[test]
fn dispatch_weights() {
    assert_eq!(<SubstrateWeight as WeightInfo>::request(), 1_000_000);
    assert_eq!(<SubstrateWeight as WeightInfo>::claim(), 1_000_000);
    assert_eq!(<SubstrateWeight as WeightInfo>::vote(), 10_000);
    assert_eq!(<SubstrateWeight as WeightInfo>::set_dollar_rate(), 10_000);
}

#[test]
fn default_lockdrop_is_zero_bitcoin() {
    let d = Lockdrop::default();
    assert_eq!(
        d,
        Lockdrop::Bitcoin {
            public: PublicKey { bytes: [0u8; 33] },
            value: 0,
            duration: 0,
            transaction_hash: Hash256 { w0: 0, w1: 0, w2: 0, w3: 0 },
        }
    );
}

#[test]
fn genesis_session_installs_keys() {
    let mut m = ExtBuilder::new().build();
    m.on_genesis_session(vec![1, 2]);
    assert_eq!(m.keys, vec![1, 2]);
    assert_eq!(m.events.last(), Some(&Event::NewAuthorities(vec![1, 2])));
}

#[test]
fn session_rotation_replaces_keys() {
    let mut m = module_with_three_authorities();
    m.on_new_session(vec![40, 50]);
    assert_eq!(m.keys, vec![40, 50]);
    assert_eq!(m.events.last(), Some(&Event::NewAuthorities(vec![40, 50])));
    assert_eq!(m.authority_index_of(50), Some(1));
    assert_eq!(m.authority_index_of(10), None);
}
