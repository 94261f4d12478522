//! The claim-settlement engine: claim lifecycle, vote tally with double-vote
//! prevention, the expiring median filter over price samples, and admission
//! of unsigned submissions.
//!
//! Every state transition is specified as a pure function from the abstract
//! state [`State`] (and the operation's inputs) to the next state and the
//! result; the executable methods are proved to implement exactly those
//! functions. Transitions are atomic: a rejected operation leaves the state
//! untouched.

use vstd::prelude::*;

use crate::chainverifier::{verify_bitcoin, verify_ethereum};
use crate::codec::{encode_rate, encode_vote, spec_encode_rate, spec_encode_vote};
use crate::hexutil::spec_hex_encode;
use crate::filter::{
    filter_consume, filter_new, filter_size, filter_window, last_window, lemma_last_window_push,
    median_of,
};
use crate::hashing::{claim_id, spec_claim_id};
use crate::issuance::{issue_amount, spec_issue_amount, spec_time_bonus, time_bonus, Alpha};
use crate::types::{
    AuthorityId, AuthorityIndex, AuthorityVote, Call, ChainTx, Claim, ClaimId, ClaimVote,
    DollarRate, Event, InvalidTransaction, Lockdrop, LockdropError, Moment, PublicKey, RateSample,
    TickerRate, ValidTransaction,
};

verus! {

/// The abstract state of the engine: what the contracts and the laws speak
/// of. The event log is kept outside of it, in the module itself.
#[verifier::ext_equal]
pub struct State {
    /// Lock-check requests made since the last block initialisation.
    pub requests: Seq<ClaimId>,
    /// The ordered list of current authorities; position is the index.
    pub keys: Seq<AuthorityId>,
    /// Token claims, keyed by claim id.
    pub claims: Seq<(ClaimId, Claim)>,
    /// Double-vote prevention registry: (authority, claim) pairs that have
    /// voted. Never cleared.
    pub has_vote: Seq<(AuthorityId, ClaimId)>,
    /// The alpha parameter of the issuance formula.
    pub alpha: Alpha,
    /// The current aggregate dollar rate: BTC, ETH.
    pub dollar_rate: (DollarRate, DollarRate),
    /// One price sample per authority, expired lazily.
    pub rate_table: Seq<RateSample>,
    /// How many votes a claim needs in total before it can be decided.
    pub vote_threshold: AuthorityVote,
    /// How many positive votes (approve minus decline) a claim needs.
    pub positive_votes: AuthorityVote,
    /// The Ethereum lockdrop contract address the recipient must equal.
    pub ethereum_contract: Seq<u8>,
    /// Timestamp of the end of the lockdrop.
    pub lockdrop_end: Moment,
    /// Width of the dollar-rate median filter.
    pub filter_width: usize,
    /// How long a dollar-rate sample stays valid, in seconds.
    pub filter_expire: Moment,
}

impl State {
    /// Well-formedness: alpha is a fraction, the filter is at least one
    /// wide, authority indices fit the index type, and claim ids and
    /// rate-table authorities are unique keys.
    pub open spec fn wf(self) -> bool {
        &&& self.alpha.wf()
        &&& self.filter_width >= 1
        &&& self.keys.len() <= 0x10000
        &&& forall|i: int, j: int|
            0 <= i < j < self.claims.len() ==> (#[trigger] self.claims[i]).0 != (
            #[trigger] self.claims[j]).0
        &&& forall|i: int, j: int|
            0 <= i < j < self.rate_table.len() ==> (#[trigger] self.rate_table[i]).authority != (
            #[trigger] self.rate_table[j]).authority
    }
}

/// The claim stored under an id, if any. Searches from the back, though
/// under [`State::wf`] at most one entry can match.
pub open spec fn spec_lookup(s: Seq<(ClaimId, Claim)>, id: ClaimId) -> Option<Claim>
    decreases s.len(),
{
    if s.len() == 0 {
        None
    } else if s.last().0 == id {
        Some(s.last().1)
    } else {
        spec_lookup(s.drop_last(), id)
    }
}

/// If no entry carries the id, the lookup is `None`.
pub proof fn lemma_lookup_none(s: Seq<(ClaimId, Claim)>, id: ClaimId)
    requires
        forall|j: int| 0 <= j < s.len() ==> (#[trigger] s[j]).0 != id,
    ensures
        spec_lookup(s, id) is None,
    decreases s.len(),
{
    if s.len() > 0 {
        lemma_lookup_none(s.drop_last(), id);
    }
}

/// If entry `i` carries the id and ids are unique, the lookup returns it.
pub proof fn lemma_lookup_at(s: Seq<(ClaimId, Claim)>, id: ClaimId, i: int)
    requires
        0 <= i < s.len(),
        s[i].0 == id,
        forall|j: int, k: int| 0 <= j < k < s.len() ==> (#[trigger] s[j]).0 != (#[trigger] s[k]).0,
    ensures
        spec_lookup(s, id) == Some(s[i].1),
    decreases s.len(),
{
    if i == s.len() - 1 {
    } else {
        assert(s.last().0 != id);
        lemma_lookup_at(s.drop_last(), id, i);
    }
}

/// If the lookup is `None`, no entry carries the id.
pub proof fn lemma_lookup_none_rev(s: Seq<(ClaimId, Claim)>, id: ClaimId)
    requires
        spec_lookup(s, id) is None,
    ensures
        forall|j: int| 0 <= j < s.len() ==> (#[trigger] s[j]).0 != id,
    decreases s.len(),
{
    if s.len() > 0 {
        lemma_lookup_none_rev(s.drop_last(), id);
        assert forall|j: int| 0 <= j < s.len() implies (#[trigger] s[j]).0 != id by {
            if j < s.len() - 1 {
                assert(s.drop_last()[j] == s[j]);
            }
        }
    }
}

/// Appending a fresh entry makes it visible under its id and leaves every
/// other id's lookup unchanged.
pub proof fn lemma_lookup_push(s: Seq<(ClaimId, Claim)>, id: ClaimId, c: Claim)
    ensures
        spec_lookup(s.push((id, c)), id) == Some(c),
        forall|id2: ClaimId|
            id2 != id ==> #[trigger] spec_lookup(s.push((id, c)), id2) == spec_lookup(s, id2),
{
    assert forall|id2: ClaimId|
        id2 != id implies #[trigger] spec_lookup(s.push((id, c)), id2) == spec_lookup(s, id2) by {
        assert(s.push((id, c)).drop_last() =~= s);
    }
}

/// Rewrite the claim stored under `id` (if any) with `f`, leaving every
/// other entry alone.
pub open spec fn touch_claim(
    s: Seq<(ClaimId, Claim)>,
    id: ClaimId,
    f: spec_fn(Claim) -> Claim,
) -> Seq<(ClaimId, Claim)> {
    s.map_values(
        |e: (ClaimId, Claim)|
            if e.0 == id {
                (e.0, f(e.1))
            } else {
                e
            },
    )
}

/// What `touch_claim` does to lookups: the touched id now maps to the
/// rewritten claim, every other id is untouched, and keys stay as they were.
pub proof fn lemma_touch_claim(s: Seq<(ClaimId, Claim)>, id: ClaimId, f: spec_fn(Claim) -> Claim)
    ensures
        touch_claim(s, id, f).len() == s.len(),
        forall|k: int| 0 <= k < s.len() ==> (#[trigger] touch_claim(s, id, f)[k]).0 == s[k].0,
        spec_lookup(touch_claim(s, id, f), id) == (match spec_lookup(s, id) {
            Some(c) => Some(f(c)),
            None => None,
        }),
        forall|id2: ClaimId|
            id2 != id ==> #[trigger] spec_lookup(touch_claim(s, id, f), id2) == spec_lookup(
                s,
                id2,
            ),
    decreases s.len(),
{
    if s.len() > 0 {
        lemma_touch_claim(s.drop_last(), id, f);
        assert(touch_claim(s, id, f).drop_last() =~= touch_claim(s.drop_last(), id, f));
        let t = touch_claim(s, id, f);
        assert(t.last() == if s.last().0 == id {
            (s.last().0, f(s.last().1))
        } else {
            s.last()
        });
        assert forall|id2: ClaimId| id2 != id implies #[trigger] spec_lookup(t, id2)
            == spec_lookup(s, id2) by {
            assert(t.len() == s.len());
            if t.last().0 == id2 {
                assert(s.last().0 == id2);
                assert(t.last().1 == s.last().1);
                assert(spec_lookup(t, id2) == Some(t.last().1));
                assert(spec_lookup(s, id2) == Some(s.last().1));
            } else {
                assert(s.last().0 != id2);
                assert(spec_lookup(t, id2) == spec_lookup(t.drop_last(), id2));
                assert(spec_lookup(s, id2) == spec_lookup(s.drop_last(), id2));
                assert(spec_lookup(t.drop_last(), id2) == spec_lookup(s.drop_last(), id2));
            }
        }
    }
}

/// Saturating subtraction: never below zero.
pub open spec fn spec_sat_sub_u32(a: u32, b: u32) -> u32 {
    if a < b {
        0u32
    } else {
        (a - b) as u32
    }
}

/// Saturating subtraction: never below zero.
pub open spec fn spec_sat_sub_u64(a: u64, b: u64) -> u64 {
    if a < b {
        0u64
    } else {
        (a - b) as u64
    }
}

/// A sample is fresh at `now` when its age is under the expiry.
pub open spec fn spec_fresh(now: Moment, expire: Moment, sample: RateSample) -> bool {
    spec_sat_sub_u64(now, sample.timestamp) < expire
}

/// Whether the table holds a sample from the authority.
pub open spec fn spec_table_has(table: Seq<RateSample>, a: AuthorityId) -> bool {
    exists|i: int| 0 <= i < table.len() && (#[trigger] table[i]).authority == a
}

/// The table with every slot of the sample's authority overwritten.
pub open spec fn spec_replace_slot(table: Seq<RateSample>, sample: RateSample) -> Seq<RateSample> {
    table.map_values(
        |e: RateSample|
            if e.authority == sample.authority {
                sample
            } else {
                e
            },
    )
}

/// Overwrite the authority's single sample slot, or append a new slot.
pub open spec fn spec_upsert(table: Seq<RateSample>, sample: RateSample) -> Seq<RateSample> {
    if spec_table_has(table, sample.authority) {
        spec_replace_slot(table, sample)
    } else {
        table.push(sample)
    }
}

/// The fresh samples of a table, in order.
pub open spec fn spec_kept(table: Seq<RateSample>, now: Moment, expire: Moment) -> Seq<
    RateSample,
> {
    table.filter(|e: RateSample| spec_fresh(now, expire, e))
}

/// The BTC rates of a table, in order.
pub open spec fn spec_btc_values(table: Seq<RateSample>) -> Seq<DollarRate> {
    table.map_values(|e: RateSample| e.btc)
}

/// The ETH rates of a table, in order.
pub open spec fn spec_eth_values(table: Seq<RateSample>) -> Seq<DollarRate> {
    table.map_values(|e: RateSample| e.eth)
}

/// The aggregate dollar rate after a submission: the medians of the last
/// filter-width fresh samples per asset, or the previous aggregate when no
/// sample is fresh.
pub open spec fn spec_rate_outcome(s: State, kept: Seq<RateSample>) -> (DollarRate, DollarRate) {
    if kept.len() == 0 {
        s.dollar_rate
    } else {
        (
            median_of(last_window(spec_btc_values(kept), s.filter_width as nat)),
            median_of(last_window(spec_eth_values(kept), s.filter_width as nat)),
        )
    }
}

/// A claim with one more approve or decline vote.
pub open spec fn spec_inc_vote(approve: bool, c: Claim) -> Claim {
    Claim {
        params: c.params,
        approve: if approve {
            (c.approve + 1) as u32
        } else {
            c.approve
        },
        decline: if approve {
            c.decline
        } else {
            (c.decline + 1) as u32
        },
        amount: c.amount,
        complete: c.complete,
    }
}

/// A claim with the completion latch set.
pub open spec fn spec_set_complete(c: Claim) -> Claim {
    Claim { params: c.params, approve: c.approve, decline: c.decline, amount: c.amount, complete: true }
}

/// The amount a freshly created claim is worth, computed once at creation
/// from the current alpha and aggregate dollar rate. For Bitcoin the
/// duration counts blocks of ten minutes and the value is scaled from
/// satoshi towards the token's unit; for Ethereum the duration is already in
/// seconds and the value is scaled down from wei. `None` means the
/// computation would overflow, which rejects the request.
pub open spec fn spec_new_claim_amount(s: State, params: Lockdrop) -> Option<u128> {
    match params {
        Lockdrop::Bitcoin { value, duration, .. } => {
            if duration * 600 > u64::MAX {
                None
            } else if value * 1_000_000 > u128::MAX {
                None
            } else {
                let amt = spec_issue_amount(
                    s.alpha.parts,
                    s.dollar_rate.0,
                    spec_time_bonus((duration * 600) as u64),
                    (value * 1_000_000) as u128,
                );
                if amt > u128::MAX {
                    None
                } else {
                    Some(amt as u128)
                }
            }
        },
        Lockdrop::Ethereum { value, duration, .. } => {
            let amt = spec_issue_amount(
                s.alpha.parts,
                s.dollar_rate.1,
                spec_time_bonus(duration),
                (value / 1000) as u128,
            );
            if amt > u128::MAX {
                None
            } else {
                Some(amt as u128)
            }
        },
    }
}

/// The request transition. The claim id is the hash of the parameters; a
/// completed claim rejects the request; a missing claim is created with the
/// amount computed now and zero votes; in either accepted case the id is
/// (re-)registered for the off-chain scan.
pub open spec fn spec_request(s: State, params: Lockdrop) -> (State, Result<
    ClaimId,
    LockdropError,
>) {
    let id = spec_claim_id(params);
    match spec_lookup(s.claims, id) {
        Some(c) => {
            if c.complete {
                (s, Err(LockdropError::AlreadyPaid))
            } else {
                (State { requests: s.requests.push(id), ..s }, Ok(id))
            }
        },
        None => {
            match spec_new_claim_amount(s, params) {
                None => (s, Err(LockdropError::Overflow)),
                Some(amount) => (
                    State {
                        claims: s.claims.push(
                            (
                                id,
                                Claim {
                                    params,
                                    approve: 0,
                                    decline: 0,
                                    amount,
                                    complete: false,
                                },
                            ),
                        ),
                        requests: s.requests.push(id),
                        ..s
                    },
                    Ok(id),
                ),
            }
        },
    }
}

/// The payout transition. It fails on a missing claim, on a paid claim, and
/// on either vote threshold; otherwise it latches `complete` and yields the
/// payout: the embedded public key (from which the host derives the account,
/// the same way for both chains) and the amount to credit.
pub open spec fn spec_claim(s: State, id: ClaimId) -> (State, Result<
    (PublicKey, u128),
    LockdropError,
>) {
    match spec_lookup(s.claims, id) {
        None => (s, Err(LockdropError::UnknownClaim)),
        Some(c) => {
            if c.complete {
                (s, Err(LockdropError::AlreadyPaid))
            } else if c.approve + c.decline < s.vote_threshold {
                (s, Err(LockdropError::NotEnoughVotes))
            } else if spec_sat_sub_u32(c.approve, c.decline) < s.positive_votes {
                (s, Err(LockdropError::NotApproved))
            } else {
                (
                    State { claims: touch_claim(s.claims, id, |c2: Claim| spec_set_complete(c2)), ..s },
                    Ok((c.params.spec_public(), c.amount)),
                )
            }
        },
    }
}

/// The vote transition, validating before mutating: the authority index
/// must resolve, the claim must exist, and the (authority, claim) pair must
/// not have voted yet; then one tally is incremented and the pair is marked,
/// as one atomic step.
pub open spec fn spec_vote(s: State, v: ClaimVote) -> (State, Result<(), LockdropError>) {
    if v.authority as int >= s.keys.len() {
        (s, Err(LockdropError::UnknownAuthority))
    } else {
        let a = s.keys[v.authority as int];
        match spec_lookup(s.claims, v.claim_id) {
            None => (s, Err(LockdropError::UnknownClaim)),
            Some(c) => {
                if s.has_vote.contains((a, v.claim_id)) {
                    (s, Err(LockdropError::AlreadyVoted))
                } else if (if v.approve {
                    c.approve
                } else {
                    c.decline
                }) == u32::MAX {
                    (s, Err(LockdropError::Overflow))
                } else {
                    (
                        State {
                            claims: touch_claim(
                                s.claims,
                                v.claim_id,
                                |c2: Claim| spec_inc_vote(v.approve, c2),
                            ),
                            has_vote: s.has_vote.push((a, v.claim_id)),
                            ..s
                        },
                        Ok(()),
                    )
                }
            },
        }
    }
}

/// The rate-submission transition: the authority's slot is overwritten with
/// the new sample, expired samples are pruned, and the aggregate rate
/// becomes the median of the fresh samples (per asset), or stays as it was
/// when none is fresh.
pub open spec fn spec_set_dollar_rate(s: State, rate: TickerRate, now: Moment) -> (State, Result<
    (),
    LockdropError,
>) {
    if rate.authority as int >= s.keys.len() {
        (s, Err(LockdropError::UnknownAuthority))
    } else {
        let a = s.keys[rate.authority as int];
        let merged = spec_upsert(
            s.rate_table,
            RateSample { authority: a, timestamp: now, btc: rate.btc, eth: rate.eth },
        );
        let kept = spec_kept(merged, now, s.filter_expire);
        (
            State { rate_table: kept, dollar_rate: spec_rate_outcome(s, kept), ..s },
            Ok(()),
        )
    }
}

/// Filtering a table whose authorities are unique keeps them unique.
pub proof fn lemma_filter_distinct(table: Seq<RateSample>, pred: spec_fn(RateSample) -> bool)
    requires
        forall|p: int, q: int|
            0 <= p < q < table.len() ==> (#[trigger] table[p]).authority != (
            #[trigger] table[q]).authority,
    ensures
        forall|p: int, q: int|
            0 <= p < q < table.filter(pred).len() ==> (#[trigger] table.filter(pred)[p]).authority
                != (#[trigger] table.filter(pred)[q]).authority,
    decreases table.len(),
{
    reveal(Seq::filter);
    if table.len() > 0 {
        let rest = table.drop_last();
        let last = table.last();
        lemma_filter_distinct(rest, pred);
        let f = table.filter(pred);
        if pred(last) {
            assert(f == rest.filter(pred).push(last));
            assert forall|p: int, q: int|
                0 <= p < q < f.len() implies (#[trigger] f[p]).authority != (
            #[trigger] f[q]).authority by {
                if q == f.len() - 1 {
                    assert(f[p] == rest.filter(pred)[p]);
                    assert(rest.filter(pred).contains(f[p]));
                    rest.lemma_filter_contains_rev(pred, f[p]);
                    let w = choose|w: int| 0 <= w < rest.len() && rest[w] == f[p];
                    assert(table[w] == rest[w]);
                    assert(table[w].authority != last.authority);
                } else {
                    assert(f[p] == rest.filter(pred)[p]);
                    assert(f[q] == rest.filter(pred)[q]);
                }
            }
        }
    }
}

/// The engine itself: the on-chain state plus an append-only event log.
pub struct LockdropModule {
    pub requests: Vec<ClaimId>,
    pub keys: Vec<AuthorityId>,
    pub claims: Vec<(ClaimId, Claim)>,
    pub has_vote: Vec<(AuthorityId, ClaimId)>,
    pub alpha: Alpha,
    pub dollar_rate: (DollarRate, DollarRate),
    pub rate_table: Vec<RateSample>,
    pub vote_threshold: AuthorityVote,
    pub positive_votes: AuthorityVote,
    pub ethereum_contract: Vec<u8>,
    pub lockdrop_end: Moment,
    pub filter_width: usize,
    pub filter_expire: Moment,
    /// Append-only log of observable events.
    pub events: Vec<Event>,
}

impl View for LockdropModule {
    type V = State;

    open spec fn view(&self) -> State {
        State {
            requests: self.requests@,
            keys: self.keys@,
            claims: self.claims@,
            has_vote: self.has_vote@,
            alpha: self.alpha,
            dollar_rate: self.dollar_rate,
            rate_table: self.rate_table@,
            vote_threshold: self.vote_threshold,
            positive_votes: self.positive_votes,
            ethereum_contract: self.ethereum_contract@,
            lockdrop_end: self.lockdrop_end,
            filter_width: self.filter_width,
            filter_expire: self.filter_expire,
        }
    }
}

impl LockdropModule {
    /// Well-formedness of the whole module.
    pub open spec fn wf(&self) -> bool {
        self@.wf()
    }

    /// A fresh module with the given configuration and no claims, votes,
    /// authorities or samples.
    pub fn new(
        alpha: Alpha,
        dollar_rate: (DollarRate, DollarRate),
        vote_threshold: AuthorityVote,
        positive_votes: AuthorityVote,
        ethereum_contract: Vec<u8>,
        lockdrop_end: Moment,
        filter_width: usize,
        filter_expire: Moment,
    ) -> (r: LockdropModule)
        requires
            alpha.wf(),
            filter_width >= 1,
        ensures
            r.wf(),
            r@ == (State {
                requests: Seq::<ClaimId>::empty(),
                keys: Seq::<AuthorityId>::empty(),
                claims: Seq::<(ClaimId, Claim)>::empty(),
                has_vote: Seq::<(AuthorityId, ClaimId)>::empty(),
                alpha: alpha,
                dollar_rate: dollar_rate,
                rate_table: Seq::<RateSample>::empty(),
                vote_threshold: vote_threshold,
                positive_votes: positive_votes,
                ethereum_contract: ethereum_contract@,
                lockdrop_end: lockdrop_end,
                filter_width: filter_width,
                filter_expire: filter_expire,
            }),
            r.events@ == Seq::<Event>::empty(),
    {
        LockdropModule {
            requests: Vec::new(),
            keys: Vec::new(),
            claims: Vec::new(),
            has_vote: Vec::new(),
            alpha,
            dollar_rate,
            rate_table: Vec::new(),
            vote_threshold,
            positive_votes,
            ethereum_contract,
            lockdrop_end,
            filter_width,
            filter_expire,
            events: Vec::new(),
        }
    }

    /// Find the index of the claim stored under `id`.
    fn find_claim(&self, id: ClaimId) -> (r: Option<usize>)
        requires
            self.wf(),
        ensures
            match r {
                Some(i) => i < self.claims@.len() && self.claims@[i as int].0 == id
                    && spec_lookup(self.claims@, id) == Some(self.claims@[i as int].1),
                None => spec_lookup(self.claims@, id) is None,
            },
    {
        let mut i: usize = 0;
        while i < self.claims.len()
            invariant
                self.wf(),
                i <= self.claims@.len(),
                forall|j: int| 0 <= j < i ==> (#[trigger] self.claims@[j]).0 != id,
            decreases self.claims@.len() - i,
        {
            if self.claims[i].0 == id {
                proof {
                    assert(self@.claims == self.claims@);
                    lemma_lookup_at(self@.claims, id, i as int);
                }
                return Some(i);
            }
            i = i + 1;
        }
        proof {
            lemma_lookup_none(self.claims@, id);
        }
        None
    }

    /// Whether the (authority, claim) pair has voted already.
    fn has_voted(&self, authority: AuthorityId, id: ClaimId) -> (r: bool)
        ensures
            r == self.has_vote@.contains((authority, id)),
    {
        let mut i: usize = 0;
        while i < self.has_vote.len()
            invariant
                i <= self.has_vote@.len(),
                forall|j: int| 0 <= j < i ==> self.has_vote@[j] != (authority, id),
            decreases self.has_vote@.len() - i,
        {
            let e = self.has_vote[i];
            if e.0 == authority && e.1 == id {
                assert(self.has_vote@[i as int] == (authority, id));
                return true;
            }
            i = i + 1;
        }
        false
    }

    /// Check that the authority key list contains the given key, and where:
    /// the index of its first occurrence. A linear scan is acceptable
    /// because the authority set is small and bounded by the external
    /// session mechanism.
    pub fn authority_index_of(&self, key: AuthorityId) -> (r: Option<AuthorityIndex>)
        requires
            self.wf(),
        ensures
            match r {
                Some(i) => (i as int) < self@.keys.len() && self@.keys[i as int] == key
                    && forall|j: int| 0 <= j < i ==> self@.keys[j] != key,
                None => !self@.keys.contains(key),
            },
    {
        let mut i: usize = 0;
        while i < self.keys.len()
            invariant
                self.wf(),
                i <= self@.keys.len(),
                forall|j: int| 0 <= j < i ==> self@.keys[j] != key,
            decreases self@.keys.len() - i,
        {
            if self.keys[i] == key {
                return Some(i as u16);
            }
            i = i + 1;
        }
        proof {
            if self@.keys.contains(key) {
                let w = choose|j: int| 0 <= j < self@.keys.len() && self@.keys[j] == key;
                assert(self@.keys[w] != key);
            }
        }
        None
    }

    /// Clean the per-block request list at the start of block execution and
    /// report the operation's dispatch weight.
    pub fn on_initialize(&mut self) -> (w: u64)
        ensures
            final(self)@ == (State { requests: Seq::<ClaimId>::empty(), ..old(self)@ }),
            final(self).events@ == old(self).events@,
            w == crate::weights::ON_INITIALIZE_WEIGHT,
    {
        self.requests = Vec::new();
        crate::weights::ON_INITIALIZE_WEIGHT
    }

    /// Install the initial authority list on the genesis session.
    pub fn on_genesis_session(&mut self, keys: Vec<AuthorityId>)
        requires
            old(self).wf(),
            keys@.len() <= 0x10000,
        ensures
            final(self).wf(),
            final(self)@ == (State { keys: keys@, ..old(self)@ }),
            final(self).events@.len() == old(self).events@.len() + 1,
            final(self).events@.drop_last() == old(self).events@,
            final(self).events@.last() matches Event::NewAuthorities(k) && k@ == keys@,
    {
        self.on_new_session(keys)
    }

    /// Replace the authority list wholesale at a session boundary. Old
    /// indices are not assumed valid afterwards; votes already tallied and
    /// the double-vote registry are kept.
    pub fn on_new_session(&mut self, keys: Vec<AuthorityId>)
        requires
            old(self).wf(),
            keys@.len() <= 0x10000,
        ensures
            final(self).wf(),
            final(self)@ == (State { keys: keys@, ..old(self)@ }),
            final(self).events@.len() == old(self).events@.len() + 1,
            final(self).events@.drop_last() == old(self).events@,
            final(self).events@.last() matches Event::NewAuthorities(k) && k@ == keys@,
    {
        let mut log_copy: Vec<AuthorityId> = Vec::new();
        let mut i: usize = 0;
        while i < keys.len()
            invariant
                i <= keys@.len(),
                log_copy@ == keys@.subrange(0, i as int),
            decreases keys@.len() - i,
        {
            log_copy.push(keys[i]);
            assert(log_copy@ =~= keys@.subrange(0, i + 1));
            i = i + 1;
        }
        assert(log_copy@ =~= keys@);
        self.keys = keys;
        self.events.push(Event::NewAuthorities(log_copy));
        proof {
            assert(self.events@.drop_last() =~= old(self).events@);
        }
    }

    /// The amount a fresh claim for `params` would be worth now.
    fn new_claim_amount(&self, params: Lockdrop) -> (r: Result<u128, LockdropError>)
        requires
            self.wf(),
        ensures
            match r {
                Ok(a) => spec_new_claim_amount(self@, params) == Some(a),
                Err(e) => e == LockdropError::Overflow && spec_new_claim_amount(self@, params)
                    is None,
            },
    {
        proof {
            assert(self@.alpha == self.alpha);
        }
        match params {
            Lockdrop::Bitcoin { value, duration, .. } => {
                // Average block duration in BTC is 10 minutes.
                let duration_sec = match duration.checked_mul(600) {
                    Some(d) => d,
                    None => {
                        return Err(LockdropError::Overflow);
                    },
                };
                // Scale satoshi towards the token's unit.
                let value_btc = match value.checked_mul(1_000_000) {
                    Some(v) => v,
                    None => {
                        return Err(LockdropError::Overflow);
                    },
                };
                let bonus = time_bonus(duration_sec);
                issue_amount(self.alpha, self.dollar_rate.0, bonus, value_btc)
            },
            Lockdrop::Ethereum { value, duration, .. } => {
                // Scale wei down towards the token's unit.
                let bonus = time_bonus(duration);
                issue_amount(self.alpha, self.dollar_rate.1, bonus, value / 1000)
            },
        }
    }

    /// Request the authorities to check a locking transaction: create the
    /// claim if it is new, and register it for the off-chain scan.
    pub fn request(&mut self, params: Lockdrop) -> (r: Result<ClaimId, LockdropError>)
        requires
            old(self).wf(),
        ensures
            final(self).wf(),
            final(self)@ == spec_request(old(self)@, params).0,
            r == spec_request(old(self)@, params).1,
            r is Ok ==> final(self).events@ == old(self).events@.push(
                Event::ClaimRequest(spec_claim_id(params)),
            ),
            r is Err ==> final(self).events@ == old(self).events@,
    {
        let id = claim_id(&params);
        match self.find_claim(id) {
            Some(i) => {
                let c = self.claims[i].1;
                if c.complete {
                    return Err(LockdropError::AlreadyPaid);
                }
                self.requests.push(id);
                self.events.push(Event::ClaimRequest(id));
                proof {
                    assert(self@ =~= spec_request(old(self)@, params).0);
                }
                Ok(id)
            },
            None => {
                let amount = match self.new_claim_amount(params) {
                    Ok(a) => a,
                    Err(e) => {
                        return Err(e);
                    },
                };
                let fresh_claim = Claim {
                    params,
                    approve: 0,
                    decline: 0,
                    amount,
                    complete: false,
                };
                proof {
                    lemma_lookup_none_rev(old(self)@.claims, id);
                }
                self.claims.push((id, fresh_claim));
                self.requests.push(id);
                self.events.push(Event::ClaimRequest(id));
                proof {
                    assert(self@ =~= spec_request(old(self)@, params).0);
                    assert forall|p: int, q: int|
                        0 <= p < q < self@.claims.len() implies (#[trigger] self@.claims[p]).0 != (
                    #[trigger] self@.claims[q]).0 by {
                        if q == self@.claims.len() - 1 {
                            assert(old(self)@.claims[p].0 != id);
                        }
                    }
                }
                Ok(id)
            },
        }
    }

    /// Claim the tokens of a fully voted lockdrop: exactly once, and only
    /// past both vote thresholds. On success the returned key and amount go
    /// to the currency ledger, which credits the account derived from the
    /// key; crediting is infallible from this module's perspective.
    pub fn claim(&mut self, id: ClaimId) -> (r: Result<(PublicKey, u128), LockdropError>)
        requires
            old(self).wf(),
        ensures
            final(self).wf(),
            final(self)@ == spec_claim(old(self)@, id).0,
            r == spec_claim(old(self)@, id).1,
            r matches Ok(payout) ==> final(self).events@ == old(self).events@.push(
                Event::ClaimComplete(id, payout.0, payout.1),
            ),
            r is Err ==> final(self).events@ == old(self).events@,
    {
        let i = match self.find_claim(id) {
            Some(i) => i,
            None => {
                return Err(LockdropError::UnknownClaim);
            },
        };
        let c = self.claims[i].1;
        if c.complete {
            return Err(LockdropError::AlreadyPaid);
        }
        if (c.approve as u64) + (c.decline as u64) < (self.vote_threshold as u64) {
            return Err(LockdropError::NotEnoughVotes);
        }
        let positive = if c.approve < c.decline {
            0
        } else {
            c.approve - c.decline
        };
        if positive < self.positive_votes {
            return Err(LockdropError::NotApproved);
        }
        let paid = Claim {
            params: c.params,
            approve: c.approve,
            decline: c.decline,
            amount: c.amount,
            complete: true,
        };
        let key = self.claims[i].0;
        self.claims[i] = (key, paid);
        let account = c.params.public();
        self.events.push(Event::ClaimComplete(id, account, c.amount));
        proof {
            let f = |c2: Claim| spec_set_complete(c2);
            lemma_touch_claim(old(self)@.claims, id, f);
            assert(self@.claims =~= touch_claim(old(self)@.claims, id, f));
            assert(self@ =~= spec_claim(old(self)@, id).0);
        }
        Ok((account, c.amount))
    }

    /// Record an authority's vote on a claim, validating before mutating:
    /// the authority index must resolve, the claim must exist, and this
    /// (authority, claim) pair must not have voted before. Marking the pair
    /// and moving the tally happen as one atomic step.
    pub fn vote(&mut self, v: ClaimVote) -> (r: Result<(), LockdropError>)
        requires
            old(self).wf(),
        ensures
            final(self).wf(),
            final(self)@ == spec_vote(old(self)@, v).0,
            r == spec_vote(old(self)@, v).1,
            r is Ok ==> final(self).events@ == old(self).events@.push(
                Event::ClaimResponse(
                    v.claim_id,
                    old(self)@.keys[v.authority as int],
                    v.approve,
                ),
            ),
            r is Err ==> final(self).events@ == old(self).events@,
    {
        if (v.authority as usize) >= self.keys.len() {
            return Err(LockdropError::UnknownAuthority);
        }
        let a = self.keys[v.authority as usize];
        let i = match self.find_claim(v.claim_id) {
            Some(i) => i,
            None => {
                return Err(LockdropError::UnknownClaim);
            },
        };
        if self.has_voted(a, v.claim_id) {
            return Err(LockdropError::AlreadyVoted);
        }
        let c = self.claims[i].1;
        if v.approve && c.approve == u32::MAX {
            return Err(LockdropError::Overflow);
        }
        if !v.approve && c.decline == u32::MAX {
            return Err(LockdropError::Overflow);
        }
        let tallied = Claim {
            params: c.params,
            approve: if v.approve {
                c.approve + 1
            } else {
                c.approve
            },
            decline: if v.approve {
                c.decline
            } else {
                c.decline + 1
            },
            amount: c.amount,
            complete: c.complete,
        };
        let key = self.claims[i].0;
        self.claims[i] = (key, tallied);
        self.has_vote.push((a, v.claim_id));
        self.events.push(Event::ClaimResponse(v.claim_id, a, v.approve));
        proof {
            let f = |c2: Claim| spec_inc_vote(v.approve, c2);
            lemma_touch_claim(old(self)@.claims, v.claim_id, f);
            assert(self@.claims =~= touch_claim(old(self)@.claims, v.claim_id, f));
            assert(self@ =~= spec_vote(old(self)@, v).0);
        }
        Ok(())
    }

    /// Fold an authority's rate submission into the aggregate: overwrite the
    /// authority's sample slot, prune expired samples, and publish the
    /// median of the fresh samples per asset.
    pub fn set_dollar_rate(&mut self, rate: TickerRate, now: Moment) -> (r: Result<
        (),
        LockdropError,
    >)
        requires
            old(self).wf(),
        ensures
            final(self).wf(),
            final(self)@ == spec_set_dollar_rate(old(self)@, rate, now).0,
            r == spec_set_dollar_rate(old(self)@, rate, now).1,
            r is Ok ==> final(self).events@ == old(self).events@.push(
                Event::NewDollarRate(final(self)@.dollar_rate.0, final(self)@.dollar_rate.1),
            ),
            r is Err ==> final(self).events@ == old(self).events@,
    {
        if (rate.authority as usize) >= self.keys.len() {
            return Err(LockdropError::UnknownAuthority);
        }
        let a = self.keys[rate.authority as usize];
        let sample = RateSample { authority: a, timestamp: now, btc: rate.btc, eth: rate.eth };

        // Overwrite the authority's slot, or append one.
        let mut merged: Vec<RateSample> = Vec::new();
        let mut found = false;
        let mut i: usize = 0;
        while i < self.rate_table.len()
            invariant
                i <= self.rate_table@.len(),
                found == spec_table_has(self.rate_table@.subrange(0, i as int), sample.authority),
                merged@ == spec_replace_slot(
                    self.rate_table@.subrange(0, i as int),
                    sample,
                ),
            decreases self.rate_table@.len() - i,
        {
            let e = self.rate_table[i];
            proof {
                let prefix = self.rate_table@.subrange(0, i as int);
                let ext = self.rate_table@.subrange(0, i as int + 1);
                assert(ext.drop_last() =~= prefix);
                assert(ext.last() == e);
                assert(spec_replace_slot(ext, sample) =~= spec_replace_slot(prefix, sample).push(
                    if e.authority == sample.authority {
                        sample
                    } else {
                        e
                    },
                ));
                if spec_table_has(ext, sample.authority) {
                    let w = choose|w: int|
                        0 <= w < ext.len() && (#[trigger] ext[w]).authority == sample.authority;
                    if w < i {
                        assert(prefix[w].authority == sample.authority);
                    }
                }
                if spec_table_has(prefix, sample.authority) {
                    let w = choose|w: int|
                        0 <= w < prefix.len() && (#[trigger] prefix[w]).authority
                            == sample.authority;
                    assert(ext[w].authority == sample.authority);
                }
            }
            if e.authority == sample.authority {
                merged.push(sample);
                found = true;
            } else {
                merged.push(e);
            }
            i = i + 1;
        }
        proof {
            assert(self.rate_table@.subrange(0, self.rate_table@.len() as int)
                =~= self.rate_table@);
        }
        if !found {
            proof {
                assert forall|k: int| 0 <= k < self.rate_table@.len() implies (
                #[trigger] self.rate_table@[k]).authority != sample.authority by {}
                assert(merged@ =~= self.rate_table@);
            }
            merged.push(sample);
        }
        proof {
            assert(merged@ == spec_upsert(self.rate_table@, sample));
            // The merged table keeps one slot per authority.
            assert forall|p: int, q: int|
                0 <= p < q < merged@.len() implies (#[trigger] merged@[p]).authority != (
            #[trigger] merged@[q]).authority by {
                if spec_table_has(self.rate_table@, sample.authority) {
                    assert(merged@[p] == if self.rate_table@[p].authority == sample.authority {
                        sample
                    } else {
                        self.rate_table@[p]
                    });
                    assert(merged@[q] == if self.rate_table@[q].authority == sample.authority {
                        sample
                    } else {
                        self.rate_table@[q]
                    });
                } else if q == merged@.len() - 1 && merged@.len() == self.rate_table@.len() + 1 {
                    assert(merged@[p] == self.rate_table@[p]);
                    assert(self.rate_table@[p].authority != sample.authority);
                }
            }
        }

        // Prune expired samples and feed the fresh ones, in table order,
        // through one median filter per asset.
        let ghost pred = |e: RateSample| spec_fresh(now, self.filter_expire, e);
        let mut kept: Vec<RateSample> = Vec::new();
        let mut btc_filter = filter_new(self.filter_width);
        let mut eth_filter = filter_new(self.filter_width);
        let mut btc_rate = self.dollar_rate.0;
        let mut eth_rate = self.dollar_rate.1;
        let mut j: usize = 0;
        proof {
            reveal(Seq::filter);
            assert(merged@.subrange(0, 0) =~= Seq::<RateSample>::empty());
        }
        while j < merged.len()
            invariant
                j <= merged@.len(),
                self.wf(),
                self.filter_width >= 1,
                filter_size(btc_filter) == self.filter_width,
                filter_size(eth_filter) == self.filter_width,
                kept@ == spec_kept(merged@.subrange(0, j as int), now, self.filter_expire),
                filter_window(btc_filter) == last_window(
                    spec_btc_values(kept@),
                    self.filter_width as nat,
                ),
                filter_window(eth_filter) == last_window(
                    spec_eth_values(kept@),
                    self.filter_width as nat,
                ),
                filter_window(btc_filter).len() <= self.filter_width,
                filter_window(eth_filter).len() <= self.filter_width,
                kept@.len() == 0 ==> btc_rate == self.dollar_rate.0 && eth_rate
                    == self.dollar_rate.1,
                kept@.len() > 0 ==> btc_rate == median_of(filter_window(btc_filter)) && eth_rate
                    == median_of(filter_window(eth_filter)),
            decreases merged@.len() - j,
        {
            let e = merged[j];
            let age = if now < e.timestamp {
                0
            } else {
                now - e.timestamp
            };
            proof {
                reveal(Seq::filter);
                let prefix = merged@.subrange(0, j as int);
                let ext = merged@.subrange(0, j as int + 1);
                assert(ext.drop_last() =~= prefix);
                assert(ext.last() == e);
            }
            if age < self.filter_expire {
                let ghost kept_pre = kept@;
                kept.push(e);
                proof {
                    assert(spec_btc_values(kept@) =~= spec_btc_values(kept_pre).push(e.btc));
                    assert(spec_eth_values(kept@) =~= spec_eth_values(kept_pre).push(e.eth));
                    lemma_last_window_push(
                        spec_btc_values(kept_pre),
                        self.filter_width as nat,
                        e.btc,
                    );
                    lemma_last_window_push(
                        spec_eth_values(kept_pre),
                        self.filter_width as nat,
                        e.eth,
                    );
                }
                btc_rate = filter_consume(&mut btc_filter, e.btc);
                eth_rate = filter_consume(&mut eth_filter, e.eth);
            }
            j = j + 1;
        }
        proof {
            assert(merged@.subrange(0, merged@.len() as int) =~= merged@);
            lemma_filter_distinct(merged@, pred);
        }
        self.rate_table = kept;
        self.dollar_rate = (btc_rate, eth_rate);
        self.events.push(Event::NewDollarRate(btc_rate, eth_rate));
        proof {
            assert(self@ =~= spec_set_dollar_rate(old(self)@, rate, now).0);
        }
        Ok(())
    }

    /// The claim stored under an id, if any.
    pub fn get_claim(&self, id: ClaimId) -> (r: Option<Claim>)
        requires
            self.wf(),
        ensures
            r == spec_lookup(self@.claims, id),
    {
        match self.find_claim(id) {
            Some(i) => Some(self.claims[i].1),
            None => None,
        }
    }

    /// Check the locking parameters of a claim against the fetched external
    /// transaction. The caller fetches the transaction referenced by the
    /// claim's hash and derives the expected artifacts (the redeem-script
    /// output for Bitcoin; the lock call data and the raw sender address for
    /// Ethereum) before calling; a fetch failure is the caller's error and
    /// never becomes a verdict.
    pub fn check_lock(
        &self,
        id: ClaimId,
        tx: &ChainTx,
        expected_script: &Vec<u8>,
        sender_address: &Vec<u8>,
    ) -> (r: Result<bool, LockdropError>)
        requires
            self.wf(),
        ensures
            match r {
                Ok(verdict) => spec_lookup(self@.claims, id) matches Some(c) && verdict
                    == spec_lock_verdict(
                    self@,
                    c.params,
                    *tx,
                    expected_script@,
                    sender_address@,
                ),
                Err(e) => e == LockdropError::UnknownClaim && spec_lookup(self@.claims, id)
                    is None,
            },
    {
        let c = match self.get_claim(id) {
            Some(c) => c,
            None => {
                return Err(LockdropError::UnknownClaim);
            },
        };
        match c.params {
            Lockdrop::Bitcoin { value, .. } => Ok(verify_bitcoin(tx, value, expected_script)),
            Lockdrop::Ethereum { value, .. } => Ok(
                verify_ethereum(tx, value, expected_script, &self.ethereum_contract, sender_address),
            ),
        }
    }

    /// Admission filter for the two unsigned submission kinds. `sig_ok` is
    /// the host key-crypto's answer to "does the submission's signature
    /// verify, over its canonical encoding, under the key at the claimed
    /// authority index"; the module states what is admitted for either
    /// answer. Admitted submissions carry maximum priority and are tagged by
    /// their canonical encoding for a bounded dedup window.
    pub fn validate_unsigned(&self, call: &Call, sig_ok: bool) -> (r: Result<
        ValidTransaction,
        InvalidTransaction,
    >)
        requires
            self.wf(),
        ensures
            match *call {
                Call::Vote(v) => {
                    if spec_lookup(self@.claims, v.claim_id) is None {
                        r == Err::<ValidTransaction, InvalidTransaction>(InvalidTransaction::Call)
                    } else if v.authority as int >= self@.keys.len() {
                        r == Err::<ValidTransaction, InvalidTransaction>(
                            InvalidTransaction::BadProof,
                        )
                    } else if !sig_ok {
                        r == Err::<ValidTransaction, InvalidTransaction>(
                            InvalidTransaction::BadProof,
                        )
                    } else if self@.has_vote.contains(
                        (self@.keys[v.authority as int], v.claim_id),
                    ) {
                        r == Err::<ValidTransaction, InvalidTransaction>(InvalidTransaction::Call)
                    } else {
                        r matches Ok(vt) && vt.priority == u64::MAX && vt.provides@
                            == spec_encode_vote(v) && vt.longevity == 64 && vt.propagate
                    }
                },
                Call::SetDollarRate(t) => {
                    if t.authority as int >= self@.keys.len() {
                        r == Err::<ValidTransaction, InvalidTransaction>(
                            InvalidTransaction::BadProof,
                        )
                    } else if !sig_ok {
                        r == Err::<ValidTransaction, InvalidTransaction>(
                            InvalidTransaction::BadProof,
                        )
                    } else {
                        r matches Ok(vt) && vt.priority == u64::MAX && vt.provides@
                            == spec_encode_rate(t) && vt.longevity == 64 && vt.propagate
                    }
                },
            },
    {
        match call {
            Call::Vote(v) => {
                if self.get_claim(v.claim_id).is_none() {
                    return Err(InvalidTransaction::Call);
                }
                if (v.authority as usize) >= self.keys.len() {
                    return Err(InvalidTransaction::BadProof);
                }
                if !sig_ok {
                    return Err(InvalidTransaction::BadProof);
                }
                let authority = self.keys[v.authority as usize];
                if self.has_voted(authority, v.claim_id) {
                    return Err(InvalidTransaction::Call);
                }
                Ok(
                    ValidTransaction {
                        priority: u64::MAX,
                        provides: encode_vote(v),
                        longevity: 64,
                        propagate: true,
                    },
                )
            },
            Call::SetDollarRate(t) => {
                if (t.authority as usize) >= self.keys.len() {
                    return Err(InvalidTransaction::BadProof);
                }
                if !sig_ok {
                    return Err(InvalidTransaction::BadProof);
                }
                Ok(
                    ValidTransaction {
                        priority: u64::MAX,
                        provides: encode_rate(t),
                        longevity: 64,
                        propagate: true,
                    },
                )
            },
        }
    }
}

/// The verdict the lock check reaches for a claim's parameters, given the
/// fetched transaction and the expected artifacts: Bitcoin wants more than
/// eight confirmations, the exact value and the expected script output;
/// Ethereum wants more than ten confirmations, the exact value, the expected
/// lock call data, the configured contract as recipient, and the expected
/// sender (hex-encoded).
pub open spec fn spec_lock_verdict(
    s: State,
    params: Lockdrop,
    tx: ChainTx,
    expected_script: Seq<u8>,
    sender_address: Seq<u8>,
) -> bool {
    match params {
        Lockdrop::Bitcoin { value, .. } => {
            tx.confirmations > 8 && tx.value == value && tx.script@ == expected_script
        },
        Lockdrop::Ethereum { value, .. } => {
            tx.confirmations > 10 && tx.value == value && tx.script@ == expected_script
                && tx.recipient@ == s.ethereum_contract && tx.sender@ == spec_hex_encode(
                sender_address,
            )
        },
    }
}

} // verus!
