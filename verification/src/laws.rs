//! The properties the engine guarantees, stated and proved over the
//! transition functions of [`crate::module`].

use vstd::prelude::*;

use crate::hashing::spec_claim_id;
use crate::module::{
    lemma_filter_distinct, lemma_lookup_push, lemma_touch_claim, spec_claim, spec_fresh,
    spec_inc_vote, spec_kept, spec_lookup, spec_new_claim_amount, spec_request, spec_sat_sub_u32,
    spec_set_complete, spec_set_dollar_rate, spec_table_has, spec_upsert, spec_vote, touch_claim,
    State,
};
use crate::types::{
    AuthorityId, Claim, ClaimId, ClaimVote, Lockdrop, LockdropError, Moment, PublicKey,
    RateSample, TickerRate,
};

verus! {

/// Determinism: the claim id is a pure function of the parameters, so
/// identical parameters always yield the identical id. (That *differing*
/// parameters yield differing ids rests on the hash: the encodings are
/// proved distinct in [`crate::codec::lemma_encode_lockdrop_separates`].)
pub proof fn lemma_claim_id_deterministic(p1: Lockdrop, p2: Lockdrop)
    requires
        p1 == p2,
    ensures
        spec_claim_id(p1) == spec_claim_id(p2),
{
}

/// Idempotent request: a second request with identical parameters, made
/// before the claim completes, leaves the claims exactly as the first
/// left them — one claim, its amount unchanged from the first computation —
/// and reports the same id.
pub proof fn lemma_request_idempotent(s: State, params: Lockdrop)
    requires
        s.wf(),
        spec_request(s, params).1 is Ok,
    ensures
        spec_request(spec_request(s, params).0, params).1 == spec_request(s, params).1,
        spec_request(spec_request(s, params).0, params).0.claims == spec_request(s, params).0.claims,
{
    let id = spec_claim_id(params);
    let s1 = spec_request(s, params).0;
    match spec_lookup(s.claims, id) {
        Some(c) => {
            assert(!c.complete);
            assert(s1.claims == s.claims);
        },
        None => {
            match spec_new_claim_amount(s, params) {
                Some(amount) => {
                    let fresh_claim = Claim {
                        params,
                        approve: 0,
                        decline: 0,
                        amount,
                        complete: false,
                    };
                    lemma_lookup_push(s.claims, id, fresh_claim);
                    assert(spec_lookup(s1.claims, id) == Some(fresh_claim));
                },
                None => {
                    assert(false);
                },
            }
        },
    }
}

/// Exactly-once payout: once `claim` succeeds, a second `claim` on the same
/// id always fails with "already paid" and changes nothing, so no second
/// credit ever leaves the module.
pub proof fn lemma_claim_exactly_once(s: State, id: ClaimId)
    requires
        s.wf(),
        spec_claim(s, id).1 is Ok,
    ensures
        spec_claim(spec_claim(s, id).0, id).1 == Err::<(PublicKey, u128), LockdropError>(
            LockdropError::AlreadyPaid,
        ),
        spec_claim(spec_claim(s, id).0, id).0 == spec_claim(s, id).0,
{
    let s1 = spec_claim(s, id).0;
    let f = |c2: Claim| spec_set_complete(c2);
    lemma_touch_claim(s.claims, id, f);
    assert(s1.claims =~= touch_claim(s.claims, id, f));
    match spec_lookup(s.claims, id) {
        Some(c) => {
            assert(spec_lookup(s1.claims, id) == Some(spec_set_complete(c)));
        },
        None => {
            assert(false);
        },
    }
}

/// Vote dedup: once a vote by some authority index on some claim is
/// accepted, any further vote by the same index on the same claim — however
/// often submitted, approving or declining — is rejected as already voted
/// and changes nothing. A pair can move the tallies at most once.
pub proof fn lemma_vote_dedup(s: State, v1: ClaimVote, v2: ClaimVote)
    requires
        s.wf(),
        spec_vote(s, v1).1 is Ok,
        v2.claim_id == v1.claim_id,
        v2.authority == v1.authority,
    ensures
        spec_vote(spec_vote(s, v1).0, v2).1 == Err::<(), LockdropError>(
            LockdropError::AlreadyVoted,
        ),
        spec_vote(spec_vote(s, v1).0, v2).0 == spec_vote(s, v1).0,
{
    let s1 = spec_vote(s, v1).0;
    let a = s.keys[v1.authority as int];
    let f = |c2: Claim| spec_inc_vote(v1.approve, c2);
    lemma_touch_claim(s.claims, v1.claim_id, f);
    assert(s1.claims =~= touch_claim(s.claims, v1.claim_id, f));
    match spec_lookup(s.claims, v1.claim_id) {
        Some(c) => {
            assert(spec_lookup(s1.claims, v1.claim_id) == Some(spec_inc_vote(v1.approve, c)));
            assert(s1.has_vote.last() == (a, v1.claim_id));
            assert(s1.has_vote.contains((a, v1.claim_id)));
        },
        None => {
            assert(false);
        },
    }
}

/// Threshold gate: for an existing, unpaid claim, `claim` succeeds exactly
/// when the total number of votes has reached the vote threshold and the
/// approve margin (saturating at zero) has reached the positive-vote
/// threshold; otherwise it fails.
pub proof fn lemma_threshold_gate(s: State, id: ClaimId)
    requires
        s.wf(),
        spec_lookup(s.claims, id) is Some,
        !(spec_lookup(s.claims, id) matches Some(c) && c.complete),
    ensures
        match spec_lookup(s.claims, id) {
            Some(c) => spec_claim(s, id).1 is Ok <==> (c.approve + c.decline >= s.vote_threshold
                && spec_sat_sub_u32(c.approve, c.decline) >= s.positive_votes),
            None => false,
        },
{
}

/// One slot per authority: a successful rate submission leaves at most one
/// sample per authority in the table, and — as long as samples do not expire
/// instantly — the submitter's slot holds exactly the values and timestamp
/// just submitted. A second submission by the same authority therefore
/// supersedes the first: only the latest sample feeds the median.
pub proof fn lemma_rate_single_slot(s: State, rate: TickerRate, now: Moment)
    requires
        s.wf(),
        spec_set_dollar_rate(s, rate, now).1 is Ok,
        s.filter_expire >= 1,
    ensures
        forall|p: int, q: int|
            0 <= p < q < spec_set_dollar_rate(s, rate, now).0.rate_table.len() ==> (
            #[trigger] spec_set_dollar_rate(s, rate, now).0.rate_table[p]).authority != (
            #[trigger] spec_set_dollar_rate(s, rate, now).0.rate_table[q]).authority,
        spec_set_dollar_rate(s, rate, now).0.rate_table.contains(
            RateSample {
                authority: s.keys[rate.authority as int],
                timestamp: now,
                btc: rate.btc,
                eth: rate.eth,
            },
        ),
        forall|k: int|
            0 <= k < spec_set_dollar_rate(s, rate, now).0.rate_table.len() && (
            #[trigger] spec_set_dollar_rate(s, rate, now).0.rate_table[k]).authority == s.keys[
                rate.authority as int
            ] ==> spec_set_dollar_rate(s, rate, now).0.rate_table[k] == (RateSample {
                authority: s.keys[rate.authority as int],
                timestamp: now,
                btc: rate.btc,
                eth: rate.eth,
            }),
{
    let a = s.keys[rate.authority as int];
    let sample = RateSample { authority: a, timestamp: now, btc: rate.btc, eth: rate.eth };
    let merged = spec_upsert(s.rate_table, sample);
    let pred = |e: RateSample| spec_fresh(now, s.filter_expire, e);
    let kept = spec_kept(merged, now, s.filter_expire);
    assert(spec_set_dollar_rate(s, rate, now).0.rate_table == kept);

    // The merged table keeps one slot per authority, and every slot of the
    // submitter's authority holds the new sample.
    assert forall|p: int, q: int|
        0 <= p < q < merged.len() implies (#[trigger] merged[p]).authority != (
    #[trigger] merged[q]).authority by {
        if spec_table_has(s.rate_table, a) {
            assert(merged[p] == if s.rate_table[p].authority == a {
                sample
            } else {
                s.rate_table[p]
            });
            assert(merged[q] == if s.rate_table[q].authority == a {
                sample
            } else {
                s.rate_table[q]
            });
        } else if q == merged.len() - 1 && merged.len() == s.rate_table.len() + 1 {
            assert(merged[p] == s.rate_table[p]);
            assert(s.rate_table[p].authority != a);
        }
    }
    assert forall|k: int|
        0 <= k < merged.len() && (#[trigger] merged[k]).authority == a implies merged[k]
        == sample by {
        if spec_table_has(s.rate_table, a) {
            assert(merged[k] == if s.rate_table[k].authority == a {
                sample
            } else {
                s.rate_table[k]
            });
        } else {
            if k < s.rate_table.len() {
                assert(merged[k] == s.rate_table[k]);
                assert(s.rate_table[k].authority != a);
            }
        }
    }
    lemma_filter_distinct(merged, pred);

    // The new sample has age zero, so pruning keeps it.
    let at = if spec_table_has(s.rate_table, a) {
        choose|w: int| 0 <= w < s.rate_table.len() && (#[trigger] s.rate_table[w]).authority == a
    } else {
        merged.len() - 1
    };
    assert(merged[at] == sample);
    assert(pred(sample));
    merged.lemma_filter_contains(pred, at);

    // Every kept slot of the submitter's authority is the new sample.
    assert forall|k: int|
        0 <= k < kept.len() && (#[trigger] kept[k]).authority == a implies kept[k] == sample by {
        assert(kept.contains(kept[k]));
        merged.lemma_filter_contains_rev(pred, kept[k]);
        let w = choose|w: int| 0 <= w < merged.len() && merged[w] == kept[k];
        assert(merged[w].authority == a);
    }
}

/// Expiry: a successful rate submission leaves no expired sample in the
/// table — every remaining sample is younger than the expiry at `now`.
pub proof fn lemma_rate_expiry(s: State, rate: TickerRate, now: Moment)
    requires
        s.wf(),
        spec_set_dollar_rate(s, rate, now).1 is Ok,
    ensures
        forall|k: int|
            0 <= k < spec_set_dollar_rate(s, rate, now).0.rate_table.len() ==> spec_fresh(
                now,
                s.filter_expire,
                #[trigger] spec_set_dollar_rate(s, rate, now).0.rate_table[k],
            ),
{
    let a = s.keys[rate.authority as int];
    let sample = RateSample { authority: a, timestamp: now, btc: rate.btc, eth: rate.eth };
    let merged = spec_upsert(s.rate_table, sample);
    let pred = |e: RateSample| spec_fresh(now, s.filter_expire, e);
    let kept = spec_kept(merged, now, s.filter_expire);
    assert forall|k: int| 0 <= k < kept.len() implies spec_fresh(
        now,
        s.filter_expire,
        #[trigger] kept[k],
    ) by {
        merged.lemma_filter_pred(pred, k);
    }
}

/// A (authority, claim) pair that is already marked never moves a tally:
/// whatever such a vote submission claims, the transition rejects it and the
/// state stands.
pub proof fn lemma_marked_pair_never_tallies(s: State, v: ClaimVote)
    requires
        s.wf(),
        (v.authority as int) < s.keys.len(),
        s.has_vote.contains((s.keys[v.authority as int], v.claim_id)),
    ensures
        spec_vote(s, v).0 == s,
        spec_vote(s, v).1 is Err,
{
}

/// The double-vote registry only grows: no transition unmarks a pair, so
/// with [`lemma_marked_pair_never_tallies`] a pair moves the tallies at most
/// once over any run of operations.
pub proof fn lemma_vote_registry_monotone(
    s: State,
    params: Lockdrop,
    id: ClaimId,
    v: ClaimVote,
    rate: TickerRate,
    now: Moment,
)
    requires
        s.wf(),
    ensures
        spec_request(s, params).0.has_vote == s.has_vote,
        spec_claim(s, id).0.has_vote == s.has_vote,
        spec_set_dollar_rate(s, rate, now).0.has_vote == s.has_vote,
        forall|p: (AuthorityId, ClaimId)|
            s.has_vote.contains(p) ==> spec_vote(s, v).0.has_vote.contains(p),
{
    assert forall|p: (AuthorityId, ClaimId)|
        s.has_vote.contains(p) implies spec_vote(s, v).0.has_vote.contains(p) by {
        let w = choose|w: int| 0 <= w < s.has_vote.len() && s.has_vote[w] == p;
        assert(spec_vote(s, v).0.has_vote[w] == p);
    }
}

/// How one stored claim may relate to what a transition leaves of it: it
/// never disappears, its parameters and its amount never change after
/// creation, and `complete` moves from false to true only.
pub open spec fn spec_preserves_claim(before: Option<Claim>, after: Option<Claim>) -> bool {
    match before {
        Some(c) => after matches Some(c2) && c2.params == c.params && c2.amount == c.amount && (
        c.complete ==> c2.complete),
        None => true,
    }
}

/// Every transition preserves every stored claim's parameters and amount
/// and only ever latches `complete`.
pub proof fn lemma_claims_immutable(
    s: State,
    params: Lockdrop,
    id: ClaimId,
    v: ClaimVote,
    rate: TickerRate,
    now: Moment,
    id2: ClaimId,
)
    requires
        s.wf(),
    ensures
        spec_preserves_claim(
            spec_lookup(s.claims, id2),
            spec_lookup(spec_request(s, params).0.claims, id2),
        ),
        spec_preserves_claim(
            spec_lookup(s.claims, id2),
            spec_lookup(spec_claim(s, id).0.claims, id2),
        ),
        spec_preserves_claim(
            spec_lookup(s.claims, id2),
            spec_lookup(spec_vote(s, v).0.claims, id2),
        ),
        spec_preserves_claim(
            spec_lookup(s.claims, id2),
            spec_lookup(spec_set_dollar_rate(s, rate, now).0.claims, id2),
        ),
{
    let new_id = spec_claim_id(params);
    if spec_lookup(s.claims, new_id) is None && spec_new_claim_amount(s, params) is Some {
        let fresh_claim = Claim {
            params,
            approve: 0,
            decline: 0,
            amount: spec_new_claim_amount(s, params)->Some_0,
            complete: false,
        };
        lemma_lookup_push(s.claims, new_id, fresh_claim);
    }
    lemma_touch_claim(s.claims, id, |c2: Claim| spec_set_complete(c2));
    if (v.authority as int) < s.keys.len() {
        lemma_touch_claim(s.claims, v.claim_id, |c2: Claim| spec_inc_vote(v.approve, c2));
    }
}

} // verus!
