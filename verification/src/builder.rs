//! A builder for a configured engine, mirroring how a deployment loads its
//! configuration at genesis: alpha, the vote thresholds, the filter width
//! and expiry, the contract address and the end time.

use vstd::prelude::*;

use crate::issuance::Alpha;
use crate::module::LockdropModule;
use crate::types::{AuthorityVote, DollarRate, Moment};

verus! {

/// Collects the genesis configuration and builds the module.
pub struct ExtBuilder {
    pub alpha: Alpha,
    pub dollar_rate: (DollarRate, DollarRate),
    pub vote_threshold: AuthorityVote,
    pub positive_votes: AuthorityVote,
    pub ethereum_contract: Vec<u8>,
    pub lockdrop_end: Moment,
    pub filter_width: usize,
    pub filter_expire: Moment,
}

impl ExtBuilder {
    /// Whether the collected configuration is acceptable.
    pub open spec fn wf(&self) -> bool {
        self.alpha.wf() && self.filter_width >= 1
    }

    /// A neutral starting configuration: alpha one, no rate yet, one vote
    /// required with a margin of one, a filter three wide, samples valid for
    /// a day.
    pub fn new() -> (r: ExtBuilder)
        ensures
            r.wf(),
            r.alpha.parts == 1_000_000_000,
            r.dollar_rate == (0u64, 0u64),
            r.vote_threshold == 1,
            r.positive_votes == 1,
            r.ethereum_contract@ == Seq::<u8>::empty(),
            r.lockdrop_end == 0,
            r.filter_width == 3,
            r.filter_expire == 86400,
    {
        ExtBuilder {
            alpha: Alpha { parts: 1_000_000_000 },
            dollar_rate: (0, 0),
            vote_threshold: 1,
            positive_votes: 1,
            ethereum_contract: Vec::new(),
            lockdrop_end: 0,
            filter_width: 3,
            filter_expire: 86400,
        }
    }

    /// Use the given alpha ratio.
    pub fn alpha(self, alpha: Alpha) -> (r: ExtBuilder)
        requires
            alpha.wf(),
        ensures
            r == (ExtBuilder { alpha, ..self }),
            self.wf() ==> r.wf(),
    {
        ExtBuilder { alpha, ..self }
    }

    /// Use the given initial aggregate dollar rate.
    pub fn dollar_rate(self, dollar_rate: (DollarRate, DollarRate)) -> (r: ExtBuilder)
        ensures
            r == (ExtBuilder { dollar_rate, ..self }),
            self.wf() ==> r.wf(),
    {
        ExtBuilder { dollar_rate, ..self }
    }

    /// Use the given vote and positive-margin thresholds.
    pub fn thresholds(self, vote_threshold: AuthorityVote, positive_votes: AuthorityVote) -> (r:
        ExtBuilder)
        ensures
            r == (ExtBuilder { vote_threshold, positive_votes, ..self }),
            self.wf() ==> r.wf(),
    {
        ExtBuilder { vote_threshold, positive_votes, ..self }
    }

    /// Use the given median filter width and sample expiry.
    pub fn filter(self, filter_width: usize, filter_expire: Moment) -> (r: ExtBuilder)
        requires
            filter_width >= 1,
        ensures
            r == (ExtBuilder { filter_width, filter_expire, ..self }),
            self.wf() ==> r.wf(),
    {
        ExtBuilder { filter_width, filter_expire, ..self }
    }

    /// Use the given lockdrop contract address and end time.
    pub fn contract(self, ethereum_contract: Vec<u8>, lockdrop_end: Moment) -> (r: ExtBuilder)
        ensures
            r.alpha == self.alpha,
            r.dollar_rate == self.dollar_rate,
            r.vote_threshold == self.vote_threshold,
            r.positive_votes == self.positive_votes,
            r.ethereum_contract@ == ethereum_contract@,
            r.lockdrop_end == lockdrop_end,
            r.filter_width == self.filter_width,
            r.filter_expire == self.filter_expire,
            self.wf() ==> r.wf(),
    {
        ExtBuilder { ethereum_contract, lockdrop_end, ..self }
    }

    /// Build a fresh module with the collected configuration.
    pub fn build(self) -> (r: LockdropModule)
        requires
            self.wf(),
        ensures
            r.wf(),
            r@.alpha == self.alpha,
            r@.dollar_rate == self.dollar_rate,
            r@.vote_threshold == self.vote_threshold,
            r@.positive_votes == self.positive_votes,
            r@.ethereum_contract == self.ethereum_contract@,
            r@.lockdrop_end == self.lockdrop_end,
            r@.filter_width == self.filter_width,
            r@.filter_expire == self.filter_expire,
            r@.requests == Seq::<crate::types::ClaimId>::empty(),
            r@.keys == Seq::<crate::types::AuthorityId>::empty(),
            r@.claims == Seq::<(crate::types::ClaimId, crate::types::Claim)>::empty(),
            r@.has_vote == Seq::<(crate::types::AuthorityId, crate::types::ClaimId)>::empty(),
            r@.rate_table == Seq::<crate::types::RateSample>::empty(),
            r.events@ == Seq::<crate::types::Event>::empty(),
    {
        LockdropModule::new(
            self.alpha,
            self.dollar_rate,
            self.vote_threshold,
            self.positive_votes,
            self.ethereum_contract,
            self.lockdrop_end,
            self.filter_width,
            self.filter_expire,
        )
    }
}

} // verus!
