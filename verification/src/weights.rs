//! Dispatch weights of the module's operations: the fixed costs the host
//! scheduler accounts a block for when it executes them.

use vstd::prelude::*;

verus! {

/// Weight of cleaning the request list on block initialisation.
pub const ON_INITIALIZE_WEIGHT: u64 = 50_000;

/// Weight of a user-dispatched operation (request, claim).
pub const USER_DISPATCH_WEIGHT: u64 = 1_000_000;

/// Weight of an authority-submitted operation (vote, rate).
pub const AUTHORITY_DISPATCH_WEIGHT: u64 = 10_000;

/// Weight functions needed for the module's dispatchable operations.
pub trait WeightInfo {
    fn request() -> u64;

    fn claim() -> u64;

    fn vote() -> u64;

    fn set_dollar_rate() -> u64;
}

/// The weights used on a standard node.
pub struct SubstrateWeight;

impl WeightInfo for SubstrateWeight {
    /// Weight of requesting a claim.
    fn request() -> (w: u64)
        ensures
            w == USER_DISPATCH_WEIGHT,
    {
        USER_DISPATCH_WEIGHT
    }

    /// Weight of claiming a payout.
    fn claim() -> (w: u64)
        ensures
            w == USER_DISPATCH_WEIGHT,
    {
        USER_DISPATCH_WEIGHT
    }

    /// Weight of recording an authority vote.
    fn vote() -> (w: u64)
        ensures
            w == AUTHORITY_DISPATCH_WEIGHT,
    {
        AUTHORITY_DISPATCH_WEIGHT
    }

    /// Weight of submitting a dollar rate.
    fn set_dollar_rate() -> (w: u64)
        ensures
            w == AUTHORITY_DISPATCH_WEIGHT,
    {
        AUTHORITY_DISPATCH_WEIGHT
    }
}

} // verus!
