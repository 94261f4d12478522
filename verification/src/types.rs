//! Data model: lockdrop parameters, claims, votes, price samples, events.

use vstd::prelude::*;

verus! {

/// Type for counting claim proof votes.
pub type AuthorityVote = u32;

/// Type for enumerating authorities in a list (2^16 authorities is enough).
pub type AuthorityIndex = u16;

/// Identity of an authority. The host's session machinery hands the module an
/// ordered list of these; the module never inspects them beyond equality.
pub type AuthorityId = u64;

/// Dollar rate number data type.
pub type DollarRate = u64;

/// Timestamp type, in seconds.
pub type Moment = u64;

/// Balance of the issued token.
pub type Balance = u128;

/// A 256-bit hash value, stored as four 64-bit words; `w0` holds the first
/// eight bytes of the digest in little-endian order, and so on.
#[derive(Clone, Copy, PartialEq, Eq, Structural, Hash, Debug)]
pub struct Hash256 {
    pub w0: u64,
    pub w1: u64,
    pub w2: u64,
    pub w3: u64,
}

/// Claim id is a hash of the claim parameters.
pub type ClaimId = Hash256;

/// A compressed ECDSA public key: the key that locked the external asset and
/// that the payout account is derived from.
#[derive(Clone, Copy, PartialEq, Eq, Debug)]
pub struct PublicKey {
    pub bytes: [u8; 33],
}

/// Lockdrop parameters: which chain, who locked, how much, and for how long.
/// Immutable once created.
#[derive(Clone, Copy, PartialEq, Eq, Debug)]
pub enum Lockdrop {
    /// A Bitcoin transaction sent with a time-locking opcode; the duration is
    /// given in blocks and the value in satoshi.
    Bitcoin { public: PublicKey, value: u128, duration: u64, transaction_hash: Hash256 },
    /// An Ethereum transaction sent to a pre-deployed lockdrop smart
    /// contract; the duration is given in seconds and the value in wei.
    Ethereum { public: PublicKey, value: u128, duration: u64, transaction_hash: Hash256 },
}

impl Lockdrop {
    /// The public key embedded in the parameters.
    pub open spec fn spec_public(self) -> PublicKey {
        match self {
            Lockdrop::Bitcoin { public, .. } => public,
            Lockdrop::Ethereum { public, .. } => public,
        }
    }

    /// The locked value.
    pub open spec fn spec_value(self) -> u128 {
        match self {
            Lockdrop::Bitcoin { value, .. } => value,
            Lockdrop::Ethereum { value, .. } => value,
        }
    }

    /// The lock duration.
    pub open spec fn spec_duration(self) -> u64 {
        match self {
            Lockdrop::Bitcoin { duration, .. } => duration,
            Lockdrop::Ethereum { duration, .. } => duration,
        }
    }

    /// The hash of the external locking transaction.
    pub open spec fn spec_transaction_hash(self) -> Hash256 {
        match self {
            Lockdrop::Bitcoin { transaction_hash, .. } => transaction_hash,
            Lockdrop::Ethereum { transaction_hash, .. } => transaction_hash,
        }
    }

    /// The embedded public key.
    pub fn public(&self) -> (r: PublicKey)
        ensures
            r == self.spec_public(),
    {
        match self {
            Lockdrop::Bitcoin { public, .. } => *public,
            Lockdrop::Ethereum { public, .. } => *public,
        }
    }
}

impl Default for Lockdrop {
    /// The all-zero Bitcoin lockdrop.
    fn default() -> (r: Self)
        ensures
            r is Bitcoin,
            r.spec_public().bytes@ == Seq::new(33, |i: int| 0u8),
            r.spec_value() == 0,
            r.spec_duration() == 0,
            r.spec_transaction_hash() == (Hash256 { w0: 0, w1: 0, w2: 0, w3: 0 }),
    {
        Lockdrop::Bitcoin {
            public: PublicKey { bytes: [0u8; 33] },
            value: 0,
            duration: 0,
            transaction_hash: Hash256 { w0: 0, w1: 0, w2: 0, w3: 0 },
        }
    }
}

/// A lockdrop claim: the requested parameters, the running vote tally, the
/// amount computed once at creation, and the one-way completion latch.
#[derive(Clone, Copy, PartialEq, Eq, Debug)]
pub struct Claim {
    pub params: Lockdrop,
    pub approve: AuthorityVote,
    pub decline: AuthorityVote,
    pub amount: u128,
    pub complete: bool,
}

/// A lockdrop claim vote, as submitted by an authority.
#[derive(Clone, Copy, PartialEq, Eq, Debug)]
pub struct ClaimVote {
    pub claim_id: ClaimId,
    pub approve: bool,
    pub authority: AuthorityIndex,
}

/// A dollar rate ticker, as submitted by an authority: BTC and ETH prices.
#[derive(Clone, Copy, PartialEq, Eq, Debug)]
pub struct TickerRate {
    pub authority: AuthorityIndex,
    pub btc: DollarRate,
    pub eth: DollarRate,
}

/// A stored price sample: one slot per authority, expired lazily.
#[derive(Clone, Copy, PartialEq, Eq, Debug)]
pub struct RateSample {
    pub authority: AuthorityId,
    pub timestamp: Moment,
    pub btc: DollarRate,
    pub eth: DollarRate,
}

/// Why an operation was rejected. Rejections leave the state unchanged.
#[derive(Clone, Copy, PartialEq, Eq, Structural, Debug)]
pub enum LockdropError {
    /// The claim is already paid out.
    AlreadyPaid,
    /// No claim with this id exists.
    UnknownClaim,
    /// The claim has not received enough authority votes.
    NotEnoughVotes,
    /// The claim was not approved by enough of a margin.
    NotApproved,
    /// The authority index does not resolve in the current authority set.
    UnknownAuthority,
    /// This authority has already voted on this claim.
    AlreadyVoted,
    /// A computation would exceed the width of its integer type.
    Overflow,
}

/// Why an unsigned submission was refused admission.
#[derive(Clone, Copy, PartialEq, Eq, Structural, Debug)]
pub enum InvalidTransaction {
    /// The call references state that does not admit it (unknown claim,
    /// replayed vote).
    Call,
    /// The sender could not be authenticated (unknown authority index or a
    /// signature that does not verify).
    BadProof,
}

/// The two unsigned submission kinds that the off-chain driver emits.
#[derive(Clone, Copy, PartialEq, Eq, Debug)]
pub enum Call {
    Vote(ClaimVote),
    SetDollarRate(TickerRate),
}

/// Admission verdict for a valid unsigned submission.
#[derive(Clone, PartialEq, Eq, Debug)]
pub struct ValidTransaction {
    /// Scheduling priority; the maximum, so submissions are not starved.
    pub priority: u64,
    /// Dedup tag: the canonical encoding of the submission.
    pub provides: Vec<u8>,
    /// For how many blocks the transaction stays valid.
    pub longevity: u64,
    /// Whether to propagate the transaction to other nodes.
    pub propagate: bool,
}

/// An external chain transaction, as fetched by a chain-oracle collaborator:
/// confirmation count, transferred value, output script (Bitcoin) or call
/// data (Ethereum), and hex-encoded sender and recipient (Ethereum).
#[derive(Clone, PartialEq, Eq, Debug)]
pub struct ChainTx {
    pub confirmations: u64,
    pub value: u128,
    pub script: Vec<u8>,
    pub sender: Vec<u8>,
    pub recipient: Vec<u8>,
}

/// Observable events, recorded in an append-only log.
#[derive(Clone, PartialEq, Eq, Debug)]
pub enum Event {
    /// Lockdrop token claim requested by a user.
    ClaimRequest(ClaimId),
    /// Lockdrop token claim response by an authority.
    ClaimResponse(ClaimId, AuthorityId, bool),
    /// Lockdrop token claim paid to the account derived from the key.
    ClaimComplete(ClaimId, PublicKey, Balance),
    /// Dollar rate updated by the oracle: BTC, ETH.
    NewDollarRate(DollarRate, DollarRate),
    /// New authority list registered.
    NewAuthorities(Vec<AuthorityId>),
}

} // verus!
