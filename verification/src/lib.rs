//! A multi-authority oracle-consensus and claim-settlement engine.
//!
//! A fixed set of authorities independently observe external facts (a locked
//! Bitcoin or Ethereum transaction, a dollar price) and vote; once enough
//! corroborating votes accumulate, a claim is paid out exactly once.
//!
//! The heart of the crate is [`module::LockdropModule`]: claim lifecycle
//! (request, vote tally, payout), double-vote prevention, an expiring median
//! filter over per-authority price samples, and the deterministic issuance
//! formula. Chain access, key custody and the balance ledger are external
//! collaborators: they hand plain values in and take plain values out.

pub mod types;
pub mod codec;
pub mod hashing;
pub mod hexutil;
pub mod issuance;
pub mod filter;
pub mod chainverifier;
pub mod module;
pub mod laws;
pub mod weights;
pub mod builder;
