//! Validation rules for locked external-chain transactions.
//!
//! A chain-oracle collaborator fetches the transaction referenced by a
//! claim's hash and derives the expected artifacts from the claim's key and
//! duration (the time-locked redeem script for Bitcoin, the lock call data
//! and sender address for Ethereum); these functions hold the fetched data
//! against the claim and return the verdict. A fetch failure never reaches
//! them: it is propagated by the caller as an error, not a verdict.

use vstd::prelude::*;

use crate::hexutil::{hex_encode, spec_hex_encode};
use crate::types::ChainTx;

verus! {

/// Byte-string equality.
pub fn bytes_eq(a: &Vec<u8>, b: &Vec<u8>) -> (r: bool)
    ensures
        r == (a@ == b@),
{
    if a.len() != b.len() {
        assert(a@ != b@);
        return false;
    }
    let mut i: usize = 0;
    while i < a.len()
        invariant
            i <= a.len(),
            a.len() == b.len(),
            forall|j: int| 0 <= j < i ==> a@[j] == b@[j],
        decreases a.len() - i,
    {
        if a[i] != b[i] {
            return false;
        }
        i = i + 1;
    }
    proof {
        assert(a@ =~= b@);
    }
    true
}

/// A Bitcoin lock matches when the transaction is confirmed more than eight
/// times, carries exactly the locked value, and pays to the expected
/// pay-to-script-hash output built from the time-locked redeem script.
pub fn verify_bitcoin(tx: &ChainTx, value: u128, expected_script: &Vec<u8>) -> (r: bool)
    ensures
        r == (tx.confirmations > 8 && tx.value == value && tx.script@ == expected_script@),
{
    tx.confirmations > 8 && tx.value == value && bytes_eq(&tx.script, expected_script)
}

/// An Ethereum lock matches when the transaction is confirmed more than ten
/// times, carries exactly the locked value, calls the expected lock method
/// for the duration, is addressed to the configured lockdrop contract, and
/// was sent from the address derived from the embedded public key (the
/// fetched sender is hex-encoded; the expected address is raw bytes).
pub fn verify_ethereum(
    tx: &ChainTx,
    value: u128,
    expected_call: &Vec<u8>,
    contract: &Vec<u8>,
    sender_address: &Vec<u8>,
) -> (r: bool)
    ensures
        r == (tx.confirmations > 10 && tx.value == value && tx.script@ == expected_call@
            && tx.recipient@ == contract@ && tx.sender@ == spec_hex_encode(sender_address@)),
{
    let sender_hex = hex_encode(sender_address);
    tx.confirmations > 10 && tx.value == value && bytes_eq(&tx.script, expected_call) && bytes_eq(
        &tx.recipient,
        contract,
    ) && bytes_eq(&tx.sender, &sender_hex)
}

} // verus!
