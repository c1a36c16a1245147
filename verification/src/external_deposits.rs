//! Deposits of rUSD from outside addresses: each deposit names a client by
//! the hash of its logical wallet reference, and the observer credits it once.
use crate::chain::{bytes_eq, keccak256_digest, keccak_digest};
use vstd::prelude::*;

verus! {

/// A deposit event read from the chain.
#[derive(Debug, Clone)]
pub struct ExternalDepositEvent {
    pub transaction_hash: String,
    pub log_index: u64,
    pub block_number: u64,
    /// The sender's address in its checksummed form.
    pub sender: String,
    /// The 32-byte client reference the deposit carries.
    pub client_reference: Vec<u8>,
    pub amount_raw: u64,
}

/// Failures of deposit observation.
#[derive(Debug)]
pub enum ExternalDepositError {
    Rpc(String),
    Storage(String),
    AmountOverflow,
    Reconciliation(String),
}

/// The text of a deposit failure.
pub open spec fn deposit_error_text(e: ExternalDepositError) -> Seq<char> {
    match e {
        ExternalDepositError::Rpc(m) => "deposit chain read failed: "@ + m@,
        ExternalDepositError::Storage(m) => "external deposit storage failed: "@ + m@,
        ExternalDepositError::AmountOverflow => "external deposit amount exceeds demo numeric range"@,
        ExternalDepositError::Reconciliation(m) => "custody reconciliation after deposit failed: "@ + m@,
    }
}

impl ExternalDepositError {
    /// The failure as it is reported.
    pub fn message(&self) -> (r: String)
        ensures
            r@ == deposit_error_text(*self),
    {
        match self {
            ExternalDepositError::Rpc(m) => String::from_str("deposit chain read failed: ").concat(m.as_str()),
            ExternalDepositError::Storage(m) => String::from_str("external deposit storage failed: ").concat(
                m.as_str(),
            ),
            ExternalDepositError::AmountOverflow => String::from_str(
                "external deposit amount exceeds demo numeric range",
            ),
            ExternalDepositError::Reconciliation(m) => String::from_str(
                "custody reconciliation after deposit failed: ",
            ).concat(m.as_str()),
        }
    }
}

/// The client whose logical wallet reference `rusd:casp:<client>` hashes to
/// `reference`, among the demonstration clients.
pub open spec fn reference_client(reference: Seq<u8>) -> Option<Seq<char>> {
    if reference == keccak256_digest(vstd::utf8::encode_utf8("rusd:casp:alice"@)) {
        Some("alice"@)
    } else if reference == keccak256_digest(vstd::utf8::encode_utf8("rusd:casp:bob"@)) {
        Some("bob"@)
    } else if reference == keccak256_digest(vstd::utf8::encode_utf8("rusd:casp:carol"@)) {
        Some("carol"@)
    } else {
        None
    }
}

/// The client a deposit's reference names, if any.
pub fn client_for_reference(reference: &[u8]) -> (r: Option<&'static str>)
    ensures
        match reference_client(reference@) {
            Some(c) => r matches Some(x) && x@ == c,
            None => r is None,
        },
{
    let alice = keccak_digest("rusd:casp:alice".as_bytes());
    if bytes_eq(alice.as_slice(), reference) {
        return Some("alice");
    }
    let bob = keccak_digest("rusd:casp:bob".as_bytes());
    if bytes_eq(bob.as_slice(), reference) {
        return Some("bob");
    }
    let carol = keccak_digest("rusd:casp:carol".as_bytes());
    if bytes_eq(carol.as_slice(), reference) {
        return Some("carol");
    }
    None
}

/// Which blocks one poll reads.
#[derive(Debug, Clone, Copy, PartialEq, Eq)]
pub struct DepositWindow {
    /// The stored checkpoint lies past the chain's confirmed height: the
    /// chain was started afresh and reading begins at the first block.
    pub reset: bool,
    /// The first and last block to read, when there is anything to read.
    pub scan: Option<(u64, u64)>,
}

/// The first block one poll reads after `checkpoint` when the chain has
/// confirmed `confirmed`.
pub open spec fn first_unread(checkpoint: u64, confirmed: u64) -> int {
    if checkpoint > confirmed {
        1
    } else if checkpoint == u64::MAX {
        u64::MAX as int
    } else {
        checkpoint + 1
    }
}

/// The blocks to read after `checkpoint` up to the chain's confirmed height.
pub fn deposit_window(checkpoint: u64, confirmed: u64) -> (w: DepositWindow)
    ensures
        w.reset == (checkpoint > confirmed),
        first_unread(checkpoint, confirmed) > confirmed ==> w.scan is None,
        first_unread(checkpoint, confirmed) <= confirmed ==> w.scan == Some(
            (first_unread(checkpoint, confirmed) as u64, confirmed),
        ),
{
    let reset = checkpoint > confirmed;
    let from = if reset {
        1
    } else {
        checkpoint.saturating_add(1)
    };
    if from > confirmed {
        DepositWindow { reset, scan: None }
    } else {
        DepositWindow { reset, scan: Some((from, confirmed)) }
    }
}

} // verus!
