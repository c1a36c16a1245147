//! Records of the custody bootstrap and the observed wallet balances.
use vstd::prelude::*;

pub mod retail;

verus! {

/// Progress of the one-off purchase that seeds the custody pool.
#[derive(Debug, Clone, Copy, PartialEq, Eq, Structural)]
pub enum BootstrapStatus {
    Created,
    IssuerOrderCreated,
    FiatSent,
    TokensIssued,
    Distributed,
    Failed,
}

/// The persisted bootstrap purchase, with its targets and evidence.
#[derive(Debug, Clone, PartialEq, Eq)]
pub struct BootstrapOperation {
    pub operation_id: String,
    pub status: BootstrapStatus,
    pub amount_usd_minor: String,
    pub token_amount_raw: String,
    pub corporate_address: String,
    pub hot_address: String,
    pub cold_address: String,
    pub hot_target_raw: String,
    pub cold_target_raw: String,
    pub issuer_transaction_hash: Option<String>,
    pub cold_transaction_hash: Option<String>,
    pub hot_transaction_hash: Option<String>,
    pub last_error: Option<String>,
    pub created_at_unix_ms: u64,
    pub updated_at_unix_ms: u64,
}

/// On-chain token balances of the three CASP wallets, in raw token units,
/// with the block they were read at.
#[derive(Debug, Clone, PartialEq, Eq)]
pub struct WalletBalances {
    pub corporate_raw: String,
    pub hot_raw: String,
    pub cold_raw: String,
    pub evidence_block: Option<u64>,
}

} // verus!
