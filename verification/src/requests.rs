//! Request bodies and query strings of the API, with the checks each one
//! must pass before it reaches a service.
use crate::text::{byte_len, has_prefix, str_byte_len, str_starts_with};
use crate::validators::{
    date_check, first_failure, iso_date, outcome_is, positive, positive_check, required,
    required_check,
};
use vstd::prelude::*;

verus! {

/// A client's purchase of rUSD for USD cents.
pub struct PurchaseRequest {
    pub operation_id: String,
    pub amount_usd_minor: u64,
}

impl PurchaseRequest {
    pub open spec fn spec_check(&self) -> Option<Seq<char>> {
        first_failure(
            required_check(self.operation_id@, "operationId"@),
            positive_check(self.amount_usd_minor, "amountUsdMinor"@),
        )
    }

    pub fn validate(&self) -> (r: Result<(), String>)
        ensures
            outcome_is(r, self.spec_check()),
    {
        required(self.operation_id.as_str(), "operationId")?;
        positive(self.amount_usd_minor, "amountUsdMinor")
    }
}

/// A sale or redemption of a token amount.
pub struct TokenAmountRequest {
    pub operation_id: String,
    pub token_amount_raw: u64,
}

impl TokenAmountRequest {
    pub open spec fn spec_check(&self) -> Option<Seq<char>> {
        first_failure(
            required_check(self.operation_id@, "operationId"@),
            positive_check(self.token_amount_raw, "tokenAmountRaw"@),
        )
    }

    pub fn validate(&self) -> (r: Result<(), String>)
        ensures
            outcome_is(r, self.spec_check()),
    {
        required(self.operation_id.as_str(), "operationId")?;
        positive(self.token_amount_raw, "tokenAmountRaw")
    }
}

/// A transfer to another client.
pub struct TransferRequest {
    pub operation_id: String,
    pub recipient_client_id: String,
    pub token_amount_raw: u64,
    pub purpose_classification: String,
}

impl TransferRequest {
    pub open spec fn spec_check(&self) -> Option<Seq<char>> {
        first_failure(
            required_check(self.operation_id@, "operationId"@),
            first_failure(
                required_check(self.recipient_client_id@, "recipientClientId"@),
                first_failure(
                    required_check(self.purpose_classification@, "purposeClassification"@),
                    positive_check(self.token_amount_raw, "tokenAmountRaw"@),
                ),
            ),
        )
    }

    pub fn validate(&self) -> (r: Result<(), String>)
        ensures
            outcome_is(r, self.spec_check()),
    {
        required(self.operation_id.as_str(), "operationId")?;
        required(self.recipient_client_id.as_str(), "recipientClientId")?;
        required(self.purpose_classification.as_str(), "purposeClassification")?;
        positive(self.token_amount_raw, "tokenAmountRaw")
    }
}

/// A withdrawal to an outside Ethereum address.
pub struct ExternalWithdrawalRequest {
    pub operation_id: String,
    pub destination_address: String,
    pub token_amount_raw: u64,
}

/// `0x` followed by 40 more bytes: the shape of an Ethereum address.
pub open spec fn address_shaped(s: Seq<char>) -> bool {
    has_prefix(s, "0x"@) && byte_len(s) == 42
}

impl ExternalWithdrawalRequest {
    pub open spec fn spec_check(&self) -> Option<Seq<char>> {
        first_failure(
            required_check(self.operation_id@, "operationId"@),
            first_failure(
                required_check(self.destination_address@, "destinationAddress"@),
                if !address_shaped(self.destination_address@) {
                    Some("destinationAddress musi być adresem Ethereum"@)
                } else {
                    positive_check(self.token_amount_raw, "tokenAmountRaw"@)
                },
            ),
        )
    }

    pub fn validate(&self) -> (r: Result<(), String>)
        ensures
            outcome_is(r, self.spec_check()),
    {
        required(self.operation_id.as_str(), "operationId")?;
        required(self.destination_address.as_str(), "destinationAddress")?;
        if !(str_starts_with(self.destination_address.as_str(), "0x") && str_byte_len(
            self.destination_address.as_str(),
        ) == 42) {
            return Err(String::from_str("destinationAddress musi być adresem Ethereum"));
        }
        positive(self.token_amount_raw, "tokenAmountRaw")
    }
}

/// An address to put on (or take off) the blacklist, with the reason.
pub struct BlacklistRequest {
    pub address: String,
    pub reason: String,
}

impl BlacklistRequest {
    pub open spec fn spec_check(&self) -> Option<Seq<char>> {
        first_failure(
            required_check(self.address@, "address"@),
            required_check(self.reason@, "reason"@),
        )
    }

    pub fn validate(&self) -> (r: Result<(), String>)
        ensures
            outcome_is(r, self.spec_check()),
    {
        required(self.address.as_str(), "address")?;
        required(self.reason.as_str(), "reason")
    }
}

/// A client account to block, with the reason.
pub struct AccountRestrictionRequest {
    pub client_id: String,
    pub reason: String,
}

impl AccountRestrictionRequest {
    pub open spec fn spec_check(&self) -> Option<Seq<char>> {
        first_failure(
            required_check(self.client_id@, "clientId"@),
            required_check(self.reason@, "reason"@),
        )
    }

    pub fn validate(&self) -> (r: Result<(), String>)
        ensures
            outcome_is(r, self.spec_check()),
    {
        required(self.client_id.as_str(), "clientId")?;
        required(self.reason.as_str(), "reason")
    }
}

/// A sweep of pending fees to the corporate wallet.
pub struct FeeSweepRequest {
    pub operation_id: String,
}

impl FeeSweepRequest {
    pub open spec fn spec_check(&self) -> Option<Seq<char>> {
        required_check(self.operation_id@, "operationId"@)
    }

    pub fn validate(&self) -> (r: Result<(), String>)
        ensures
            outcome_is(r, self.spec_check()),
    {
        required(self.operation_id.as_str(), "operationId")
    }
}

/// A purchase of inventory from the issuer.
pub struct ReplenishmentRequest {
    pub operation_id: String,
    pub amount_usd_minor: u64,
}

impl ReplenishmentRequest {
    pub open spec fn spec_check(&self) -> Option<Seq<char>> {
        first_failure(
            required_check(self.operation_id@, "operationId"@),
            positive_check(self.amount_usd_minor, "amountUsdMinor"@),
        )
    }

    pub fn validate(&self) -> (r: Result<(), String>)
        ensures
            outcome_is(r, self.spec_check()),
    {
        required(self.operation_id.as_str(), "operationId")?;
        positive(self.amount_usd_minor, "amountUsdMinor")
    }
}

/// A new exchange rate in USD cents per rUSD.
pub struct ExchangeRateRequest {
    pub usd_minor_per_rusd: u64,
}

impl ExchangeRateRequest {
    pub open spec fn spec_check(&self) -> Option<Seq<char>> {
        positive_check(self.usd_minor_per_rusd, "usdMinorPerRusd"@)
    }

    pub fn validate(&self) -> (r: Result<(), String>)
        ensures
            outcome_is(r, self.spec_check()),
    {
        positive(self.usd_minor_per_rusd, "usdMinorPerRusd")
    }
}

/// An amendment of a service record.
pub struct AmendmentRequest {
    pub original_record_id: String,
    pub amendment_type: String,
    pub reason: String,
}

impl AmendmentRequest {
    pub open spec fn spec_check(&self) -> Option<Seq<char>> {
        first_failure(
            required_check(self.original_record_id@, "originalRecordId"@),
            first_failure(
                required_check(self.amendment_type@, "amendmentType"@),
                required_check(self.reason@, "reason"@),
            ),
        )
    }

    pub fn validate(&self) -> (r: Result<(), String>)
        ensures
            outcome_is(r, self.spec_check()),
    {
        required(self.original_record_id.as_str(), "originalRecordId")?;
        required(self.amendment_type.as_str(), "amendmentType")?;
        required(self.reason.as_str(), "reason")
    }
}

/// The date range of a client statement.
pub struct StatementQuery {
    pub from: String,
    pub to: String,
}

impl StatementQuery {
    pub open spec fn spec_check(&self) -> Option<Seq<char>> {
        first_failure(date_check(self.from@, "from"@), date_check(self.to@, "to"@))
    }

    pub fn validate(&self) -> (r: Result<(), String>)
        ensures
            outcome_is(r, self.spec_check()),
    {
        iso_date(self.from.as_str(), "from")?;
        iso_date(self.to.as_str(), "to")
    }
}

/// The date range of a daily report.
pub struct DailyReportQuery {
    pub from: String,
    pub to: String,
}

impl DailyReportQuery {
    pub open spec fn spec_check(&self) -> Option<Seq<char>> {
        first_failure(date_check(self.from@, "from"@), date_check(self.to@, "to"@))
    }

    pub fn validate(&self) -> (r: Result<(), String>)
        ensures
            outcome_is(r, self.spec_check()),
    {
        iso_date(self.from.as_str(), "from")?;
        iso_date(self.to.as_str(), "to")
    }
}

} // verus!
