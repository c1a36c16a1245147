//! Verified core of the CASP rUSD back office: the register of client
//! entitlements and its books, amounts and fees, inventory policy, custody
//! reconciliation, reporting and statements.

pub mod account_restrictions;
pub mod application;
pub mod blacklist;
pub mod calendar;
pub mod chain;
mod clock;
pub mod config;
pub mod decimal;
pub mod demo_history;
pub mod domain;
pub mod external_deposits;
pub mod external_withdrawals;
pub mod fee_sweep;
pub mod inventory;
pub mod issuer;
pub mod journal_laws;
pub mod ledger;
pub mod ledger_laws;
pub mod public_info;
pub mod recency;
pub mod reconciliation;
pub mod registers;
pub mod reporting;
pub mod requests;
pub mod retail;
pub mod retail_application;
pub mod statements;
pub mod text;
pub mod validators;
