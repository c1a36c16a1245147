//! The retail ledger's records, under their older module path.
pub use crate::domain::retail::{ClientAccount, RetailOrder, ServiceRecord};
