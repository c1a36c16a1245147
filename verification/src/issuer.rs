//! What the CASP makes of the issuer's answers.
use crate::application::BootstrapError;
use crate::ledger::opt_text;
use crate::text::str_eq;
use vstd::prelude::*;

verus! {

/// The body of an error answer of the issuer, as far as it could be read.
#[derive(Debug, Clone)]
pub struct IssuerErrorResponse {
    pub code: Option<String>,
    pub error: Option<String>,
    pub user_message: Option<String>,
}

/// The failure that an issuer error answer with HTTP status `status` (as
/// `"409 Conflict"`) and body `body` stands for: a blocked issuance, or the
/// issuer's message for people, its technical message, or the status.
pub open spec fn issuer_failure(status: Seq<char>, body: Option<IssuerErrorResponse>) -> Option<Seq<char>> {
    match body {
        Some(b) => if opt_text(b.code) == Some("issuance_blocked"@) {
            None
        } else {
            match (b.user_message, b.error) {
                (Some(m), _) => Some(m@),
                (None, Some(e)) => Some(e@),
                (None, None) => Some("emitent zwrócił HTTP "@ + status),
            }
        },
        None => Some("emitent zwrócił HTTP "@ + status),
    }
}

/// Maps an issuer error answer to a bootstrap failure: `None` of
/// `issuer_failure` is a blocked issuance, any other an issuer failure with
/// that text.
pub fn issuer_error(status: &str, body: Option<IssuerErrorResponse>) -> (r: BootstrapError)
    ensures
        match issuer_failure(status@, body) {
            None => r matches BootstrapError::IssuanceBlocked,
            Some(m) => r matches BootstrapError::Issuer(x) && x@ == m,
        },
{
    match body {
        Some(b) => {
            let blocked = match &b.code {
                Some(c) => str_eq(c.as_str(), "issuance_blocked"),
                None => false,
            };
            if blocked {
                return BootstrapError::IssuanceBlocked;
            }
            match (b.user_message, b.error) {
                (Some(m), _) => BootstrapError::Issuer(m),
                (None, Some(e)) => BootstrapError::Issuer(e),
                (None, None) => BootstrapError::Issuer(String::from_str("emitent zwrócił HTTP ").concat(status)),
            }
        },
        None => BootstrapError::Issuer(String::from_str("emitent zwrócił HTTP ").concat(status)),
    }
}

} // verus!
