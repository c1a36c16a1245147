//! Client purchases, sales, redemptions and transfers: the checks each
//! request passes before it reaches the ledger, and what follows the issuer's
//! answer to a redemption.
use crate::domain::retail::RetailOrder;
use crate::ledger::{
    complete_redemption_post, fail_redemption_post, wallet_owner, RetailLedger,
};
use crate::statements::{demo_client, is_demo_client};
use crate::text::{byte_len, is_blank, str_byte_len, str_eq, str_is_blank};
use vstd::prelude::*;

verus! {

/// Raw token units in one USD cent.
pub const TOKEN_UNITS_PER_CENT: u64 = 10_000;

/// A transfer between two clients as it is handed to the ledger.
pub struct TransferPosting<'a> {
    pub id: &'a str,
    pub sender: &'a str,
    pub recipient: &'a str,
    pub gross_raw: u64,
    pub purpose: &'a str,
    pub contract: &'a str,
    pub chain: u64,
}

/// What the issuer reports once it has settled a redemption.
#[derive(Debug, Clone)]
pub struct IssuerRedemption {
    pub transaction_hash: Option<String>,
}

/// Failures of retail operations.
#[derive(Debug)]
pub enum RetailError {
    Invalid(String),
    IdempotencyConflict,
    InsufficientInventory,
    InsufficientBalance,
    Storage(String),
    Issuer(String),
    Reconciliation(String),
}

/// The text of a retail failure.
pub open spec fn retail_error_text(e: RetailError) -> Seq<char> {
    match e {
        RetailError::Invalid(m) => "invalid retail request: "@ + m@,
        RetailError::IdempotencyConflict => "operation ID was already used for different parameters"@,
        RetailError::InsufficientInventory => "insufficient CASP inventory"@,
        RetailError::InsufficientBalance => "insufficient client balance"@,
        RetailError::Storage(m) => "retail persistence failed: "@ + m@,
        RetailError::Issuer(m) => "issuer redemption failed: "@ + m@,
        RetailError::Reconciliation(m) => "CASP custody reconciliation failed: "@ + m@,
    }
}

impl RetailError {
    /// The failure as it is reported.
    pub fn message(&self) -> (r: String)
        ensures
            r@ == retail_error_text(*self),
    {
        match self {
            RetailError::Invalid(m) => String::from_str("invalid retail request: ").concat(m.as_str()),
            RetailError::IdempotencyConflict => String::from_str("operation ID was already used for different parameters"),
            RetailError::InsufficientInventory => String::from_str("insufficient CASP inventory"),
            RetailError::InsufficientBalance => String::from_str("insufficient client balance"),
            RetailError::Storage(m) => String::from_str("retail persistence failed: ").concat(m.as_str()),
            RetailError::Issuer(m) => String::from_str("issuer redemption failed: ").concat(m.as_str()),
            RetailError::Reconciliation(m) => String::from_str("CASP custody reconciliation failed: ").concat(m.as_str()),
        }
    }
}

/// An operation ID: not blank and at most 128 bytes.
pub open spec fn valid_operation_id(id: Seq<char>) -> bool {
    !is_blank(id) && byte_len(id) <= 128
}

/// Why an operation ID is refused.
pub open spec fn operation_id_refusal() -> Seq<char> {
    "operationId must contain 1-128 characters"@
}

/// Why a client is refused.
pub open spec fn client_refusal() -> Seq<char> {
    "unknown demo client"@
}

/// Why a token amount is refused.
pub open spec fn token_amount_refusal() -> Seq<char> {
    "tokenAmountRaw must be positive and represent whole USD cents"@
}

/// A refusal of a request as invalid, with the text `why`.
pub open spec fn refused(r: Result<(), RetailError>, why: Option<Seq<char>>) -> bool {
    match why {
        None => r is Ok,
        Some(m) => r matches Err(RetailError::Invalid(t)) && t@ == m,
    }
}

/// Checks an operation ID.
pub fn validate_id(id: &str) -> (r: Result<(), RetailError>)
    ensures
        refused(r, if valid_operation_id(id@) { None } else { Some(operation_id_refusal()) }),
{
    if str_is_blank(id) || str_byte_len(id) > 128 {
        Err(RetailError::Invalid(String::from_str("operationId must contain 1-128 characters")))
    } else {
        Ok(())
    }
}

/// Checks that `client` is one of the demonstration clients.
pub fn validate_client(client: &str) -> (r: Result<(), RetailError>)
    ensures
        refused(r, if is_demo_client(client@) { None } else { Some(client_refusal()) }),
{
    if demo_client(client) {
        Ok(())
    } else {
        Err(RetailError::Invalid(String::from_str("unknown demo client")))
    }
}

/// A positive token amount of whole USD cents.
pub open spec fn whole_cents(amount_raw: u64) -> bool {
    amount_raw != 0 && amount_raw % TOKEN_UNITS_PER_CENT == 0
}

/// The first check that a purchase request fails, if any.
pub open spec fn purchase_refusal(client: Seq<char>, id: Seq<char>, amount_minor: u64) -> Option<Seq<char>> {
    if !is_demo_client(client) {
        Some(client_refusal())
    } else if !valid_operation_id(id) {
        Some(operation_id_refusal())
    } else if amount_minor == 0 {
        Some("amountUsdMinor must be positive"@)
    } else {
        None
    }
}

/// The checks of a purchase request: known client, valid ID, positive amount.
pub fn check_purchase(client: &str, id: &str, amount_minor: u64) -> (r: Result<(), RetailError>)
    ensures
        refused(r, purchase_refusal(client@, id@, amount_minor)),
{
    validate_client(client)?;
    validate_id(id)?;
    if amount_minor == 0 {
        return Err(RetailError::Invalid(String::from_str("amountUsdMinor must be positive")));
    }
    Ok(())
}

/// The first check that a sale or redemption request fails, if any.
pub open spec fn token_request_refusal(client: Seq<char>, id: Seq<char>, amount_raw: u64) -> Option<Seq<char>> {
    if !is_demo_client(client) {
        Some(client_refusal())
    } else if !valid_operation_id(id) {
        Some(operation_id_refusal())
    } else if !whole_cents(amount_raw) {
        Some(token_amount_refusal())
    } else {
        None
    }
}

/// The checks of a sale or redemption request: known client, valid ID and a
/// positive amount of whole cents.
pub fn check_token_amount(client: &str, id: &str, amount_raw: u64) -> (r: Result<(), RetailError>)
    ensures
        refused(r, token_request_refusal(client@, id@, amount_raw)),
{
    validate_client(client)?;
    validate_id(id)?;
    if amount_raw == 0 || amount_raw % TOKEN_UNITS_PER_CENT != 0 {
        return Err(
            RetailError::Invalid(
                String::from_str("tokenAmountRaw must be positive and represent whole USD cents"),
            ),
        );
    }
    Ok(())
}

/// The recipient of a transfer: the client that owns the wallet address, when
/// the register knows it, else the text itself, which must name a client.
pub fn resolve_recipient(recipient: &str, owner: Option<String>) -> (r: Result<String, RetailError>)
    ensures
        match owner {
            Some(c) => r == Ok::<String, RetailError>(c),
            None => if is_demo_client(recipient@) {
                r matches Ok(c) && c@ == recipient@
            } else {
                r matches Err(RetailError::Invalid(m)) && m@ == client_refusal()
            },
        },
{
    match owner {
        Some(client_id) => Ok(client_id),
        None => {
            validate_client(recipient)?;
            Ok(recipient.to_owned())
        },
    }
}

/// A transfer purpose that the register accepts.
pub open spec fn valid_purpose(purpose: Seq<char>) -> bool {
    purpose == "private_transfer"@ || purpose == "goods_or_services"@
}

/// The first check that a transfer with a resolved recipient fails, if any.
pub open spec fn transfer_refusal(
    sender: Seq<char>,
    recipient: Seq<char>,
    id: Seq<char>,
    gross_raw: u64,
    purpose: Seq<char>,
) -> Option<Seq<char>> {
    if !is_demo_client(sender) {
        Some(client_refusal())
    } else if !valid_operation_id(id) {
        Some(operation_id_refusal())
    } else if sender == recipient {
        Some("sender and recipient must be different clients"@)
    } else if !whole_cents(gross_raw) {
        Some(token_amount_refusal())
    } else if !valid_purpose(purpose) {
        Some("purposeClassification must be private_transfer or goods_or_services"@)
    } else {
        None
    }
}

/// The checks of a transfer once the recipient is resolved: valid ID,
/// different clients, whole cents and an accepted purpose.
pub fn check_transfer(sender: &str, recipient: &str, id: &str, gross_raw: u64, purpose: &str) -> (r:
    Result<(), RetailError>)
    ensures
        refused(r, transfer_refusal(sender@, recipient@, id@, gross_raw, purpose@)),
{
    validate_client(sender)?;
    validate_id(id)?;
    if str_eq(sender, recipient) {
        return Err(RetailError::Invalid(String::from_str("sender and recipient must be different clients")));
    }
    if gross_raw == 0 || gross_raw % TOKEN_UNITS_PER_CENT != 0 {
        return Err(
            RetailError::Invalid(
                String::from_str("tokenAmountRaw must be positive and represent whole USD cents"),
            ),
        );
    }
    if !str_eq(purpose, "private_transfer") && !str_eq(purpose, "goods_or_services") {
        return Err(
            RetailError::Invalid(
                String::from_str("purposeClassification must be private_transfer or goods_or_services"),
            ),
        );
    }
    Ok(())
}

/// The first check that an amendment fails, if any.
pub open spec fn amendment_refusal(original: Seq<char>, amendment_type: Seq<char>, reason: Seq<char>) -> Option<
    Seq<char>,
> {
    if !valid_operation_id(original) {
        Some(operation_id_refusal())
    } else if !(amendment_type == "correction"@ || amendment_type == "reversal"@) || is_blank(reason) {
        Some("amendmentType must be correction or reversal and reason is required"@)
    } else {
        None
    }
}

/// The checks of an amendment: a valid record ID, a correction or reversal,
/// and a reason that is not blank.
pub fn check_amendment(original: &str, amendment_type: &str, reason: &str) -> (r: Result<(), RetailError>)
    ensures
        refused(r, amendment_refusal(original@, amendment_type@, reason@)),
{
    validate_id(original)?;
    if !(str_eq(amendment_type, "correction") || str_eq(amendment_type, "reversal")) || str_is_blank(reason) {
        return Err(
            RetailError::Invalid(
                String::from_str("amendmentType must be correction or reversal and reason is required"),
            ),
        );
    }
    Ok(())
}

/// What a redemption does after the ledger has locked the amount.
pub enum RedemptionNext {
    /// The redemption was already completed; hand back the stored order.
    AlreadyCompleted,
    /// Ask the issuer to redeem under this operation ID.
    AskIssuer(String),
}

/// Decides, from the order the ledger returned, whether the issuer must still
/// be asked, and under which issuer operation ID.
pub fn redemption_next(order: &RetailOrder) -> (r: Result<RedemptionNext, RetailError>)
    ensures
        order.status@ == "completed"@ ==> r matches Ok(RedemptionNext::AlreadyCompleted),
        order.status@ != "completed"@ ==> match order.issuer_operation_id {
            Some(i) => r matches Ok(RedemptionNext::AskIssuer(x)) && x@ == i@,
            None => r matches Err(RetailError::Storage(m)) && m@ == "issuer operation ID missing"@,
        },
{
    if str_eq(order.status.as_str(), "completed") {
        return Ok(RedemptionNext::AlreadyCompleted);
    }
    match &order.issuer_operation_id {
        Some(id) => Ok(RedemptionNext::AskIssuer(id.as_str().to_owned())),
        None => Err(RetailError::Storage(String::from_str("issuer operation ID missing"))),
    }
}

/// The client a transfer goes to: the first client whose wallet has the
/// address `recipient`, or else `recipient` itself.
pub open spec fn recipient_of(ledger: RetailLedger, recipient: Seq<char>) -> Seq<char> {
    match wallet_owner(ledger.positions(), recipient) {
        Some(k) => ledger.positions()[k].client_id@,
        None => recipient,
    }
}

/// The first check that a transfer request fails, if any: the sender, then
/// the recipient, then the rest once the recipient is resolved.
pub open spec fn transfer_request_refusal(
    ledger: RetailLedger,
    sender: Seq<char>,
    recipient: Seq<char>,
    id: Seq<char>,
    gross_raw: u64,
    purpose: Seq<char>,
) -> Option<Seq<char>> {
    if !is_demo_client(sender) {
        Some(client_refusal())
    } else if wallet_owner(ledger.positions(), recipient) is None && !is_demo_client(recipient) {
        Some(client_refusal())
    } else {
        transfer_refusal(sender, recipient_of(ledger, recipient), id, gross_raw, purpose)
    }
}

/// Checks a transfer request and finds the client it goes to: the sender is
/// a demonstration client, the recipient is a wallet the register knows or
/// else a demonstration client, the operation ID is valid, the two clients
/// differ, the amount is a positive number of whole cents and the purpose is
/// accepted. Refusals come in that order.
pub fn transfer_recipient(
    ledger: &RetailLedger,
    sender: &str,
    recipient: &str,
    id: &str,
    gross_raw: u64,
    purpose: &str,
) -> (r: Result<String, RetailError>)
    requires
        ledger.wf(),
    ensures
        match transfer_request_refusal(*ledger, sender@, recipient@, id@, gross_raw, purpose@) {
            None => r matches Ok(c) && c@ == recipient_of(*ledger, recipient@),
            Some(m) => r matches Err(RetailError::Invalid(t)) && t@ == m,
        },
{
    validate_client(sender)?;
    let recipient_id = resolve_recipient(recipient, ledger.client_id_by_wallet(recipient))?;
    check_transfer(sender, recipient_id.as_str(), id, gross_raw, purpose)?;
    Ok(recipient_id)
}

/// What recording the issuer's answer `issued` for redemption `id` does: a
/// settlement completes the redemption with its transaction; a failure marks
/// it for a retry and is handed on.
pub open spec fn settle_redemption_post(
    old: RetailLedger,
    id: Seq<char>,
    issued: Result<IssuerRedemption, RetailError>,
    now: u64,
    new: RetailLedger,
    r: Result<RetailOrder, RetailError>,
) -> bool {
    match issued {
        Ok(v) => complete_redemption_post(old, id, v.transaction_hash, now, new, r),
        Err(e) => fail_redemption_post(old, id, retail_error_text(e), now, new) && r == Err::<
            RetailOrder,
            RetailError,
        >(e),
    }
}

/// Records the issuer's answer to redemption `id` in the register.
pub fn settle_redemption(
    ledger: &mut RetailLedger,
    id: &str,
    issued: Result<IssuerRedemption, RetailError>,
    now: u64,
) -> (r: Result<RetailOrder, RetailError>)
    requires
        old(ledger).wf(),
    ensures
        final(ledger).wf(),
        settle_redemption_post(*old(ledger), id@, issued, now, *final(ledger), r),
{
    match issued {
        Ok(v) => ledger.complete_redemption(id, v.transaction_hash, now),
        Err(e) => {
            let message = e.message();
            ledger.fail_redemption(id, message.as_str(), now);
            Err(e)
        },
    }
}

} // verus!
