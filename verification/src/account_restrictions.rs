//! Client account restrictions: a blocked client may not withdraw rUSD to an
//! external address until an administrator lifts the block.
use crate::ledger::{position_index, RetailLedger};
use crate::recency::{newest_first, newest_first_order};
use crate::text::{byte_len, is_blank, str_byte_len, str_eq, str_is_blank, trim, trim_str};
use vstd::prelude::*;

verus! {

/// A restriction of one client's account.
#[derive(Debug, Clone, PartialEq, Eq)]
pub struct ClientAccountRestriction {
    pub client_id: String,
    pub reason: String,
    pub active: bool,
    pub updated_at_unix_ms: u64,
}

/// Answers whether a client's account is restricted.
pub trait AccountRestrictionReader {
    fn is_restricted(&self, client_id: &str) -> Result<bool, AccountRestrictionError>;
}

/// Failures of account restrictions.
#[derive(Debug)]
pub enum AccountRestrictionError {
    Invalid(String),
    Storage(String),
}

/// The text of a restriction failure.
pub open spec fn restriction_error_text(e: AccountRestrictionError) -> Seq<char> {
    match e {
        AccountRestrictionError::Invalid(m) => "nieprawidłowa blokada konta: "@ + m@,
        AccountRestrictionError::Storage(m) => "nie udało się zapisać blokady konta: "@ + m@,
    }
}

impl AccountRestrictionError {
    /// The failure as it is reported.
    pub fn message(&self) -> (r: String)
        ensures
            r@ == restriction_error_text(*self),
    {
        match self {
            AccountRestrictionError::Invalid(m) => String::from_str("nieprawidłowa blokada konta: ").concat(
                m.as_str(),
            ),
            AccountRestrictionError::Storage(m) => String::from_str(
                "nie udało się zapisać blokady konta: ",
            ).concat(m.as_str()),
        }
    }
}

/// A client identifier that a restriction may name: not blank, at most 128 bytes.
pub open spec fn valid_client_id(client: Seq<char>) -> bool {
    !is_blank(client) && byte_len(client) <= 128
}

/// A reason that a restriction accepts: 1 to 500 bytes once trimmed.
pub open spec fn valid_restriction_reason(reason: Seq<char>) -> bool {
    let t = trim(reason);
    t.len() > 0 && byte_len(t) <= 500
}

/// Why a client identifier is refused.
pub open spec fn client_id_refusal() -> Seq<char> {
    "identyfikator klienta jest nieprawidłowy"@
}

/// `r` refuses the request as invalid with the text `text`.
pub open spec fn invalid_as<T>(r: Result<T, AccountRestrictionError>, text: Seq<char>) -> bool {
    r matches Err(AccountRestrictionError::Invalid(t)) && t@ == text
}

/// Checks a client identifier.
pub fn validate_client(value: &str) -> (r: Result<(), AccountRestrictionError>)
    ensures
        r is Ok <==> valid_client_id(value@),
        r is Err ==> invalid_as(r, client_id_refusal()),
{
    if str_is_blank(value) || str_byte_len(value) > 128 {
        Err(AccountRestrictionError::Invalid(String::from_str("identyfikator klienta jest nieprawidłowy")))
    } else {
        Ok(())
    }
}

/// The restriction row of `client`, if any.
pub open spec fn restriction_index(rows: Seq<ClientAccountRestriction>, client: Seq<char>) -> Option<int> {
    if exists|i: int| 0 <= i < rows.len() && (#[trigger] rows[i]).client_id@ == client {
        Some(choose|i: int| 0 <= i < rows.len() && (#[trigger] rows[i]).client_id@ == client)
    } else {
        None
    }
}

/// The account of `client` is restricted now.
pub open spec fn restricted(rows: Seq<ClientAccountRestriction>, client: Seq<char>) -> bool {
    match restriction_index(rows, client) {
        Some(k) => rows[k].active,
        None => false,
    }
}

/// The number of active restrictions.
pub open spec fn active_count(rows: Seq<ClientAccountRestriction>) -> nat
    decreases rows.len(),
{
    if rows.len() == 0 {
        0
    } else {
        active_count(rows.drop_last()) + if rows.last().active {
            1nat
        } else {
            0nat
        }
    }
}

/// `r` shows row `row`.
pub open spec fn shows(r: ClientAccountRestriction, row: ClientAccountRestriction) -> bool {
    &&& r.client_id@ == row.client_id@
    &&& r.reason@ == row.reason@
    &&& r.active == row.active
    &&& r.updated_at_unix_ms == row.updated_at_unix_ms
}

/// `r` shows one of the active rows.
pub open spec fn is_active_row(r: ClientAccountRestriction, rows: Seq<ClientAccountRestriction>) -> bool {
    exists|j: int| 0 <= j < rows.len() && rows[j].active && shows(r, #[trigger] rows[j])
}

/// What blocking `client` for `reason` at `now` does; `known` tells whether
/// the register of positions knows the client.
pub open spec fn block_post(
    old: Seq<ClientAccountRestriction>,
    client: Seq<char>,
    reason: Seq<char>,
    known: bool,
    now: u64,
    new: Seq<ClientAccountRestriction>,
    r: Result<ClientAccountRestriction, AccountRestrictionError>,
) -> bool {
    if !valid_client_id(client) {
        invalid_as(r, client_id_refusal()) && new == old
    } else if !valid_restriction_reason(reason) {
        invalid_as(r, "uzasadnienie musi mieć od 1 do 500 znaków"@) && new == old
    } else if !known {
        invalid_as(r, "nieznany klient demonstracyjny"@) && new == old
    } else {
        &&& r matches Ok(x) && x.client_id@ == client && x.reason@ == trim(reason) && x.active
            && x.updated_at_unix_ms == now
        &&& match restriction_index(old, client) {
            Some(k) => new.len() == old.len() && (forall|i: int|
                0 <= i < old.len() && i != k ==> new[i] == old[i]) && shows(r->Ok_0, new[k]),
            None => new.len() == old.len() + 1 && new.drop_last() == old && shows(r->Ok_0, new.last()),
        }
    }
}

/// What lifting the block of `client` at `now` does.
pub open spec fn unblock_post(
    old: Seq<ClientAccountRestriction>,
    client: Seq<char>,
    now: u64,
    new: Seq<ClientAccountRestriction>,
    r: Result<bool, AccountRestrictionError>,
) -> bool {
    if !valid_client_id(client) {
        invalid_as(r, client_id_refusal()) && new == old
    } else {
        &&& r == Ok::<bool, AccountRestrictionError>(restricted(old, client))
        &&& if restricted(old, client) {
            let k = restriction_index(old, client)->Some_0;
            &&& new.len() == old.len()
            &&& forall|i: int| 0 <= i < old.len() && i != k ==> new[i] == old[i]
            &&& new[k].client_id == old[k].client_id
            &&& new[k].reason == old[k].reason
            &&& !new[k].active
            &&& new[k].updated_at_unix_ms == now
        } else {
            new == old
        }
    }
}

fn find_restriction(rows: &Vec<ClientAccountRestriction>, client: &str) -> (r: Option<usize>)
    ensures
        match r {
            Some(k) => k < rows@.len() && rows@[k as int].client_id@ == client@,
            None => forall|j: int| 0 <= j < rows@.len() ==> (#[trigger] rows@[j]).client_id@ != client@,
        },
{
    let mut k: usize = 0;
    while k < rows.len()
        invariant
            k <= rows@.len(),
            forall|j: int| 0 <= j < k ==> (#[trigger] rows@[j]).client_id@ != client@,
        decreases rows.len() - k,
    {
        if str_eq(rows[k].client_id.as_str(), client) {
            return Some(k);
        }
        k = k + 1;
    }
    None
}

/// With unique clients, the row found for a client is the one that names it.
pub proof fn lemma_restriction_index_at(rows: Seq<ClientAccountRestriction>, k: int)
    requires
        0 <= k < rows.len(),
        forall|i: int, j: int|
            0 <= i < j < rows.len() ==> (#[trigger] rows[i]).client_id@ != (#[trigger] rows[j]).client_id@,
    ensures
        restriction_index(rows, rows[k].client_id@) == Some(k),
{
    let key = rows[k].client_id@;
    let c = choose|i: int| 0 <= i < rows.len() && (#[trigger] rows[i]).client_id@ == key;
    assert(rows[k].client_id@ == key);
    if c < k {
        assert(rows[c].client_id@ != rows[k].client_id@);
    } else if c > k {
        assert(rows[k].client_id@ != rows[c].client_id@);
    }
}

fn copy_restriction(x: &ClientAccountRestriction) -> (r: ClientAccountRestriction)
    ensures
        shows(r, *x),
{
    ClientAccountRestriction {
        client_id: x.client_id.clone(),
        reason: x.reason.clone(),
        active: x.active,
        updated_at_unix_ms: x.updated_at_unix_ms,
    }
}

/// The register of account restrictions.
#[derive(Debug)]
pub struct AccountRestrictionRegister {
    rows: Vec<ClientAccountRestriction>,
}

impl AccountRestrictionRegister {
    /// The stored restrictions, active or lifted.
    pub closed spec fn rows(&self) -> Seq<ClientAccountRestriction> {
        self.rows@
    }

    /// Each client has at most one row.
    pub open spec fn wf(&self) -> bool {
        forall|i: int, j: int|
            0 <= i < j < self.rows().len() ==> (#[trigger] self.rows()[i]).client_id@
                != (#[trigger] self.rows()[j]).client_id@
    }

    /// No restriction yet.
    pub fn new() -> (r: AccountRestrictionRegister)
        ensures
            r.wf(),
            r.rows().len() == 0,
    {
        AccountRestrictionRegister { rows: Vec::new() }
    }

    /// Blocks the account of `client_id`, a client that `ledger` knows, for
    /// `reason`; blocking again replaces the reason.
    pub fn block(&mut self, ledger: &RetailLedger, client_id: &str, reason: &str, now: u64) -> (r: Result<
        ClientAccountRestriction,
        AccountRestrictionError,
    >)
        requires
            old(self).wf(),
            ledger.wf(),
        ensures
            final(self).wf(),
            block_post(
                old(self).rows(),
                client_id@,
                reason@,
                position_index(ledger.positions(), client_id@) is Some,
                now,
                final(self).rows(),
                r,
            ),
    {
        proof {
            assert(self.rows() == self.rows@);
        }
        validate_client(client_id)?;
        let reason = trim_str(reason);
        if reason.unicode_len() == 0 || str_byte_len(reason) > 500 {
            return Err(
                AccountRestrictionError::Invalid(String::from_str("uzasadnienie musi mieć od 1 do 500 znaków")),
            );
        }
        if !ledger.has_client(client_id) {
            return Err(AccountRestrictionError::Invalid(String::from_str("nieznany klient demonstracyjny")));
        }
        let ghost before = self.rows@;
        let row = ClientAccountRestriction {
            client_id: client_id.to_owned(),
            reason: reason.to_owned(),
            active: true,
            updated_at_unix_ms: now,
        };
        let result = copy_restriction(&row);
        match find_restriction(&self.rows, client_id) {
            Some(k) => {
                proof {
                    lemma_restriction_index_at(self.rows@, k as int);
                }
                self.rows.set(k, row);
                proof {
                    assert forall|i: int, j: int|
                        0 <= i < j < self.rows@.len() implies (#[trigger] self.rows@[i]).client_id@
                        != (#[trigger] self.rows@[j]).client_id@ by {
                        assert(before[i].client_id@ != before[j].client_id@);
                    }
                }
            },
            None => {
                self.rows.push(row);
                proof {
                    assert(self.rows@.drop_last() =~= before);
                    assert forall|i: int, j: int|
                        0 <= i < j < self.rows@.len() implies (#[trigger] self.rows@[i]).client_id@
                        != (#[trigger] self.rows@[j]).client_id@ by {
                        if j == self.rows@.len() - 1 {
                            assert(self.rows@[i] == before[i]);
                        } else {
                            assert(self.rows@[i] == before[i] && self.rows@[j] == before[j]);
                        }
                    }
                }
            },
        }
        Ok(result)
    }

    /// Lifts the block of `client_id`; tells whether there was one to lift.
    pub fn unblock(&mut self, client_id: &str, now: u64) -> (r: Result<bool, AccountRestrictionError>)
        requires
            old(self).wf(),
        ensures
            final(self).wf(),
            unblock_post(old(self).rows(), client_id@, now, final(self).rows(), r),
    {
        proof {
            assert(self.rows() == self.rows@);
        }
        validate_client(client_id)?;
        let ghost before = self.rows@;
        match find_restriction(&self.rows, client_id) {
            Some(k) => {
                proof {
                    lemma_restriction_index_at(self.rows@, k as int);
                }
                if !self.rows[k].active {
                    return Ok(false);
                }
                let row = ClientAccountRestriction {
                    client_id: self.rows[k].client_id.clone(),
                    reason: self.rows[k].reason.clone(),
                    active: false,
                    updated_at_unix_ms: now,
                };
                self.rows.set(k, row);
                proof {
                    assert forall|i: int, j: int|
                        0 <= i < j < self.rows@.len() implies (#[trigger] self.rows@[i]).client_id@
                        != (#[trigger] self.rows@[j]).client_id@ by {
                        assert(before[i].client_id@ != before[j].client_id@);
                    }
                }
                Ok(true)
            },
            None => Ok(false),
        }
    }

    /// The active restrictions, most recently changed first.
    pub fn list(&self) -> (r: Vec<ClientAccountRestriction>)
        requires
            self.wf(),
        ensures
            r@.len() == active_count(self.rows()),
            forall|i: int| 0 <= i < r@.len() ==> is_active_row(#[trigger] r@[i], self.rows()),
            forall|i: int, j: int|
                0 <= i < j < r@.len() ==> (#[trigger] r@[i]).updated_at_unix_ms >= (
                #[trigger] r@[j]).updated_at_unix_ms,
            forall|i: int, j: int|
                0 <= i < j < r@.len() ==> (#[trigger] r@[i]).client_id@ != (#[trigger] r@[j]).client_id@,
    {
        let mut picked: Vec<usize> = Vec::new();
        let mut times: Vec<u64> = Vec::new();
        let mut k: usize = 0;
        while k < self.rows.len()
            invariant
                k <= self.rows@.len(),
                picked@.len() == times@.len(),
                picked@.len() == active_count(self.rows@.take(k as int)),
                forall|x: int|
                    0 <= x < picked@.len() ==> (#[trigger] picked@[x]) < k && self.rows@[picked@[x] as int].active
                        && times@[x] == self.rows@[picked@[x] as int].updated_at_unix_ms,
                forall|x: int, y: int| 0 <= x < y < picked@.len() ==> (#[trigger] picked@[x]) < (#[trigger] picked@[y]),
            decreases self.rows.len() - k,
        {
            proof {
                assert(self.rows@.take(k + 1).drop_last() =~= self.rows@.take(k as int));
            }
            if self.rows[k].active {
                picked.push(k);
                times.push(self.rows[k].updated_at_unix_ms);
            }
            k = k + 1;
        }
        proof {
            assert(self.rows@.take(k as int) =~= self.rows@);
        }
        let order = newest_first(&times);
        let mut out: Vec<ClientAccountRestriction> = Vec::new();
        let mut i: usize = 0;
        while i < order.len()
            invariant
                i <= order@.len(),
                newest_first_order(times@, order@),
                picked@.len() == times@.len(),
                forall|x: int|
                    0 <= x < picked@.len() ==> (#[trigger] picked@[x]) < self.rows@.len() && self.rows@[picked@[x] as int].active
                        && times@[x] == self.rows@[picked@[x] as int].updated_at_unix_ms,
                out@.len() == i,
                forall|x: int|
                    0 <= x < i ==> shows(#[trigger] out@[x], self.rows@[picked@[order@[x] as int] as int]),
            decreases order.len() - i,
        {
            out.push(copy_restriction(&self.rows[picked[order[i]]]));
            i = i + 1;
        }
        proof {
            assert forall|x: int| 0 <= x < out@.len() implies is_active_row(#[trigger] out@[x], self.rows()) by {
                let j = picked@[order@[x] as int] as int;
                assert(shows(out@[x], self.rows()[j]));
            }
            assert forall|x: int, y: int|
                0 <= x < y < out@.len() implies (#[trigger] out@[x]).updated_at_unix_ms >= (
                #[trigger] out@[y]).updated_at_unix_ms by {
                assert(times@[order@[x] as int] >= times@[order@[y] as int]);
            }
            assert forall|x: int, y: int|
                0 <= x < y < out@.len() implies (#[trigger] out@[x]).client_id@ != (#[trigger] out@[y]).client_id@ by {
                let a = order@[x] as int;
                let b = order@[y] as int;
                assert(a != b);
                let pa = picked@[a] as int;
                let pb = picked@[b] as int;
                if a < b {
                    assert(pa < pb);
                    assert(self.rows()[pa].client_id@ != self.rows()[pb].client_id@);
                } else {
                    assert(pb < pa);
                    assert(self.rows()[pb].client_id@ != self.rows()[pa].client_id@);
                }
            }
        }
        out
    }

    /// Tells whether the account of `client_id` is restricted now.
    pub fn restricted_now(&self, client_id: &str) -> (r: bool)
        requires
            self.wf(),
        ensures
            r == restricted(self.rows(), client_id@),
    {
        proof {
            assert(self.rows() == self.rows@);
        }
        match find_restriction(&self.rows, client_id) {
            Some(k) => {
                proof {
                    lemma_restriction_index_at(self.rows@, k as int);
                }
                self.rows[k].active
            },
            None => false,
        }
    }
}

impl AccountRestrictionReader for AccountRestrictionRegister {
    /// Tells whether the account of `client_id` is restricted now: it has a
    /// restriction row that is active. It never fails.
    fn is_restricted(&self, client_id: &str) -> (r: Result<bool, AccountRestrictionError>)
        ensures
            r matches Ok(b) && (b ==> exists|k: int|
                0 <= k < self.rows().len() && (#[trigger] self.rows()[k]).client_id@ == client_id@
                    && self.rows()[k].active),
            restriction_index(self.rows(), client_id@) is None ==> r == Ok::<bool, AccountRestrictionError>(
                false,
            ),
            self.wf() ==> r == Ok::<bool, AccountRestrictionError>(restricted(self.rows(), client_id@)),
    {
        proof {
            assert(self.rows() == self.rows@);
        }
        match find_restriction(&self.rows, client_id) {
            Some(k) => Ok(self.rows[k].active),
            None => Ok(false),
        }
    }
}

/// A block is kept: once `client` is blocked, its account is restricted.
pub proof fn lemma_block_restricts(
    old: AccountRestrictionRegister,
    client: Seq<char>,
    reason: Seq<char>,
    known: bool,
    now: u64,
    new: AccountRestrictionRegister,
    x: ClientAccountRestriction,
)
    requires
        old.wf(),
        new.wf(),
        block_post(old.rows(), client, reason, known, now, new.rows(), Ok(x)),
    ensures
        restricted(new.rows(), client),
{
    match restriction_index(old.rows(), client) {
        Some(k) => {
            assert(new.rows()[k].client_id@ == client);
            lemma_restriction_index_at(new.rows(), k);
        },
        None => {
            let k = new.rows().len() - 1;
            assert(new.rows()[k].client_id@ == client);
            lemma_restriction_index_at(new.rows(), k);
        },
    }
}

/// Lifting a block restores access.
pub proof fn lemma_unblock_restores_access(
    old: AccountRestrictionRegister,
    client: Seq<char>,
    now: u64,
    new: AccountRestrictionRegister,
    r: Result<bool, AccountRestrictionError>,
)
    requires
        old.wf(),
        new.wf(),
        valid_client_id(client),
        unblock_post(old.rows(), client, now, new.rows(), r),
    ensures
        !restricted(new.rows(), client),
{
    if restricted(old.rows(), client) {
        let k = restriction_index(old.rows(), client)->Some_0;
        assert(new.rows()[k].client_id@ == client);
        lemma_restriction_index_at(new.rows(), k);
    } else {
        match restriction_index(old.rows(), client) {
            Some(k) => {},
            None => {},
        }
    }
}

} // verus!
