//! The address blacklist: addresses that external withdrawals may neither
//! come from nor go to. Addresses match without regard to surrounding white
//! space or ASCII case.
use crate::recency::newest_first;
use crate::text::{ascii_lowercase, byte_len, str_byte_len, str_eq, to_ascii_lowercase, trim, trim_str};
use vstd::prelude::*;

verus! {

/// A blacklisted address as the administration lists it.
#[derive(Debug, Clone, PartialEq, Eq)]
pub struct BlacklistEntry {
    pub address: String,
    pub reason: String,
    pub created_at_unix_ms: u64,
}

/// Answers whether an address is blacklisted.
pub trait AddressBlacklist {
    fn is_blocked(&self, address: &str) -> Result<bool, BlacklistError>;
}

/// Failures of the blacklist.
#[derive(Debug)]
pub enum BlacklistError {
    Invalid(String),
    Storage(String),
}

/// The text of a blacklist failure.
pub open spec fn blacklist_error_text(e: BlacklistError) -> Seq<char> {
    match e {
        BlacklistError::Invalid(m) => "invalid blacklist entry: "@ + m@,
        BlacklistError::Storage(m) => "blacklist persistence failed: "@ + m@,
    }
}

impl BlacklistError {
    /// The failure as it is reported.
    pub fn message(&self) -> (r: String)
        ensures
            r@ == blacklist_error_text(*self),
    {
        match self {
            BlacklistError::Invalid(m) => String::from_str("invalid blacklist entry: ").concat(m.as_str()),
            BlacklistError::Storage(m) => String::from_str("blacklist persistence failed: ").concat(
                m.as_str(),
            ),
        }
    }
}

/// Why an address is refused.
pub open spec fn address_refusal() -> Seq<char> {
    "address must contain 1-256 characters"@
}

/// `r` refuses the request as invalid with the text `text`.
pub open spec fn invalid_as<T>(r: Result<T, BlacklistError>, text: Seq<char>) -> bool {
    r matches Err(BlacklistError::Invalid(t)) && t@ == text
}

/// The key under which `address` is matched: trimmed and ASCII-lowercased,
/// when the trimmed address has 1 to 256 bytes.
pub open spec fn normalized(address: Seq<char>) -> Option<Seq<char>> {
    let t = trim(address);
    if t.len() == 0 || byte_len(t) > 256 {
        None
    } else {
        Some(ascii_lowercase(t))
    }
}

/// A reason that the blacklist accepts: 1 to 500 bytes once trimmed.
pub open spec fn valid_reason(reason: Seq<char>) -> bool {
    let t = trim(reason);
    t.len() > 0 && byte_len(t) <= 500
}

/// The matching key of an address, or why the address cannot be one.
pub fn normalize(address: &str) -> (r: Result<String, BlacklistError>)
    ensures
        match normalized(address@) {
            Some(n) => r matches Ok(s) && s@ == n,
            None => invalid_as(r, address_refusal()),
        },
{
    let value = trim_str(address);
    if value.unicode_len() == 0 || str_byte_len(value) > 256 {
        Err(BlacklistError::Invalid(String::from_str("address must contain 1-256 characters")))
    } else {
        Ok(to_ascii_lowercase(value))
    }
}

/// One stored blacklist row: the matching key and the entry as it was given.
#[derive(Debug)]
pub struct BlacklistRow {
    pub normalized_address: String,
    pub entry: BlacklistEntry,
}

/// The blacklist.
#[derive(Debug)]
pub struct AddressBlacklistRegister {
    rows: Vec<BlacklistRow>,
}

/// The row of `rows` stored under `key`, if any.
pub open spec fn row_index(rows: Seq<BlacklistRow>, key: Seq<char>) -> Option<int> {
    if exists|i: int| 0 <= i < rows.len() && (#[trigger] rows[i]).normalized_address@ == key {
        Some(choose|i: int| 0 <= i < rows.len() && (#[trigger] rows[i]).normalized_address@ == key)
    } else {
        None
    }
}

/// `e` is the entry of row `row`.
pub open spec fn entry_of(e: BlacklistEntry, row: BlacklistRow) -> bool {
    &&& e.address@ == row.entry.address@
    &&& e.reason@ == row.entry.reason@
    &&& e.created_at_unix_ms == row.entry.created_at_unix_ms
}

fn find_row(rows: &Vec<BlacklistRow>, key: &str) -> (r: Option<usize>)
    ensures
        match r {
            Some(k) => k < rows@.len() && rows@[k as int].normalized_address@ == key@,
            None => forall|j: int| 0 <= j < rows@.len() ==> (#[trigger] rows@[j]).normalized_address@ != key@,
        },
{
    let mut k: usize = 0;
    while k < rows.len()
        invariant
            k <= rows@.len(),
            forall|j: int| 0 <= j < k ==> (#[trigger] rows@[j]).normalized_address@ != key@,
        decreases rows.len() - k,
    {
        if str_eq(rows[k].normalized_address.as_str(), key) {
            return Some(k);
        }
        k = k + 1;
    }
    None
}

/// With unique keys, the row found for a key is the one stored under it.
pub proof fn lemma_row_index_at(rows: Seq<BlacklistRow>, k: int)
    requires
        0 <= k < rows.len(),
        forall|i: int, j: int|
            0 <= i < j < rows.len() ==> (#[trigger] rows[i]).normalized_address@
                != (#[trigger] rows[j]).normalized_address@,
    ensures
        row_index(rows, rows[k].normalized_address@) == Some(k),
{
    let key = rows[k].normalized_address@;
    let c = choose|i: int| 0 <= i < rows.len() && (#[trigger] rows[i]).normalized_address@ == key;
    assert(rows[k].normalized_address@ == key);
    if c < k {
        assert(rows[c].normalized_address@ != rows[k].normalized_address@);
    } else if c > k {
        assert(rows[k].normalized_address@ != rows[c].normalized_address@);
    }
}

/// `e` shows one of the stored rows.
pub open spec fn is_listed(e: BlacklistEntry, rows: Seq<BlacklistRow>) -> bool {
    exists|j: int| 0 <= j < rows.len() && entry_of(e, #[trigger] rows[j])
}

/// What putting `address` on the list for `reason` at `now` does to `old`.
pub open spec fn add_post(
    old: Seq<BlacklistRow>,
    address: Seq<char>,
    reason: Seq<char>,
    now: u64,
    new: Seq<BlacklistRow>,
    r: Result<BlacklistEntry, BlacklistError>,
) -> bool {
    match normalized(address) {
        None => invalid_as(r, address_refusal()) && new == old,
        Some(n) => if !valid_reason(reason) {
            invalid_as(r, "reason must contain 1-500 characters"@) && new == old
        } else {
            &&& r matches Ok(e) && e.address@ == trim(address) && e.reason@ == trim(reason)
                && e.created_at_unix_ms == now
            &&& match row_index(old, n) {
                Some(k) => {
                    &&& new.len() == old.len()
                    &&& forall|i: int| 0 <= i < old.len() && i != k ==> new[i] == old[i]
                    &&& new[k].normalized_address@ == n
                    &&& new[k].entry.address@ == trim(address)
                    &&& new[k].entry.reason@ == trim(reason)
                    &&& new[k].entry.created_at_unix_ms == old[k].entry.created_at_unix_ms
                },
                None => {
                    &&& new.len() == old.len() + 1
                    &&& new.drop_last() == old
                    &&& new.last().normalized_address@ == n
                    &&& new.last().entry.address@ == trim(address)
                    &&& new.last().entry.reason@ == trim(reason)
                    &&& new.last().entry.created_at_unix_ms == now
                },
            }
        },
    }
}

/// What taking `address` off the list does to `old`.
pub open spec fn remove_post(
    old: Seq<BlacklistRow>,
    address: Seq<char>,
    new: Seq<BlacklistRow>,
    r: Result<bool, BlacklistError>,
) -> bool {
    match normalized(address) {
        None => invalid_as(r, address_refusal()) && new == old,
        Some(n) => r == Ok::<bool, BlacklistError>(row_index(old, n) is Some) && match row_index(old, n) {
            Some(k) => new == old.remove(k),
            None => new == old,
        },
    }
}


fn copy_entry(e: &BlacklistEntry) -> (r: BlacklistEntry)
    ensures
        r.address@ == e.address@,
        r.reason@ == e.reason@,
        r.created_at_unix_ms == e.created_at_unix_ms,
{
    BlacklistEntry {
        address: e.address.clone(),
        reason: e.reason.clone(),
        created_at_unix_ms: e.created_at_unix_ms,
    }
}

impl AddressBlacklistRegister {
    /// The stored rows.
    pub closed spec fn rows(&self) -> Seq<BlacklistRow> {
        self.rows@
    }

    /// Each address is stored once, under the key of its trimmed text.
    pub open spec fn wf(&self) -> bool {
        &&& forall|i: int|
            0 <= i < self.rows().len() ==> (#[trigger] self.rows()[i]).normalized_address@
                == ascii_lowercase(self.rows()[i].entry.address@)
        &&& forall|i: int, j: int|
            0 <= i < j < self.rows().len() ==> (#[trigger] self.rows()[i]).normalized_address@
                != (#[trigger] self.rows()[j]).normalized_address@
    }

    /// An address with this key is on the list.
    pub open spec fn holds(&self, key: Seq<char>) -> bool {
        row_index(self.rows(), key) is Some
    }

    /// An empty blacklist.
    pub fn new() -> (r: AddressBlacklistRegister)
        ensures
            r.wf(),
            r.rows().len() == 0,
    {
        AddressBlacklistRegister { rows: Vec::new() }
    }

    /// Puts `address` on the list for `reason`; an address already listed
    /// keeps its date and takes the new text and reason.
    pub fn add(&mut self, address: &str, reason: &str, now: u64) -> (r: Result<BlacklistEntry, BlacklistError>)
        requires
            old(self).wf(),
        ensures
            final(self).wf(),
            add_post(old(self).rows(), address@, reason@, now, final(self).rows(), r),
    {
        proof {
            assert(self.rows() == self.rows@);
        }
        let key = match normalize(address) {
            Ok(k) => k,
            Err(e) => return Err(e),
        };
        let reason = trim_str(reason);
        if reason.unicode_len() == 0 || str_byte_len(reason) > 500 {
            return Err(BlacklistError::Invalid(String::from_str("reason must contain 1-500 characters")));
        }
        let trimmed = trim_str(address);
        let ghost before = self.rows@;
        match find_row(&self.rows, key.as_str()) {
            Some(k) => {
                proof {
                    lemma_row_index_at(self.rows@, k as int);
                }
                let created = self.rows[k].entry.created_at_unix_ms;
                let row = BlacklistRow {
                    normalized_address: key,
                    entry: BlacklistEntry {
                        address: trimmed.to_owned(),
                        reason: reason.to_owned(),
                        created_at_unix_ms: created,
                    },
                };
                self.rows.set(k, row);
                proof {
                    assert forall|i: int, j: int|
                        0 <= i < j < self.rows@.len() implies (#[trigger] self.rows@[i]).normalized_address@
                        != (#[trigger] self.rows@[j]).normalized_address@ by {
                        assert(before[i].normalized_address@ != before[j].normalized_address@);
                    }
                }
            },
            None => {
                self.rows.push(
                    BlacklistRow {
                        normalized_address: key,
                        entry: BlacklistEntry {
                            address: trimmed.to_owned(),
                            reason: reason.to_owned(),
                            created_at_unix_ms: now,
                        },
                    },
                );
                proof {
                    assert(self.rows@.drop_last() =~= before);
                    assert forall|i: int, j: int|
                        0 <= i < j < self.rows@.len() implies (#[trigger] self.rows@[i]).normalized_address@
                        != (#[trigger] self.rows@[j]).normalized_address@ by {
                        if j == self.rows@.len() - 1 {
                            assert(self.rows@[i] == before[i]);
                        } else {
                            assert(self.rows@[i] == before[i] && self.rows@[j] == before[j]);
                        }
                    }
                }
            },
        }
        Ok(
            BlacklistEntry {
                address: trimmed.to_owned(),
                reason: reason.to_owned(),
                created_at_unix_ms: now,
            },
        )
    }

    /// Takes `address` off the list; tells whether it was on it.
    pub fn remove(&mut self, address: &str) -> (r: Result<bool, BlacklistError>)
        requires
            old(self).wf(),
        ensures
            final(self).wf(),
            remove_post(old(self).rows(), address@, final(self).rows(), r),
    {
        proof {
            assert(self.rows() == self.rows@);
        }
        let key = match normalize(address) {
            Ok(k) => k,
            Err(e) => return Err(e),
        };
        let ghost before = self.rows@;
        match find_row(&self.rows, key.as_str()) {
            Some(k) => {
                proof {
                    lemma_row_index_at(self.rows@, k as int);
                }
                self.rows.remove(k);
                proof {
                    assert forall|i: int, j: int|
                        0 <= i < j < self.rows@.len() implies (#[trigger] self.rows@[i]).normalized_address@
                        != (#[trigger] self.rows@[j]).normalized_address@ by {
                        let bi = if i < k { i } else { i + 1 };
                        let bj = if j < k { j } else { j + 1 };
                        assert(self.rows@[i] == before[bi] && self.rows@[j] == before[bj]);
                    }
                    assert forall|i: int|
                        0 <= i < self.rows@.len() implies (#[trigger] self.rows@[i]).normalized_address@
                        == ascii_lowercase(self.rows@[i].entry.address@) by {
                        let bi = if i < k { i } else { i + 1 };
                        assert(self.rows@[i] == before[bi]);
                    }
                }
                Ok(true)
            },
            None => Ok(false),
        }
    }

    /// Every listed address, newest first.
    pub fn list(&self) -> (r: Vec<BlacklistEntry>)
        requires
            self.wf(),
        ensures
            r@.len() == self.rows().len(),
            forall|i: int| 0 <= i < r@.len() ==> is_listed(#[trigger] r@[i], self.rows()),
            forall|i: int, j: int|
                0 <= i < j < r@.len() ==> (#[trigger] r@[i]).created_at_unix_ms >= (
                #[trigger] r@[j]).created_at_unix_ms,
            forall|i: int, j: int|
                0 <= i < j < r@.len() ==> (#[trigger] r@[i]).address@ != (#[trigger] r@[j]).address@,
    {
        let mut times: Vec<u64> = Vec::new();
        let mut k: usize = 0;
        while k < self.rows.len()
            invariant
                k <= self.rows@.len(),
                times@.len() == k,
                forall|i: int| 0 <= i < k ==> times@[i] == (#[trigger] self.rows@[i]).entry.created_at_unix_ms,
            decreases self.rows.len() - k,
        {
            times.push(self.rows[k].entry.created_at_unix_ms);
            k = k + 1;
        }
        let order = newest_first(&times);
        let mut out: Vec<BlacklistEntry> = Vec::new();
        let mut i: usize = 0;
        while i < order.len()
            invariant
                i <= order@.len(),
                order@.len() == self.rows@.len(),
                times@.len() == self.rows@.len(),
                forall|x: int| 0 <= x < self.rows@.len() ==> times@[x] == (#[trigger] self.rows@[x]).entry.created_at_unix_ms,
                crate::recency::newest_first_order(times@, order@),
                out@.len() == i,
                forall|x: int| 0 <= x < i ==> entry_of(#[trigger] out@[x], self.rows@[order@[x] as int]),
            decreases order.len() - i,
        {
            out.push(copy_entry(&self.rows[order[i]].entry));
            i = i + 1;
        }
        proof {
            assert forall|x: int| 0 <= x < out@.len() implies is_listed(#[trigger] out@[x], self.rows()) by {
                assert(entry_of(out@[x], self.rows()[order@[x] as int]));
            }
            assert forall|x: int, y: int|
                0 <= x < y < out@.len() implies (#[trigger] out@[x]).created_at_unix_ms >= (
                #[trigger] out@[y]).created_at_unix_ms by {
                assert(times@[order@[x] as int] >= times@[order@[y] as int]);
            }
            assert forall|x: int, y: int|
                0 <= x < y < out@.len() implies (#[trigger] out@[x]).address@ != (
                #[trigger] out@[y]).address@ by {
                let a = order@[x] as int;
                let b = order@[y] as int;
                assert(a != b);
                if a < b {
                    assert(self.rows()[a].normalized_address@ != self.rows()[b].normalized_address@);
                } else {
                    assert(self.rows()[b].normalized_address@ != self.rows()[a].normalized_address@);
                }
            }
        }
        out
    }

    /// Tells whether `address` is on the list.
    pub fn contains(&self, address: &str) -> (r: Result<bool, BlacklistError>)
        requires
            self.wf(),
        ensures
            match normalized(address@) {
                None => invalid_as(r, address_refusal()),
                Some(n) => r == Ok::<bool, BlacklistError>(self.holds(n)),
            },
    {
        let key = match normalize(address) {
            Ok(k) => k,
            Err(e) => return Err(e),
        };
        match find_row(&self.rows, key.as_str()) {
            Some(_) => Ok(true),
            None => Ok(false),
        }
    }
}

impl AddressBlacklist for AddressBlacklistRegister {
    /// Tells whether `address` is on the list; an address that has no key is
    /// refused.
    fn is_blocked(&self, address: &str) -> (r: Result<bool, BlacklistError>)
        ensures
            match normalized(address@) {
                None => invalid_as(r, address_refusal()),
                Some(n) => r == Ok::<bool, BlacklistError>(self.holds(n)),
            },
    {
        let key = match normalize(address) {
            Ok(k) => k,
            Err(e) => return Err(e),
        };
        match find_row(&self.rows, key.as_str()) {
            Some(_) => Ok(true),
            None => Ok(false),
        }
    }
}


/// Addresses match without regard to white space around them or ASCII case:
/// once `address` is listed, every spelling with the same key is blocked.
pub proof fn lemma_listed_in_any_case(
    old: AddressBlacklistRegister,
    address: Seq<char>,
    reason: Seq<char>,
    now: u64,
    new: AddressBlacklistRegister,
    entry: BlacklistEntry,
    other: Seq<char>,
)
    requires
        add_post(old.rows(), address, reason, now, new.rows(), Ok(entry)),
        normalized(other) is Some,
        normalized(other) == normalized(address),
    ensures
        new.holds(normalized(other)->Some_0),
{
    let n = normalized(address)->Some_0;
    match row_index(old.rows(), n) {
        Some(k) => {
            assert(new.rows()[k].normalized_address@ == n);
        },
        None => {
            assert(new.rows()[new.rows().len() - 1].normalized_address@ == n);
        },
    }
}

/// Removing an address lifts the block for every spelling with its key.
pub proof fn lemma_removal_restores_access(
    old: AddressBlacklistRegister,
    address: Seq<char>,
    new: AddressBlacklistRegister,
    r: Result<bool, BlacklistError>,
    other: Seq<char>,
)
    requires
        old.wf(),
        remove_post(old.rows(), address, new.rows(), r),
        normalized(other) is Some,
        normalized(other) == normalized(address),
    ensures
        !new.holds(normalized(other)->Some_0),
{
    let n = normalized(address)->Some_0;
    match row_index(old.rows(), n) {
        Some(k) => {
            assert forall|i: int| 0 <= i < new.rows().len() implies (#[trigger] new.rows()[i]).normalized_address@
                != n by {
                let bi = if i < k { i } else { i + 1 };
                assert(new.rows()[i] == old.rows()[bi]);
                assert(old.rows()[k].normalized_address@ == n);
                if bi < k {
                    assert(old.rows()[bi].normalized_address@ != old.rows()[k].normalized_address@);
                } else {
                    assert(old.rows()[k].normalized_address@ != old.rows()[bi].normalized_address@);
                }
            }
        },
        None => {},
    }
}
} // verus!
