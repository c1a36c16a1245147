//! The register of services rendered: every purchase, sale, redemption step,
//! transfer, external withdrawal and credited deposit leaves a record, and
//! records are only ever amended by appending an amendment.
use super::{opt_text, RetailLedger};
use crate::decimal::{decimal_nat, u64_to_string};
use crate::domain::retail::{ServiceRecord, ServiceRecordAmendment};
use crate::recency::{lists, newest_first, newest_first_order};
use crate::text::str_eq;
use vstd::prelude::*;

verus! {

/// How long a record is kept: five years of 365 days, in milliseconds.
pub const RETENTION_MS: u64 = 157_680_000_000;

/// At most this many records are listed for one client.
pub const CLIENT_RECORD_LIMIT: usize = 200;

/// At most this many records are listed in all.
pub const ALL_RECORD_LIMIT: usize = 1000;

/// The execution details kept with a record.
#[derive(Debug)]
pub struct RecordDetails {
    pub received_at_unix_ms: u64,
    pub accepted_at_unix_ms: Option<u64>,
    pub executed_at_unix_ms: Option<u64>,
    pub settled_at_unix_ms: Option<u64>,
    pub failed_at_unix_ms: Option<u64>,
    pub price_method: String,
    pub unit_price_minor: Option<u64>,
    pub gross_quantity_raw: u64,
    pub net_quantity_raw: u64,
    pub fee_quantity_raw: u64,
    pub instruction_channel: String,
    pub execution_actor: String,
    pub policy_version: String,
    pub rejection_reason: Option<String>,
    pub retention_until_unix_ms: u64,
}

/// One record as the register keeps it; a record written without execution
/// details shows defaults for them.
#[derive(Debug)]
pub struct RecordRow {
    pub record_id: String,
    pub operation_id: String,
    pub client_id: String,
    pub service_type: String,
    pub order_type: String,
    pub contract_address: String,
    pub chain_id: u64,
    pub quantity_raw: u64,
    pub gross_fiat_minor: u64,
    pub status: String,
    pub source_account: Option<String>,
    pub destination_account: Option<String>,
    pub blockchain_transaction_hash: Option<String>,
    pub decision_actor: String,
    pub created_at_unix_ms: u64,
    pub details: Option<RecordDetails>,
}

/// The end of the retention period of a record written at `now`.
pub open spec fn retention_until(now: u64) -> u64 {
    if now + RETENTION_MS > u64::MAX {
        u64::MAX
    } else {
        (now + RETENTION_MS) as u64
    }
}

/// The ID of the record written when `n` records exist.
pub open spec fn record_id_text(n: nat) -> Seq<char> {
    "record-"@ + decimal_nat(n)
}

/// The ID of the amendment written when `n` amendments exist.
pub open spec fn amendment_id_text(n: nat) -> Seq<char> {
    "amendment-"@ + decimal_nat(n)
}

/// An optional amount shown in decimal.
pub open spec fn opt_decimal(v: Option<u64>) -> Option<Seq<char>> {
    match v {
        Some(x) => Some(decimal_nat(x as nat)),
        None => None,
    }
}

/// `s` shows record `r` as the API hands records out.
pub open spec fn service_record_of(s: ServiceRecord, r: RecordRow) -> bool {
    &&& s.record_id@ == r.record_id@
    &&& s.operation_id@ == r.operation_id@
    &&& s.client_id@ == r.client_id@
    &&& s.service_type@ == r.service_type@
    &&& s.order_type@ == r.order_type@
    &&& s.asset_symbol@ == "rUSD"@
    &&& s.contract_address@ == r.contract_address@
    &&& s.chain_id == r.chain_id
    &&& s.quantity_raw@ == decimal_nat(r.quantity_raw as nat)
    &&& s.fiat_currency@ == "USD"@
    &&& s.gross_fiat_minor@ == decimal_nat(r.gross_fiat_minor as nat)
    &&& s.fee_minor@ == "0"@
    &&& s.status@ == r.status@
    &&& opt_text(s.source_account) == opt_text(r.source_account)
    &&& opt_text(s.destination_account) == opt_text(r.destination_account)
    &&& opt_text(s.blockchain_transaction_hash) == opt_text(r.blockchain_transaction_hash)
    &&& s.decision_actor@ == r.decision_actor@
    &&& s.created_at_unix_ms == r.created_at_unix_ms
    &&& s.record_status@ == "new"@
    &&& match r.details {
        Some(d) => {
            &&& s.received_at_unix_ms == d.received_at_unix_ms
            &&& s.accepted_at_unix_ms == d.accepted_at_unix_ms
            &&& s.executed_at_unix_ms == d.executed_at_unix_ms
            &&& s.settled_at_unix_ms == d.settled_at_unix_ms
            &&& s.failed_at_unix_ms == d.failed_at_unix_ms
            &&& s.price_method@ == d.price_method@
            &&& opt_text(s.unit_price_minor) == opt_decimal(d.unit_price_minor)
            &&& s.gross_quantity_raw@ == decimal_nat(d.gross_quantity_raw as nat)
            &&& s.net_quantity_raw@ == decimal_nat(d.net_quantity_raw as nat)
            &&& s.fee_quantity_raw@ == decimal_nat(d.fee_quantity_raw as nat)
            &&& s.instruction_channel@ == d.instruction_channel@
            &&& s.execution_actor@ == d.execution_actor@
            &&& s.policy_version@ == d.policy_version@
            &&& opt_text(s.rejection_reason) == opt_text(d.rejection_reason)
            &&& s.retention_until_unix_ms == d.retention_until_unix_ms
        },
        None => {
            &&& s.received_at_unix_ms == r.created_at_unix_ms
            &&& s.accepted_at_unix_ms is None
            &&& s.executed_at_unix_ms is None
            &&& s.settled_at_unix_ms is None
            &&& s.failed_at_unix_ms is None
            &&& s.price_method@ == "legacy_unspecified"@
            &&& s.unit_price_minor is None
            &&& s.gross_quantity_raw@ == decimal_nat(r.quantity_raw as nat)
            &&& s.net_quantity_raw@ == decimal_nat(r.quantity_raw as nat)
            &&& s.fee_quantity_raw@ == "0"@
            &&& s.instruction_channel@ == "legacy_unspecified"@
            &&& s.execution_actor@ == r.decision_actor@
            &&& s.policy_version@ == "casp-service-record-v1"@
            &&& s.rejection_reason is None
            &&& s.retention_until_unix_ms == r.created_at_unix_ms
        },
    }
}

fn opt_clone(o: &Option<String>) -> (r: Option<String>)
    ensures
        r == *o,
{
    match o {
        Some(s) => Some(s.clone()),
        None => None,
    }
}

fn opt_decimal_string(v: Option<u64>) -> (r: Option<String>)
    ensures
        opt_text(r) == opt_decimal(v),
{
    match v {
        Some(x) => Some(u64_to_string(x)),
        None => None,
    }
}

/// Shows a record as the API hands records out.
pub fn map_record(r: &RecordRow) -> (s: ServiceRecord)
    ensures
        service_record_of(s, *r),
{
    proof {
        reveal_strlit("0");
    }
    match &r.details {
        Some(d) => ServiceRecord {
            record_id: r.record_id.clone(),
            operation_id: r.operation_id.clone(),
            client_id: r.client_id.clone(),
            service_type: r.service_type.clone(),
            order_type: r.order_type.clone(),
            asset_symbol: String::from_str("rUSD"),
            contract_address: r.contract_address.clone(),
            chain_id: r.chain_id,
            quantity_raw: u64_to_string(r.quantity_raw),
            fiat_currency: String::from_str("USD"),
            gross_fiat_minor: u64_to_string(r.gross_fiat_minor),
            fee_minor: String::from_str("0"),
            status: r.status.clone(),
            source_account: opt_clone(&r.source_account),
            destination_account: opt_clone(&r.destination_account),
            blockchain_transaction_hash: opt_clone(&r.blockchain_transaction_hash),
            decision_actor: r.decision_actor.clone(),
            created_at_unix_ms: r.created_at_unix_ms,
            record_status: String::from_str("new"),
            received_at_unix_ms: d.received_at_unix_ms,
            accepted_at_unix_ms: d.accepted_at_unix_ms,
            executed_at_unix_ms: d.executed_at_unix_ms,
            settled_at_unix_ms: d.settled_at_unix_ms,
            failed_at_unix_ms: d.failed_at_unix_ms,
            price_method: d.price_method.clone(),
            unit_price_minor: opt_decimal_string(d.unit_price_minor),
            gross_quantity_raw: u64_to_string(d.gross_quantity_raw),
            net_quantity_raw: u64_to_string(d.net_quantity_raw),
            fee_quantity_raw: u64_to_string(d.fee_quantity_raw),
            instruction_channel: d.instruction_channel.clone(),
            execution_actor: d.execution_actor.clone(),
            policy_version: d.policy_version.clone(),
            rejection_reason: opt_clone(&d.rejection_reason),
            retention_until_unix_ms: d.retention_until_unix_ms,
        },
        None => ServiceRecord {
            record_id: r.record_id.clone(),
            operation_id: r.operation_id.clone(),
            client_id: r.client_id.clone(),
            service_type: r.service_type.clone(),
            order_type: r.order_type.clone(),
            asset_symbol: String::from_str("rUSD"),
            contract_address: r.contract_address.clone(),
            chain_id: r.chain_id,
            quantity_raw: u64_to_string(r.quantity_raw),
            fiat_currency: String::from_str("USD"),
            gross_fiat_minor: u64_to_string(r.gross_fiat_minor),
            fee_minor: String::from_str("0"),
            status: r.status.clone(),
            source_account: opt_clone(&r.source_account),
            destination_account: opt_clone(&r.destination_account),
            blockchain_transaction_hash: opt_clone(&r.blockchain_transaction_hash),
            decision_actor: r.decision_actor.clone(),
            created_at_unix_ms: r.created_at_unix_ms,
            record_status: String::from_str("new"),
            received_at_unix_ms: r.created_at_unix_ms,
            accepted_at_unix_ms: None,
            executed_at_unix_ms: None,
            settled_at_unix_ms: None,
            failed_at_unix_ms: None,
            price_method: String::from_str("legacy_unspecified"),
            unit_price_minor: None,
            gross_quantity_raw: u64_to_string(r.quantity_raw),
            net_quantity_raw: u64_to_string(r.quantity_raw),
            fee_quantity_raw: String::from_str("0"),
            instruction_channel: String::from_str("legacy_unspecified"),
            execution_actor: r.decision_actor.clone(),
            policy_version: String::from_str("casp-service-record-v1"),
            rejection_reason: None,
            retention_until_unix_ms: r.created_at_unix_ms,
        },
    }
}

/// The ID text of record number `n`.
pub fn record_id_string(prefix: &str, n: usize) -> (r: String)
    ensures
        r@ == prefix@ + decimal_nat(n as nat),
{
    String::from_str(prefix).concat(u64_to_string(n as u64).as_str())
}

/// A record of a retail operation of `kind` (`purchase`, `sale`,
/// `redemption` or `internal_transfer`), written as record number `n` at
/// `now` while the exchange rate is `rate`. Transfers carry their 0.1 % fee
/// in rUSD and no price; the others are priced at the configured rate.
pub open spec fn retail_record_is(
    row: RecordRow,
    n: nat,
    id: Seq<char>,
    client: Seq<char>,
    kind: Seq<char>,
    raw: u64,
    cents: u64,
    status: Seq<char>,
    source: Option<Seq<char>>,
    destination: Option<Seq<char>>,
    hash: Option<Seq<char>>,
    contract: Seq<char>,
    chain: u64,
    rate: u64,
    now: u64,
) -> bool {
    let transfer = kind == "internal_transfer"@;
    let completed = status == "completed"@;
    &&& row.record_id@ == record_id_text(n)
    &&& row.operation_id@ == id
    &&& row.client_id@ == client
    &&& row.service_type@ == if transfer {
        "transfer_service"@
    } else {
        "exchange_of_crypto_assets_for_funds"@
    }
    &&& row.order_type@ == kind
    &&& row.contract_address@ == contract
    &&& row.chain_id == chain
    &&& row.quantity_raw == raw
    &&& row.gross_fiat_minor == cents
    &&& row.status@ == status
    &&& opt_text(row.source_account) == source
    &&& opt_text(row.destination_account) == destination
    &&& opt_text(row.blockchain_transaction_hash) == hash
    &&& row.decision_actor@ == "casp-retail-demo-v1"@
    &&& row.created_at_unix_ms == now
    &&& row.details matches Some(d) && {
        &&& d.received_at_unix_ms == now
        &&& d.accepted_at_unix_ms == Some(now)
        &&& d.executed_at_unix_ms == if completed {
            Some(now)
        } else {
            None
        }
        &&& d.settled_at_unix_ms == if completed {
            Some(now)
        } else {
            None
        }
        &&& d.failed_at_unix_ms is None
        &&& d.price_method@ == if transfer {
            "not_applicable"@
        } else {
            "casp_admin_configured_rate"@
        }
        &&& d.unit_price_minor == if transfer {
            None
        } else {
            Some(rate)
        }
        &&& d.gross_quantity_raw == raw
        &&& d.net_quantity_raw == if transfer {
            (raw - raw / 1000) as u64
        } else {
            raw
        }
        &&& d.fee_quantity_raw == if transfer {
            (raw / 1000) as u64
        } else {
            0
        }
        &&& d.instruction_channel@ == "demo_web"@
        &&& d.execution_actor@ == "casp-retail-engine"@
        &&& d.policy_version@ == "casp-service-record-v2"@
        &&& d.rejection_reason is None
        &&& d.retention_until_unix_ms == retention_until(now)
    }
}

fn opt_owned(o: Option<&str>) -> (r: Option<String>)
    ensures
        opt_text(r) == match o {
            Some(s) => Some(s@),
            None => None,
        },
{
    match o {
        Some(s) => Some(s.to_owned()),
        None => None,
    }
}

/// Writes the record of a retail operation.
pub(crate) fn retail_record(
    n: usize,
    id: &str,
    client: &str,
    kind: &str,
    raw: u64,
    cents: u64,
    status: &str,
    source: Option<&str>,
    destination: Option<&str>,
    hash: Option<&str>,
    contract: &str,
    chain: u64,
    rate: u64,
    now: u64,
) -> (row: RecordRow)
    ensures
        retail_record_is(
            row,
            n as nat,
            id@,
            client@,
            kind@,
            raw,
            cents,
            status@,
            match source {
                Some(s) => Some(s@),
                None => None,
            },
            match destination {
                Some(s) => Some(s@),
                None => None,
            },
            match hash {
                Some(s) => Some(s@),
                None => None,
            },
            contract@,
            chain,
            rate,
            now,
        ),
{
    let transfer = str_eq(kind, "internal_transfer");
    let completed = str_eq(status, "completed");
    let retention = now.saturating_add(RETENTION_MS);
    RecordRow {
        record_id: record_id_string("record-", n),
        operation_id: id.to_owned(),
        client_id: client.to_owned(),
        service_type: if transfer {
            String::from_str("transfer_service")
        } else {
            String::from_str("exchange_of_crypto_assets_for_funds")
        },
        order_type: kind.to_owned(),
        contract_address: contract.to_owned(),
        chain_id: chain,
        quantity_raw: raw,
        gross_fiat_minor: cents,
        status: status.to_owned(),
        source_account: opt_owned(source),
        destination_account: opt_owned(destination),
        blockchain_transaction_hash: opt_owned(hash),
        decision_actor: String::from_str("casp-retail-demo-v1"),
        created_at_unix_ms: now,
        details: Some(
            RecordDetails {
                received_at_unix_ms: now,
                accepted_at_unix_ms: Some(now),
                executed_at_unix_ms: if completed {
                    Some(now)
                } else {
                    None
                },
                settled_at_unix_ms: if completed {
                    Some(now)
                } else {
                    None
                },
                failed_at_unix_ms: None,
                price_method: if transfer {
                    String::from_str("not_applicable")
                } else {
                    String::from_str("casp_admin_configured_rate")
                },
                unit_price_minor: if transfer {
                    None
                } else {
                    Some(rate)
                },
                gross_quantity_raw: raw,
                net_quantity_raw: if transfer {
                    raw - raw / 1000
                } else {
                    raw
                },
                fee_quantity_raw: if transfer {
                    raw / 1000
                } else {
                    0
                },
                instruction_channel: String::from_str("demo_web"),
                execution_actor: String::from_str("casp-retail-engine"),
                policy_version: String::from_str("casp-service-record-v2"),
                rejection_reason: None,
                retention_until_unix_ms: retention,
            },
        ),
    }
}

/// The record concerns `client`: as the client, the source or the destination.
pub open spec fn concerns(r: RecordRow, client: Seq<char>) -> bool {
    r.client_id@ == client || opt_text(r.source_account) == Some(client) || opt_text(
        r.destination_account,
    ) == Some(client)
}

/// `sel` orders every position of `rows` that `keep` selects exactly once,
/// newest first, and `out` shows the first `limit` of them.
pub open spec fn shows_selection(
    rows: Seq<RecordRow>,
    keep: spec_fn(RecordRow) -> bool,
    limit: nat,
    out: Seq<ServiceRecord>,
    sel: Seq<int>,
) -> bool {
    &&& forall|i: int| 0 <= i < sel.len() ==> 0 <= #[trigger] sel[i] < rows.len() && keep(rows[sel[i]])
    &&& forall|j: int| 0 <= j < rows.len() && #[trigger] keep(rows[j]) ==> sel.contains(j)
    &&& forall|i: int, k: int| 0 <= i < k < sel.len() ==> #[trigger] sel[i] != #[trigger] sel[k]
    &&& forall|i: int, k: int|
        0 <= i < k < sel.len() ==> rows[#[trigger] sel[i]].created_at_unix_ms >= rows[#[trigger] sel[k]].created_at_unix_ms
    &&& out.len() == if sel.len() < limit {
        sel.len()
    } else {
        limit
    }
    &&& forall|i: int| 0 <= i < out.len() ==> service_record_of(#[trigger] out[i], rows[sel[i]])
}

/// Position `j` is among `picked`.
pub open spec fn picks(picked: Seq<usize>, j: int) -> bool {
    exists|x: int| 0 <= x < picked.len() && picked[x] as int == j
}

/// `out` lists, newest first and at most `limit` of them, the records of
/// `rows` that `keep` selects.
pub open spec fn newest_records(
    rows: Seq<RecordRow>,
    keep: spec_fn(RecordRow) -> bool,
    limit: nat,
    out: Seq<ServiceRecord>,
) -> bool {
    exists|sel: Seq<int>| #[trigger] shows_selection(rows, keep, limit, out, sel)
}

impl RetailLedger {
    fn newest_of(&self, picked: Vec<usize>, limit: usize, Ghost(keep): Ghost<spec_fn(RecordRow) -> bool>) -> (out: Vec<ServiceRecord>)
        requires
            forall|x: int| 0 <= x < picked@.len() ==> (#[trigger] picked@[x]) < self.records@.len() && keep(self.records@[picked@[x] as int]),
            forall|j: int| 0 <= j < self.records@.len() && #[trigger] keep(self.records@[j]) ==> picks(picked@, j),
            forall|x: int, y: int| 0 <= x < y < picked@.len() ==> (#[trigger] picked@[x]) < (#[trigger] picked@[y]),
        ensures
            newest_records(self.records@, keep, limit as nat, out@),
    {
        let mut times: Vec<u64> = Vec::new();
        let mut k: usize = 0;
        while k < picked.len()
            invariant
                k <= picked@.len(),
                times@.len() == k,
                forall|x: int| 0 <= x < picked@.len() ==> (#[trigger] picked@[x]) < self.records@.len(),
                forall|x: int| 0 <= x < k ==> times@[x] == self.records@[picked@[x] as int].created_at_unix_ms,
            decreases picked.len() - k,
        {
            times.push(self.records[picked[k]].created_at_unix_ms);
            k = k + 1;
        }
        let order = newest_first(&times);
        let ghost sel = Seq::new(order@.len(), |i: int| picked@[order@[i] as int] as int);
        let mut out: Vec<ServiceRecord> = Vec::new();
        let mut i: usize = 0;
        while i < order.len() && i < limit
            invariant
                i <= order@.len(),
                i <= limit,
                newest_first_order(times@, order@),
                times@.len() == picked@.len(),
                forall|x: int| 0 <= x < picked@.len() ==> (#[trigger] picked@[x]) < self.records@.len(),
                sel == Seq::new(order@.len(), |x: int| picked@[order@[x] as int] as int),
                out@.len() == i,
                forall|x: int| 0 <= x < i ==> service_record_of(#[trigger] out@[x], self.records@[sel[x]]),
            decreases order.len() - i,
        {
            out.push(map_record(&self.records[picked[order[i]]]));
            i = i + 1;
        }
        proof {
            assert forall|x: int| 0 <= x < sel.len() implies 0 <= #[trigger] sel[x] < self.records@.len() && keep(
                self.records@[sel[x]],
            ) by {
                assert(sel[x] == picked@[order@[x] as int]);
            }
            assert forall|j: int| 0 <= j < self.records@.len() && #[trigger] keep(self.records@[j]) implies sel.contains(j) by {
                let x = choose|x: int| 0 <= x < picked@.len() && picked@[x] as int == j;
                assert(lists(order@, x));
                let i = choose|i: int| 0 <= i < order@.len() && order@[i] == x;
                assert(sel[i] == picked@[order@[i] as int] as int);
                assert(sel[i] == j);
            }
            assert forall|a: int, b: int| 0 <= a < b < sel.len() implies #[trigger] sel[a] != #[trigger] sel[b] by {
                let oa = order@[a] as int;
                let ob = order@[b] as int;
                assert(oa != ob);
                if oa < ob {
                    assert(picked@[oa] < picked@[ob]);
                } else {
                    assert(picked@[ob] < picked@[oa]);
                }
            }
            assert forall|a: int, b: int|
                0 <= a < b < sel.len() implies self.records@[#[trigger] sel[a]].created_at_unix_ms
                >= self.records@[#[trigger] sel[b]].created_at_unix_ms by {
                assert(times@[order@[a] as int] >= times@[order@[b] as int]);
            }
            assert(shows_selection(self.records@, keep, limit as nat, out@, sel));
        }
        out
    }

    /// The records that concern `client`, newest first, at most 200.
    pub fn records(&self, client: &str) -> (r: Vec<ServiceRecord>)
        ensures
            newest_records(self.record_rows(), |x: RecordRow| concerns(x, client@), CLIENT_RECORD_LIMIT as nat, r@),
    {
        proof {
            self.lemma_views();
        }
        let ghost keep = |x: RecordRow| concerns(x, client@);
        let mut picked: Vec<usize> = Vec::new();
        let mut k: usize = 0;
        while k < self.records.len()
            invariant
                k <= self.records@.len(),
                keep == (|x: RecordRow| concerns(x, client@)),
                forall|x: int| 0 <= x < picked@.len() ==> (#[trigger] picked@[x]) < k && keep(self.records@[picked@[x] as int]),
                forall|j: int| 0 <= j < k && #[trigger] keep(self.records@[j]) ==> picks(picked@, j),
                forall|x: int, y: int| 0 <= x < y < picked@.len() ==> (#[trigger] picked@[x]) < (#[trigger] picked@[y]),
            decreases self.records.len() - k,
        {
            let r = &self.records[k];
            let wanted = str_eq(r.client_id.as_str(), client) || match &r.source_account {
                Some(s) => str_eq(s.as_str(), client),
                None => false,
            } || match &r.destination_account {
                Some(s) => str_eq(s.as_str(), client),
                None => false,
            };
            if wanted {
                let ghost before = picked@;
                picked.push(k);
                proof {
                    assert forall|j: int| 0 <= j < k + 1 && #[trigger] keep(self.records@[j]) implies picks(picked@, j) by {
                        if j < k {
                            let x = choose|x: int| 0 <= x < before.len() && before[x] as int == j;
                            assert(picked@[x] as int == j);
                        } else {
                            assert(picked@[picked@.len() - 1] as int == k);
                        }
                    }
                }
            } else {
                proof {
                    assert(!keep(self.records@[k as int]));
                }
            }
            k = k + 1;
        }
        self.newest_of(picked, CLIENT_RECORD_LIMIT, Ghost(keep))
    }

    /// All records, newest first, at most 1000.
    pub fn all_records(&self) -> (r: Vec<ServiceRecord>)
        ensures
            newest_records(self.record_rows(), |x: RecordRow| true, ALL_RECORD_LIMIT as nat, r@),
    {
        proof {
            self.lemma_views();
        }
        let ghost keep = |x: RecordRow| true;
        let mut picked: Vec<usize> = Vec::new();
        let mut k: usize = 0;
        while k < self.records.len()
            invariant
                k <= self.records@.len(),
                picked@.len() == k,
                forall|x: int| 0 <= x < k ==> (#[trigger] picked@[x]) == x,
            decreases self.records.len() - k,
        {
            picked.push(k);
            k = k + 1;
        }
        proof {
            assert forall|j: int| 0 <= j < self.records@.len() && #[trigger] keep(self.records@[j]) implies picks(picked@, j) by {
                assert(picked@[j] as int == j);
            }
        }
        self.newest_of(picked, ALL_RECORD_LIMIT, Ghost(keep))
    }

    /// Appends an amendment of kind `amendment_type` against record
    /// `original`, which must exist; the record itself stays as it is.
    pub fn amend_record(&mut self, original: &str, amendment_type: &str, reason: &str, now: u64) -> (r: Result<
        ServiceRecordAmendment,
        crate::retail_application::RetailError,
    >)
        requires
            old(self).wf(),
        ensures
            final(self).wf(),
            amend_post(*old(self), original@, amendment_type@, reason@, now, *final(self), r),
    {
        proof {
            self.lemma_views();
        }
        let mut k: usize = 0;
        while k < self.records.len() && !str_eq(self.records[k].record_id.as_str(), original)
            invariant
                k <= self.records@.len(),
                forall|j: int| 0 <= j < k ==> (#[trigger] self.records@[j]).record_id@ != original@,
            decreases self.records.len() - k,
        {
            k = k + 1;
        }
        if k == self.records.len() {
            return Err(
                crate::retail_application::RetailError::Invalid(
                    String::from_str("original service record does not exist"),
                ),
            );
        }
        let amendment = ServiceRecordAmendment {
            amendment_id: record_id_string("amendment-", self.amendments.len()),
            original_record_id: original.to_owned(),
            amendment_type: amendment_type.to_owned(),
            reason: reason.to_owned(),
            actor: String::from_str("casp-admin-demo"),
            created_at_unix_ms: now,
        };
        let copy = copy_amendment(&amendment);
        let ghost before = self.amendments@;
        self.amendments.push(amendment);
        proof {
            self.lemma_views();
            assert(self.amendments@.drop_last() =~= before);
        }
        Ok(copy)
    }

    /// All amendments, newest first.
    pub fn amendments(&self) -> (r: Vec<ServiceRecordAmendment>)
        ensures
            r@.len() == self.amendment_rows().len(),
            forall|i: int| 0 <= i < r@.len() ==> #[trigger] shows_amendment_of(r@[i], self.amendment_rows()),
            forall|i: int, j: int|
                0 <= i < j < r@.len() ==> (#[trigger] r@[i]).created_at_unix_ms >= (#[trigger] r@[j]).created_at_unix_ms,
    {
        proof {
            self.lemma_views();
        }
        let mut times: Vec<u64> = Vec::new();
        let mut k: usize = 0;
        while k < self.amendments.len()
            invariant
                k <= self.amendments@.len(),
                times@.len() == k,
                forall|x: int| 0 <= x < k ==> times@[x] == (#[trigger] self.amendments@[x]).created_at_unix_ms,
            decreases self.amendments.len() - k,
        {
            times.push(self.amendments[k].created_at_unix_ms);
            k = k + 1;
        }
        let order = newest_first(&times);
        let mut out: Vec<ServiceRecordAmendment> = Vec::new();
        let mut i: usize = 0;
        while i < order.len()
            invariant
                i <= order@.len(),
                newest_first_order(times@, order@),
                times@.len() == self.amendments@.len(),
                forall|x: int| 0 <= x < self.amendments@.len() ==> times@[x] == (#[trigger] self.amendments@[x]).created_at_unix_ms,
                out@.len() == i,
                forall|x: int| 0 <= x < i ==> same_amendment(#[trigger] out@[x], self.amendments@[order@[x] as int]),
            decreases order.len() - i,
        {
            out.push(copy_amendment(&self.amendments[order[i]]));
            i = i + 1;
        }
        proof {
            assert forall|x: int| 0 <= x < out@.len() implies #[trigger] shows_amendment_of(out@[x], self.amendment_rows()) by {
                assert(same_amendment(out@[x], self.amendment_rows()[order@[x] as int]));
            }
            assert forall|x: int, y: int|
                0 <= x < y < out@.len() implies (#[trigger] out@[x]).created_at_unix_ms >= (
                #[trigger] out@[y]).created_at_unix_ms by {
                assert(times@[order@[x] as int] >= times@[order@[y] as int]);
            }
        }
        out
    }
}

/// Two amendments with the same fields.
pub open spec fn same_amendment(a: ServiceRecordAmendment, b: ServiceRecordAmendment) -> bool {
    &&& a.amendment_id@ == b.amendment_id@
    &&& a.original_record_id@ == b.original_record_id@
    &&& a.amendment_type@ == b.amendment_type@
    &&& a.reason@ == b.reason@
    &&& a.actor@ == b.actor@
    &&& a.created_at_unix_ms == b.created_at_unix_ms
}

/// `a` shows one of the stored amendments.
pub open spec fn shows_amendment_of(a: ServiceRecordAmendment, all: Seq<ServiceRecordAmendment>) -> bool {
    exists|j: int| 0 <= j < all.len() && same_amendment(a, #[trigger] all[j])
}

fn copy_amendment(a: &ServiceRecordAmendment) -> (r: ServiceRecordAmendment)
    ensures
        same_amendment(r, *a),
{
    ServiceRecordAmendment {
        amendment_id: a.amendment_id.clone(),
        original_record_id: a.original_record_id.clone(),
        amendment_type: a.amendment_type.clone(),
        reason: a.reason.clone(),
        actor: a.actor.clone(),
        created_at_unix_ms: a.created_at_unix_ms,
    }
}

/// What amending record `original` does: with such a record, one amendment
/// is appended and nothing else changes.
pub open spec fn amend_post(
    old: RetailLedger,
    original: Seq<char>,
    amendment_type: Seq<char>,
    reason: Seq<char>,
    now: u64,
    new: RetailLedger,
    r: Result<ServiceRecordAmendment, crate::retail_application::RetailError>,
) -> bool {
    if !(exists|j: int| 0 <= j < old.record_rows().len() && (#[trigger] old.record_rows()[j]).record_id@ == original) {
        super::invalid_as(r, "original service record does not exist"@) && new == old
    } else {
        &&& r matches Ok(a) && {
            &&& a.amendment_id@ == amendment_id_text(old.amendment_rows().len())
            &&& a.original_record_id@ == original
            &&& a.amendment_type@ == amendment_type
            &&& a.reason@ == reason
            &&& a.actor@ == "casp-admin-demo"@
            &&& a.created_at_unix_ms == now
            &&& new.amendment_rows().len() == old.amendment_rows().len() + 1
            &&& new.amendment_rows().drop_last() == old.amendment_rows()
            &&& same_amendment(new.amendment_rows().last(), a)
        }
        &&& new.record_rows() == old.record_rows()
        &&& super::same_but_amendments(old, new)
    }
}

/// Some record belongs to operation `id`.
pub open spec fn has_record_for(rows: Seq<RecordRow>, id: Seq<char>) -> bool {
    exists|j: int| 0 <= j < rows.len() && (#[trigger] rows[j]).operation_id@ == id
}

/// Record `k` is an earliest record of operation `id`.
pub open spec fn is_earliest(rows: Seq<RecordRow>, id: Seq<char>, k: int) -> bool {
    &&& 0 <= k < rows.len()
    &&& rows[k].operation_id@ == id
    &&& forall|j: int|
        0 <= j < rows.len() && (#[trigger] rows[j]).operation_id@ == id ==> rows[k].created_at_unix_ms
            <= rows[j].created_at_unix_ms
}

/// Record `k` is a latest record of operation `id`.
pub open spec fn is_latest(rows: Seq<RecordRow>, id: Seq<char>, k: int) -> bool {
    &&& 0 <= k < rows.len()
    &&& rows[k].operation_id@ == id
    &&& forall|j: int|
        0 <= j < rows.len() && (#[trigger] rows[j]).operation_id@ == id ==> rows[k].created_at_unix_ms
            >= rows[j].created_at_unix_ms
}

/// Finds an earliest record of operation `id`.
pub(crate) fn earliest_record(rows: &Vec<RecordRow>, id: &str) -> (r: Option<usize>)
    ensures
        match r {
            Some(k) => is_earliest(rows@, id@, k as int),
            None => !has_record_for(rows@, id@),
        },
{
    let mut best: Option<usize> = None;
    let mut k: usize = 0;
    while k < rows.len()
        invariant
            k <= rows@.len(),
            match best {
                Some(b) => b < k && rows@[b as int].operation_id@ == id@ && forall|j: int|
                    0 <= j < k && (#[trigger] rows@[j]).operation_id@ == id@ ==> rows@[b as int].created_at_unix_ms
                        <= rows@[j].created_at_unix_ms,
                None => forall|j: int| 0 <= j < k ==> (#[trigger] rows@[j]).operation_id@ != id@,
            },
        decreases rows.len() - k,
    {
        if str_eq(rows[k].operation_id.as_str(), id) {
            match best {
                Some(b) => {
                    if rows[k].created_at_unix_ms < rows[b].created_at_unix_ms {
                        best = Some(k);
                    }
                },
                None => {
                    best = Some(k);
                },
            }
        }
        k = k + 1;
    }
    best
}

/// Finds a latest record of operation `id`.
pub(crate) fn latest_record(rows: &Vec<RecordRow>, id: &str) -> (r: Option<usize>)
    ensures
        match r {
            Some(k) => is_latest(rows@, id@, k as int),
            None => !has_record_for(rows@, id@),
        },
{
    let mut best: Option<usize> = None;
    let mut k: usize = 0;
    while k < rows.len()
        invariant
            k <= rows@.len(),
            match best {
                Some(b) => b < k && rows@[b as int].operation_id@ == id@ && forall|j: int|
                    0 <= j < k && (#[trigger] rows@[j]).operation_id@ == id@ ==> rows@[b as int].created_at_unix_ms
                        >= rows@[j].created_at_unix_ms,
                None => forall|j: int| 0 <= j < k ==> (#[trigger] rows@[j]).operation_id@ != id@,
            },
        decreases rows.len() - k,
    {
        if str_eq(rows[k].operation_id.as_str(), id) {
            match best {
                Some(b) => {
                    if rows[k].created_at_unix_ms >= rows[b].created_at_unix_ms {
                        best = Some(k);
                    }
                },
                None => {
                    best = Some(k);
                },
            }
        }
        k = k + 1;
    }
    best
}

/// `new` is record `old` with its failure noted at `now` for `reason`.
pub open spec fn failed_record(old: RecordRow, new: RecordRow, reason: Seq<char>, now: u64) -> bool {
    &&& new.record_id == old.record_id
    &&& new.operation_id == old.operation_id
    &&& new.client_id == old.client_id
    &&& new.service_type == old.service_type
    &&& new.order_type == old.order_type
    &&& new.contract_address == old.contract_address
    &&& new.chain_id == old.chain_id
    &&& new.quantity_raw == old.quantity_raw
    &&& new.gross_fiat_minor == old.gross_fiat_minor
    &&& new.status == old.status
    &&& new.source_account == old.source_account
    &&& new.destination_account == old.destination_account
    &&& new.blockchain_transaction_hash == old.blockchain_transaction_hash
    &&& new.decision_actor == old.decision_actor
    &&& new.created_at_unix_ms == old.created_at_unix_ms
    &&& old.details matches Some(o) && new.details matches Some(d) && {
        &&& d.received_at_unix_ms == o.received_at_unix_ms
        &&& d.accepted_at_unix_ms == o.accepted_at_unix_ms
        &&& d.executed_at_unix_ms == o.executed_at_unix_ms
        &&& d.settled_at_unix_ms == o.settled_at_unix_ms
        &&& d.failed_at_unix_ms == Some(now)
        &&& d.price_method == o.price_method
        &&& d.unit_price_minor == o.unit_price_minor
        &&& d.gross_quantity_raw == o.gross_quantity_raw
        &&& d.net_quantity_raw == o.net_quantity_raw
        &&& d.fee_quantity_raw == o.fee_quantity_raw
        &&& d.instruction_channel == o.instruction_channel
        &&& d.execution_actor == o.execution_actor
        &&& d.policy_version == o.policy_version
        &&& opt_text(d.rejection_reason) == Some(reason)
        &&& d.retention_until_unix_ms == o.retention_until_unix_ms
    }
}

/// The failure of operation `id` noted on its latest record, when that
/// record carries execution details.
pub open spec fn records_failed(old: Seq<RecordRow>, id: Seq<char>, reason: Seq<char>, now: u64, new: Seq<RecordRow>) -> bool {
    if !has_record_for(old, id) {
        new == old
    } else {
        exists|k: int|
            #[trigger] is_latest(old, id, k) && if old[k].details is None {
                new == old
            } else {
                new == old.update(k, new[k]) && failed_record(old[k], new[k], reason, now)
            }
    }
}

/// Notes the failure of operation `id` on its latest record.
pub(crate) fn fail_latest_record(rows: &mut Vec<RecordRow>, id: &str, reason: &str, now: u64)
    ensures
        records_failed(old(rows)@, id@, reason@, now, final(rows)@),
{
    let k = match latest_record(rows, id) {
        Some(k) => k,
        None => return,
    };
    let r = &rows[k];
    let details = match &r.details {
        Some(d) => RecordDetails {
            received_at_unix_ms: d.received_at_unix_ms,
            accepted_at_unix_ms: d.accepted_at_unix_ms,
            executed_at_unix_ms: d.executed_at_unix_ms,
            settled_at_unix_ms: d.settled_at_unix_ms,
            failed_at_unix_ms: Some(now),
            price_method: d.price_method.clone(),
            unit_price_minor: d.unit_price_minor,
            gross_quantity_raw: d.gross_quantity_raw,
            net_quantity_raw: d.net_quantity_raw,
            fee_quantity_raw: d.fee_quantity_raw,
            instruction_channel: d.instruction_channel.clone(),
            execution_actor: d.execution_actor.clone(),
            policy_version: d.policy_version.clone(),
            rejection_reason: Some(reason.to_owned()),
            retention_until_unix_ms: d.retention_until_unix_ms,
        },
        None => {
            assert(is_latest(old(rows)@, id@, k as int));
            return;
        },
    };
    let row = RecordRow {
        record_id: r.record_id.clone(),
        operation_id: r.operation_id.clone(),
        client_id: r.client_id.clone(),
        service_type: r.service_type.clone(),
        order_type: r.order_type.clone(),
        contract_address: r.contract_address.clone(),
        chain_id: r.chain_id,
        quantity_raw: r.quantity_raw,
        gross_fiat_minor: r.gross_fiat_minor,
        status: r.status.clone(),
        source_account: opt_clone(&r.source_account),
        destination_account: opt_clone(&r.destination_account),
        blockchain_transaction_hash: opt_clone(&r.blockchain_transaction_hash),
        decision_actor: r.decision_actor.clone(),
        created_at_unix_ms: r.created_at_unix_ms,
        details: Some(details),
    };
    rows.set(k, row);
    assert(is_latest(old(rows)@, id@, k as int));
    assert(final(rows)@ == old(rows)@.update(k as int, final(rows)@[k as int]));
}

} // verus!
