//! The posting pipeline's decisions: ingest checks, validation and compliance
//! verdicts, assembling a generated transaction, the balance check and posting.
//! The stages that talk to contracts, resolvers, writers and services run
//! around these functions.
use vstd::prelude::*;
use crate::attributes::{lookup, AttributeBag};
use crate::decimal::{add_result, pair_units, Dec, Order};
use crate::errors::{is_pipeline_error, FbError, ValidationError, STAGE_CHECK, STAGE_INGEST, STAGE_VALIDATE};
use crate::models::{
    ComplianceCheckResult, EnrichedTransaction, JournalEntry, PostedTransaction, RawTransaction,
    SubledgerEntry, Transaction,
};
use crate::text::{decimal_text, owned, usize_text};
use crate::types::{AmountType, DateType, QuantityType, Side, TransactionStatus};

verus! {

/// Running total, from zero and with `rust_decimal`'s addition, of the amounts of
/// the entries on `side`, in entry order; `None` when a step overflows.
pub open spec fn side_total(s: Seq<JournalEntry>, side: Side) -> Option<(int, int)>
    decreases s.len(),
{
    if s.len() == 0 {
        Some((0, 0))
    } else {
        let prev = side_total(s.drop_last(), side);
        if s.last().side == side {
            match prev {
                Some(p) => add_result(p, s.last().amount.pair()),
                None => None,
            }
        } else {
            prev
        }
    }
}

/// Whether both side totals of `s` stay within range.
pub open spec fn totals_defined(s: Seq<JournalEntry>) -> bool {
    side_total(s, Side::Debit) is Some && side_total(s, Side::Credit) is Some
}

/// Whether the debit total of `s` equals its credit total in value.
pub open spec fn balanced(s: Seq<JournalEntry>) -> bool {
    pair_units(side_total(s, Side::Debit)->0) == pair_units(side_total(s, Side::Credit)->0)
}

/// A total that overflowed stays undefined for every longer sequence.
pub proof fn lemma_side_total_prefix(s: Seq<JournalEntry>, side: Side, i: int)
    requires
        0 <= i <= s.len(),
        side_total(s, side) is Some,
    ensures
        side_total(s.subrange(0, i), side) is Some,
    decreases s.len() - i,
{
    if i < s.len() {
        assert(s.drop_last() =~= s.subrange(0, s.len() - 1));
        lemma_side_total_prefix(s.drop_last(), side, i);
        assert(s.drop_last().subrange(0, i) =~= s.subrange(0, i));
    } else {
        assert(s.subrange(0, i) =~= s);
    }
}

/// The debit and credit totals of the entries, summed in order from zero;
/// `None` when either total overflows.
pub fn side_totals(entries: &[JournalEntry]) -> (r: Option<(Dec, Dec)>)
    ensures
        r is Some <==> totals_defined(entries@),
        r matches Some((d, c)) ==> d.pair() == side_total(entries@, Side::Debit)->0 && c.pair()
            == side_total(entries@, Side::Credit)->0,
{
    let mut debit = Dec::zero();
    let mut credit = Dec::zero();
    let mut debit_ok = true;
    let mut credit_ok = true;
    let mut i: usize = 0;
    while i < entries.len()
        invariant
            i <= entries@.len(),
            debit_ok == (side_total(entries@.subrange(0, i as int), Side::Debit) is Some),
            credit_ok == (side_total(entries@.subrange(0, i as int), Side::Credit) is Some),
            debit_ok ==> debit.pair() == side_total(entries@.subrange(0, i as int), Side::Debit)->0,
            credit_ok ==> credit.pair() == side_total(entries@.subrange(0, i as int), Side::Credit)->0,
        decreases entries.len() - i,
    {
        let e = &entries[i];
        proof {
            assert(entries@.subrange(0, i + 1).drop_last() =~= entries@.subrange(0, i as int));
        }
        match e.side {
            Side::Debit => {
                if debit_ok {
                    match debit.checked_add(&e.amount) {
                        Some(t) => {
                            debit = t;
                        },
                        None => {
                            debit_ok = false;
                        },
                    }
                }
            },
            Side::Credit => {
                if credit_ok {
                    match credit.checked_add(&e.amount) {
                        Some(t) => {
                            credit = t;
                        },
                        None => {
                            credit_ok = false;
                        },
                    }
                }
            },
        }
        i = i + 1;
    }
    proof {
        assert(entries@.subrange(0, entries@.len() as int) =~= entries@);
    }
    if debit_ok && credit_ok {
        Some((debit, credit))
    } else {
        None
    }
}

/// Checks that the entries' debits equal their credits in value; otherwise the
/// error is `Unbalanced`.
pub fn verify_balance(entries: &[JournalEntry]) -> (r: Result<(), FbError>)
    requires
        totals_defined(entries@),
    ensures
        r is Ok <==> balanced(entries@),
        r is Err ==> r matches Err(FbError::Unbalanced),
{
    match side_totals(entries) {
        Some((d, c)) => {
            match d.compare(&c) {
                Order::Equal => Ok(()),
                _ => Err(FbError::Unbalanced),
            }
        },
        None => Err(FbError::Unbalanced),
    }
}

/// `verify_balance` where its totals stay within range; `None` where a total
/// overflows.
pub fn checked_verify_balance(entries: &[JournalEntry]) -> (r: Option<Result<(), FbError>>)
    ensures
        r is None <==> !totals_defined(entries@),
        r matches Some(v) ==> ((v is Ok <==> balanced(entries@)) && (v is Err ==> v matches Err(FbError::Unbalanced))),
{
    if side_totals(entries).is_some() {
        Some(verify_balance(entries))
    } else {
        None
    }
}

/// The balance check of a generated transaction: it needs at least one entry
/// (else the CHECK error "empty entries" for "tx") and balanced entries.
pub fn check(posted: &PostedTransaction) -> (r: Result<(), FbError>)
    requires
        totals_defined(posted.entries@),
    ensures
        posted.entries@.len() == 0 ==> (r matches Err(e) && is_pipeline_error(e, STAGE_CHECK@, "tx"@, "empty entries"@)),
        posted.entries@.len() > 0 ==> (r is Ok <==> balanced(posted.entries@)),
        posted.entries@.len() > 0 && r is Err ==> r matches Err(FbError::Unbalanced),
{
    if posted.entries.len() == 0 {
        return Err(FbError::check("tx", "empty entries"));
    }
    verify_balance(posted.entries.as_slice())
}

/// `check` where the entry totals stay within range; `None` where a total overflows.
pub fn checked_check(posted: &PostedTransaction) -> (r: Option<Result<(), FbError>>)
    ensures
        r is None <==> !totals_defined(posted.entries@),
        r matches Some(v) ==> {
            &&& posted.entries@.len() == 0 ==> (v matches Err(e) && is_pipeline_error(e, STAGE_CHECK@, "tx"@, "empty entries"@))
            &&& posted.entries@.len() > 0 ==> (v is Ok <==> balanced(posted.entries@))
        },
{
    if side_totals(posted.entries.as_slice()).is_some() {
        Some(check(posted))
    } else {
        None
    }
}

/// The ingest stage: a transaction needs an instrument type and an instrument id.
pub fn ingest(raw: RawTransaction) -> (r: Result<RawTransaction, FbError>)
    ensures
        raw.instrument_type@.len() == 0 ==> (r matches Err(e) && is_pipeline_error(
            e,
            STAGE_INGEST@,
            "unknown"@,
            "instrument_type required"@,
        )),
        raw.instrument_type@.len() != 0 && raw.instrument_id@.len() == 0 ==> (r matches Err(e)
            && is_pipeline_error(e, STAGE_INGEST@, "unknown"@, "instrument_id required"@)),
        raw.instrument_type@.len() != 0 && raw.instrument_id@.len() != 0 ==> r == Ok::<RawTransaction, FbError>(raw),
{
    if raw.instrument_type.as_str().is_empty() {
        return Err(FbError::ingest("unknown", "instrument_type required"));
    }
    if raw.instrument_id.as_str().is_empty() {
        return Err(FbError::ingest("unknown", "instrument_id required"));
    }
    Ok(raw)
}

/// The validate stage's verdict on a contract's validation errors: none is fine;
/// otherwise the VALIDATE error for "tx" names the first one as "field: message".
pub fn validate(errs: &Vec<ValidationError>) -> (r: Result<(), FbError>)
    ensures
        errs@.len() == 0 <==> r is Ok,
        errs@.len() > 0 ==> (r matches Err(e) && is_pipeline_error(
            e,
            STAGE_VALIDATE@,
            "tx"@,
            errs@[0].field@ + ": "@ + errs@[0].message@,
        )),
{
    if errs.len() == 0 {
        return Ok(());
    }
    let mut reason = errs[0].field.clone();
    reason.append(": ");
    reason.append(errs[0].message.as_str());
    Err(FbError::validate("tx", reason.as_str()))
}

/// The enrich stage's result: the transaction with the attributes its contract
/// derived, the contract's name and schema version, and no contract version.
pub fn enrich(raw: RawTransaction, derived: AttributeBag, enricher_name: &str, enricher_version: &str) -> (r: EnrichedTransaction)
    ensures
        r.raw == raw,
        r.derived_attributes == Some(derived),
        r.enricher_name@ == enricher_name@,
        r.enricher_version@ == enricher_version@,
        r.contract_version is None,
{
    EnrichedTransaction {
        raw,
        derived_attributes: Some(derived),
        enricher_name: owned(enricher_name),
        enricher_version: owned(enricher_version),
        contract_version: None,
    }
}

/// A copy of an optional text.
fn copy_opt_text(o: &Option<String>) -> (r: Option<String>)
    ensures
        r == *o,
{
    match o {
        Some(s) => Some(s.clone()),
        None => None,
    }
}

/// A copy of an optional attribute bag holding the same pairs.
fn copy_opt_bag(o: &Option<AttributeBag>) -> (r: Option<AttributeBag>)
    ensures
        r is Some <==> o is Some,
        r matches Some(b) ==> b@ == o->0@,
{
    match o {
        Some(b) => Some(b.duplicate()),
        None => None,
    }
}

/// The entries stamped with a transaction and tenant, in order.
pub fn stamp_entries(entries: Vec<JournalEntry>, tx_id: u128, tenant_id: u128) -> (r: Vec<JournalEntry>)
    ensures
        r@.len() == entries@.len(),
        forall|i: int| 0 <= i < r@.len() ==> #[trigger] r@[i] == (JournalEntry {
            transaction_id: tx_id,
            tenant_id: tenant_id,
            ..entries@[i]
        }),
{
    let mut rest = entries;
    let mut out: Vec<JournalEntry> = Vec::new();
    let ghost all = rest@;
    while rest.len() > 0
        invariant
            out@.len() + rest@.len() == all.len(),
            rest@ == all.subrange(out@.len() as int, all.len() as int),
            forall|i: int| 0 <= i < out@.len() ==> #[trigger] out@[i] == (JournalEntry {
                transaction_id: tx_id,
                tenant_id: tenant_id,
                ..all[i]
            }),
        decreases rest.len(),
    {
        let mut e = rest.remove(0);
        e.transaction_id = tx_id;
        e.tenant_id = tenant_id;
        out.push(e);
        assert(rest@ =~= all.subrange(out@.len() as int, all.len() as int));
    }
    out
}

/// The subledger entries stamped with a transaction and tenant, in order.
pub fn stamp_subledger_entries(entries: Vec<SubledgerEntry>, tx_id: u128, tenant_id: u128) -> (r: Vec<SubledgerEntry>)
    ensures
        r@.len() == entries@.len(),
        forall|i: int| 0 <= i < r@.len() ==> #[trigger] r@[i] == (SubledgerEntry {
            transaction_id: tx_id,
            tenant_id: tenant_id,
            ..entries@[i]
        }),
{
    let mut rest = entries;
    let mut out: Vec<SubledgerEntry> = Vec::new();
    let ghost all = rest@;
    while rest.len() > 0
        invariant
            out@.len() + rest@.len() == all.len(),
            rest@ == all.subrange(out@.len() as int, all.len() as int),
            forall|i: int| 0 <= i < out@.len() ==> #[trigger] out@[i] == (SubledgerEntry {
                transaction_id: tx_id,
                tenant_id: tenant_id,
                ..all[i]
            }),
        decreases rest.len(),
    {
        let mut e = rest.remove(0);
        e.transaction_id = tx_id;
        e.tenant_id = tenant_id;
        out.push(e);
        assert(rest@ =~= all.subrange(out@.len() as int, all.len() as int));
    }
    out
}

/// The entries with their posting instant set, in order.
pub fn stamp_posted_at(entries: Vec<JournalEntry>, now: i64) -> (r: Vec<JournalEntry>)
    ensures
        r@.len() == entries@.len(),
        forall|i: int| 0 <= i < r@.len() ==> #[trigger] r@[i] == (JournalEntry { posted_at: now, ..entries@[i] }),
{
    let mut rest = entries;
    let mut out: Vec<JournalEntry> = Vec::new();
    let ghost all = rest@;
    while rest.len() > 0
        invariant
            out@.len() + rest@.len() == all.len(),
            rest@ == all.subrange(out@.len() as int, all.len() as int),
            forall|i: int| 0 <= i < out@.len() ==> #[trigger] out@[i] == (JournalEntry { posted_at: now, ..all[i] }),
        decreases rest.len(),
    {
        let mut e = rest.remove(0);
        e.posted_at = now;
        out.push(e);
        assert(rest@ =~= all.subrange(out@.len() as int, all.len() as int));
    }
    out
}

/// The generate stage's result for generated entries: a validated transaction
/// with id `tx_id` carrying the enriched transaction's data (its root is
/// `new_root_id` when it names none), created at `now`, with the entries and
/// subledger entries stamped with its id and tenant, and no child transactions.
pub fn generate(
    enriched: &EnrichedTransaction,
    entries: Vec<JournalEntry>,
    subledger_entries: Vec<SubledgerEntry>,
    tx_id: u128,
    new_root_id: u128,
    now: i64,
) -> (r: PostedTransaction)
    ensures
        r.transaction.id == tx_id,
        r.transaction.tenant_id == enriched.raw.tenant_id,
        r.transaction.instrument_type == enriched.raw.instrument_type,
        r.transaction.instrument_id == enriched.raw.instrument_id,
        r.transaction.parent_tx_id == enriched.raw.parent_tx_id,
        r.transaction.root_tx_id == (match enriched.raw.root_tx_id {
            Some(x) => x,
            None => new_root_id,
        }),
        r.transaction.link_type == enriched.raw.link_type,
        r.transaction.link_depth == enriched.raw.link_depth,
        r.transaction.input_attributes@ == enriched.raw.attributes@,
        r.transaction.derived_attributes is Some <==> enriched.derived_attributes is Some,
        r.transaction.derived_attributes matches Some(d) ==> d@ == enriched.derived_attributes->0@,
        r.transaction.enricher_name == enriched.enricher_name,
        r.transaction.enricher_version == enriched.enricher_version,
        r.transaction.contract_version == enriched.contract_version,
        r.transaction.status == TransactionStatus::Validated,
        r.transaction.idempotency_key == enriched.raw.idempotency_key,
        r.transaction.error_reason is None,
        r.transaction.metadata is None,
        r.transaction.created_at == now,
        r.transaction.posted_at is None,
        r.entries@.len() == entries@.len(),
        forall|i: int| 0 <= i < r.entries@.len() ==> #[trigger] r.entries@[i] == (JournalEntry {
            transaction_id: tx_id,
            tenant_id: enriched.raw.tenant_id,
            ..entries@[i]
        }),
        r.subledger_entries@.len() == subledger_entries@.len(),
        forall|i: int| 0 <= i < r.subledger_entries@.len() ==> #[trigger] r.subledger_entries@[i] == (SubledgerEntry {
            transaction_id: tx_id,
            tenant_id: enriched.raw.tenant_id,
            ..subledger_entries@[i]
        }),
        r.child_txs@.len() == 0,
{
    let raw = &enriched.raw;
    let root = match raw.root_tx_id {
        Some(x) => x,
        None => new_root_id,
    };
    let tx = Transaction {
        id: tx_id,
        tenant_id: raw.tenant_id,
        instrument_type: raw.instrument_type.clone(),
        instrument_id: raw.instrument_id.clone(),
        parent_tx_id: raw.parent_tx_id,
        root_tx_id: root,
        link_type: copy_opt_text(&raw.link_type),
        link_depth: raw.link_depth,
        input_attributes: raw.attributes.duplicate(),
        derived_attributes: copy_opt_bag(&enriched.derived_attributes),
        enricher_name: enriched.enricher_name.clone(),
        enricher_version: enriched.enricher_version.clone(),
        contract_version: copy_opt_text(&enriched.contract_version),
        status: TransactionStatus::Validated,
        idempotency_key: raw.idempotency_key,
        error_reason: None,
        metadata: None,
        created_at: now,
        posted_at: None,
    };
    let tenant_id = raw.tenant_id;
    PostedTransaction {
        transaction: tx,
        entries: stamp_entries(entries, tx_id, tenant_id),
        subledger_entries: stamp_subledger_entries(subledger_entries, tx_id, tenant_id),
        child_txs: Vec::new(),
    }
}

/// The post stage's bookkeeping: the transaction becomes posted at `now` and
/// every entry gets `now` as its posting instant.
pub fn post(posted: &mut PostedTransaction, now: i64)
    ensures
        final(posted).transaction == (Transaction {
            status: TransactionStatus::Posted,
            posted_at: Some(now),
            ..old(posted).transaction
        }),
        final(posted).entries@.len() == old(posted).entries@.len(),
        forall|i: int| 0 <= i < final(posted).entries@.len() ==> #[trigger] final(posted).entries@[i] == (JournalEntry {
            posted_at: now,
            ..old(posted).entries@[i]
        }),
        final(posted).subledger_entries == old(posted).subledger_entries,
        final(posted).child_txs == old(posted).child_txs,
{
    posted.transaction.status = TransactionStatus::Posted;
    posted.transaction.posted_at = Some(now);
    let mut entries: Vec<JournalEntry> = Vec::new();
    std::mem::swap(&mut entries, &mut posted.entries);
    posted.entries = stamp_posted_at(entries, now);
}

/// What the compliance checker is asked about a transaction.
#[derive(Debug, Clone)]
pub struct ComplianceRequest {
    pub counterparty: String,
    pub desk: String,
    pub amount: Dec,
    pub trade_date: i32,
}

/// The compliance question for a transaction: its "counterparty" and "desk"
/// strings (empty when absent), its traded quantity (else its gross amount, else
/// zero) and its trade date (else `today`).
pub fn compliance_request(raw: &RawTransaction, today: i32) -> (r: ComplianceRequest)
    ensures
        r.counterparty@ == (match lookup(raw.attributes@.strings, "counterparty"@) {
            Some(v) => v,
            None => Seq::empty(),
        }),
        r.desk@ == (match lookup(raw.attributes@.strings, "desk"@) {
            Some(v) => v,
            None => Seq::empty(),
        }),
        lookup(raw.attributes@.quantities, QuantityType::Traded) matches Some(q) ==> r.amount == q,
        lookup(raw.attributes@.quantities, QuantityType::Traded) is None ==> (match lookup(
            raw.attributes@.amounts,
            AmountType::Gross,
        ) {
            Some(g) => r.amount == g,
            None => r.amount.pair() == (0int, 0int),
        }),
        r.trade_date == (match lookup(raw.attributes@.dates, DateType::Trade) {
            Some(d) => d,
            None => today,
        }),
{
    let counterparty = match raw.attributes.get_string("counterparty") {
        Some(v) => v,
        None => String::new(),
    };
    let desk = match raw.attributes.get_string("desk") {
        Some(v) => v,
        None => String::new(),
    };
    let amount = match raw.attributes.get_quantity(QuantityType::Traded) {
        Some(q) => q,
        None => match raw.attributes.get_amount(AmountType::Gross) {
            Some(g) => g,
            None => Dec::zero(),
        },
    };
    let trade_date = match raw.attributes.get_date(DateType::Trade) {
        Some(d) => d,
        None => today,
    };
    ComplianceRequest { counterparty, desk, amount, trade_date }
}

/// The verdict of the compliance step: a blocked result stops the transaction
/// with the VALIDATE error for "compliance" "blocked: <n> alerts".
pub fn compliance_gate(result: &ComplianceCheckResult) -> (r: Result<(), FbError>)
    ensures
        !result.blocked <==> r is Ok,
        result.blocked ==> (r matches Err(e) && is_pipeline_error(
            e,
            STAGE_VALIDATE@,
            "compliance"@,
            "blocked: "@ + decimal_text(result.alerts@.len()) + " alerts"@,
        )),
{
    if result.blocked {
        let mut reason = owned("blocked: ");
        let n = usize_text(result.alerts.len());
        reason.append(n.as_str());
        reason.append(" alerts");
        return Err(FbError::validate("compliance", reason.as_str()));
    }
    Ok(())
}

/// The amount fees are charged on: the derived settlement amount, else zero.
pub fn fee_basis(enriched: &EnrichedTransaction) -> (r: Dec)
    ensures
        (match enriched.derived_attributes {
            Some(d) => match lookup(d@.amounts, AmountType::Settlement) {
                Some(v) => r == v,
                None => r.pair() == (0int, 0int),
            },
            None => r.pair() == (0int, 0int),
        }),
{
    match &enriched.derived_attributes {
        Some(d) => match d.get_amount(AmountType::Settlement) {
            Some(v) => v,
            None => Dec::zero(),
        },
        None => Dec::zero(),
    }
}

} // verus!
