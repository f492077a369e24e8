use fb_ledger::attributes::AttributeBag;
use fb_ledger::bond::BondContract;
use fb_ledger::decimal::Dec;
use fb_ledger::errors::{FbError, ValidationError};
use fb_ledger::models::{JournalEntry, PostedTransaction, RawTransaction};
use fb_ledger::pipeline::{check, checked_verify_balance, enrich, fee_basis, generate, ingest, post, validate, verify_balance, compliance_request};
use fb_ledger::template::{amount_type_from_str, entries_from_plans, fast_replace_ref, generate_entries, quantity_type_from_str, resolve_amount};
use fb_ledger::types::{AmountType, DateType, PriceType, QuantityType, Side, TransactionStatus};
use rust_decimal::Decimal;

fn d(m: i64, s: u32) -> Dec {
    Dec::from_small(m, s)
}

fn dec(x: Dec) -> Decimal {
    Decimal::from_i128_with_scale(x.mantissa(), x.scale())
}

fn raw_bond(qty: Option<Dec>) -> RawTransaction {
    let mut attrs = AttributeBag::new();
    if let Some(q) = qty {
        attrs.set_quantity(QuantityType::Traded, q);
    }
    attrs.set_price(PriceType::Clean, d(9825, 4));
    attrs.set_string("desk", "ny-fi");
    attrs.set_string("counterparty", "GSCO");
    attrs.set_date(DateType::Trade, 738000);
    RawTransaction {
        tenant_id: 5,
        instrument_type: "BOND".to_string(),
        instrument_id: "US037833AK99".to_string(),
        parent_tx_id: None,
        root_tx_id: None,
        link_type: None,
        link_depth: 0,
        attributes: attrs,
        idempotency_key: None,
        metadata: None,
    }
}

fn entry(side: Side, amount: Dec) -> JournalEntry {
    JournalEntry {
        id: 1,
        tenant_id: 1,
        transaction_id: 1,
        entry_sequence: 1,
        account_id: 1,
        amount,
        currency: "USD".to_string(),
        side,
        value_date: 1,
        narrative: String::new(),
        metadata: None,
        posted_at: 0,
    }
}

#[test]
fn error_texts() {
    assert_eq!(FbError::Unbalanced.to_text(), "debits do not equal credits");
    assert_eq!(FbError::AccountNotFound.to_text(), "account not found");
    assert_eq!(FbError::ingest("tx1", "bad").to_text(), "[INGEST] tx1: bad");
    assert_eq!(FbError::check("tx2", "empty entries").to_text(), "[CHECK] tx2: empty entries");
    assert_eq!(FbError::enrich("a", "b").to_text(), "[ENRICH] a: b");
    assert_eq!(FbError::generate("a", "b").to_text(), "[GENERATE] a: b");
    assert_eq!(FbError::pipeline("DB", "tax", "down").to_text(), "[DB] tax: down");
    let v = ValidationError { field: "quantity.traded".to_string(), code: "MISSING".to_string(), message: "required".to_string() };
    assert_eq!(v.to_text(), "quantity.traded: required (MISSING)");
}

#[test]
fn side_texts_round_trip() {
    assert_eq!(Side::Debit.to_text(), "DEBIT");
    assert_eq!(Side::try_from_str("CREDIT"), Ok(Side::Credit));
    assert_eq!(Side::try_from_str(&Side::Debit.to_text()), Ok(Side::Debit));
    assert_eq!(Side::try_from_str("debit"), Err("invalid side: debit".to_string()));
}

#[test]
fn ingest_requires_instrument() {
    let mut tx = raw_bond(Some(d(100, 0)));
    assert!(ingest(tx.clone()).is_ok());
    tx.instrument_id = String::new();
    match ingest(tx.clone()) {
        Err(FbError::PipelineError { stage, reason, .. }) => {
            assert_eq!(stage, "INGEST");
            assert_eq!(reason, "instrument_id required");
        }
        other => panic!("unexpected {:?}", other),
    }
    tx.instrument_type = String::new();
    match ingest(tx) {
        Err(FbError::PipelineError { reason, tx_id, .. }) => {
            assert_eq!(reason, "instrument_type required");
            assert_eq!(tx_id, "unknown");
        }
        other => panic!("unexpected {:?}", other),
    }
}

#[test]
fn bond_validation_and_validate_stage() {
    let c = BondContract;
    assert!(c.validate(&raw_bond(Some(d(100, 0)))).is_empty());
    let errs = c.validate(&raw_bond(None));
    assert_eq!(errs.len(), 1);
    match validate(&errs) {
        Err(FbError::PipelineError { stage, tx_id, reason }) => {
            assert_eq!(stage, "VALIDATE");
            assert_eq!(tx_id, "tx");
            assert_eq!(reason, "quantity.traded: required");
        }
        other => panic!("unexpected {:?}", other),
    }
    assert!(validate(&Vec::new()).is_ok());
}

#[test]
fn bond_enrichment_amounts() {
    let c = BondContract;
    let tx = raw_bond(Some(d(1000000, 0)));
    let bag = c.enrich(&tx, 738000);
    let gross = Decimal::new(1000000, 0) * Decimal::new(9825, 4);
    let commission = gross * Decimal::new(5, 4);
    assert_eq!(dec(bag.get_amount(AmountType::Gross).unwrap()), gross);
    assert_eq!(dec(bag.get_amount(AmountType::Commission).unwrap()), commission);
    assert_eq!(dec(bag.get_amount(AmountType::Net).unwrap()), gross + commission);
    assert_eq!(dec(bag.get_amount(AmountType::Settlement).unwrap()), gross);
    assert_eq!(bag.get_date(DateType::Settlement), Some(738002));
    assert_eq!(bag.get_string("currency"), Some("USD".to_string()));
    assert!(c.checked_enrich(&tx, 738000).is_some());
    assert_eq!(c.name(), "bond_trade");
    assert_eq!(c.schema(7).instrument_type, "BOND");
}

#[test]
fn bond_booking_balances() {
    let c = BondContract;
    let tx = raw_bond(Some(d(2000000, 0)));
    let derived = c.enrich(&tx, 738000);
    let enriched = enrich(tx, derived, c.name(), "1.0.0");
    let rules = c.posting_rules();
    let planning = generate_entries(&rules.template, &enriched);
    assert_eq!(planning.plans.len(), 3);
    assert_eq!(planning.plans[0].account_code, "TRADING-ny-fi-US037833AK99");
    assert_eq!(planning.plans[1].account_code, "PNL-commission-ny-fi");
    assert_eq!(planning.plans[2].account_code, "CASH-ny-fi-USD");
    let entries = entries_from_plans(&planning.plans, &vec![11, 12, 13], &vec![21, 22, 23], 5, 738000, 0);
    assert_eq!(entries[0].account_id, 11);
    assert_eq!(entries[2].id, 23);
    assert_eq!(entries[1].entry_sequence, 2);
    assert!(verify_balance(&entries).is_ok());
    let debit = dec(entries[0].amount) + dec(entries[1].amount);
    assert_eq!(debit, dec(entries[2].amount));
    let posted = generate(&enriched, entries, Vec::new(), 99, 77, 1000);
    assert_eq!(posted.transaction.id, 99);
    assert_eq!(posted.transaction.root_tx_id, 77);
    assert_eq!(posted.transaction.status, TransactionStatus::Validated);
    assert!(posted.entries.iter().all(|e| e.transaction_id == 99 && e.tenant_id == 5));
    assert!(check(&posted).is_ok());
    let basis = fee_basis(&enriched);
    assert_eq!(dec(basis), Decimal::new(2000000, 0) * Decimal::new(9825, 4));
}

#[test]
fn unbalanced_entries_are_refused() {
    let entries = vec![entry(Side::Debit, d(100, 0)), entry(Side::Credit, d(9999, 2))];
    assert!(matches!(verify_balance(&entries), Err(FbError::Unbalanced)));
    assert!(matches!(checked_verify_balance(&entries), Some(Err(FbError::Unbalanced))));
    let equal_in_value = vec![entry(Side::Debit, d(100, 0)), entry(Side::Credit, d(10000, 2))];
    assert!(verify_balance(&equal_in_value).is_ok());
}

#[test]
fn empty_posting_fails_check() {
    let c = BondContract;
    let tx = raw_bond(Some(d(1, 0)));
    let derived = c.enrich(&tx, 1);
    let enriched = enrich(tx, derived, c.name(), "1.0.0");
    let posted = generate(&enriched, Vec::new(), Vec::new(), 1, 2, 3);
    match check(&posted) {
        Err(FbError::PipelineError { stage, reason, .. }) => {
            assert_eq!(stage, "CHECK");
            assert_eq!(reason, "empty entries");
        }
        other => panic!("unexpected {:?}", other),
    }
}

#[test]
fn posting_stamps_time() {
    let c = BondContract;
    let tx = raw_bond(Some(d(10, 0)));
    let derived = c.enrich(&tx, 1);
    let enriched = enrich(tx, derived, c.name(), "1.0.0");
    let entries = vec![entry(Side::Debit, d(1, 0)), entry(Side::Credit, d(1, 0))];
    let mut posted: PostedTransaction = generate(&enriched, entries, Vec::new(), 1, 2, 3);
    post(&mut posted, 555);
    assert_eq!(posted.transaction.status, TransactionStatus::Posted);
    assert_eq!(posted.transaction.posted_at, Some(555));
    assert!(posted.entries.iter().all(|e| e.posted_at == 555));
}

#[test]
fn template_placeholders_and_references() {
    let subs = vec![("desk".to_string(), "ny-eq".to_string()), ("desk".to_string(), "ny-fi".to_string())];
    assert_eq!(fast_replace_ref("CASH-{desk}-{ccy}", &subs), "CASH-ny-fi-{ccy}");
    assert_eq!(fast_replace_ref("no braces", &subs), "no braces");
    assert_eq!(amount_type_from_str("commission"), AmountType::Commission);
    assert_eq!(amount_type_from_str("nonsense"), AmountType::Gross);
    assert_eq!(quantity_type_from_str("pledged"), QuantityType::Pledged);
    assert_eq!(quantity_type_from_str("?"), QuantityType::Traded);
    let c = BondContract;
    let tx = raw_bond(Some(d(10, 0)));
    let derived = c.enrich(&tx, 1);
    let enriched = enrich(tx, derived, c.name(), "1.0.0");
    assert_eq!(dec(resolve_amount(&Some("$input.quantity.traded".to_string()), &enriched)), Decimal::new(10, 0));
    assert!(resolve_amount(&Some("$derived.amount.tax".to_string()), &enriched).is_zero());
    assert!(resolve_amount(&None, &enriched).is_zero());
}

#[test]
fn compliance_question_of_a_trade() {
    let tx = raw_bond(Some(d(250, 0)));
    let q = compliance_request(&tx, 1);
    assert_eq!(q.counterparty, "GSCO");
    assert_eq!(q.desk, "ny-fi");
    assert_eq!(dec(q.amount), Decimal::new(250, 0));
    assert_eq!(q.trade_date, 738000);
    let q2 = compliance_request(&raw_bond(None), 9);
    assert!(q2.amount.is_zero());
}

#[test]
fn template_keeps_text_outside_placeholders() {
    let subs = vec![("desk".to_string(), "ny-fi".to_string())];
    assert_eq!(fast_replace_ref("\u{e9}-{desk}", &subs), "\u{e9}-ny-fi");
    assert_eq!(fast_replace_ref("caf\u{e9} \u{4e2d}", &subs), "caf\u{e9} \u{4e2d}");
    assert_eq!(fast_replace_ref("{d\u{e9}sk}-{desk}", &subs), "{d\u{e9}sk}-ny-fi");
    assert_eq!(fast_replace_ref("{desk", &subs), "{desk");
}
