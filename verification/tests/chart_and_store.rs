use fb_ledger::accounts::{account_type_code, parse_account_type, parse_subledger_type, replace_all, resolve_template, subledger_type_code, AccountRow};
use fb_ledger::attributes::AttributeBag;
use fb_ledger::batch::{fast_should_flush, insert_sql, EntryBatch, SimpleEntryWriter};
use fb_ledger::config::{default_db_url, default_host, default_log_level, default_max_connections, default_port, default_schema, Config, DatabaseConfig, LoggingConfig, ServerConfig, TenantConfig};
use fb_ledger::decimal::Dec;
use fb_ledger::event_store::{append, EventStoreError, NewEvent};
use fb_ledger::models::{Account, JournalEntry, ResolveContext};
use fb_ledger::types::{AccountType, Side, SubledgerType};

fn ctx(attrs: Option<AttributeBag>) -> ResolveContext {
    ResolveContext {
        tenant_id: 0x550e8400_e29b_41d4_a716_446655440000,
        geo: "us-east".to_string(),
        desk: "ny-fi".to_string(),
        currency: "USD".to_string(),
        attributes: attrs,
    }
}

fn new_event(t: &str) -> NewEvent {
    NewEvent { event_type: t.to_string(), data: "{}".to_string() }
}

#[test]
fn account_type_codes_round_trip() {
    for t in [AccountType::Asset, AccountType::Liability, AccountType::Equity, AccountType::Income, AccountType::Expense] {
        assert_eq!(parse_account_type(&account_type_code(t)), t);
    }
    for t in [SubledgerType::Trading, SubledgerType::Cash, SubledgerType::PNL, SubledgerType::Settlement, SubledgerType::Position] {
        assert_eq!(parse_subledger_type(&subledger_type_code(t)), t);
    }
    assert_eq!(account_type_code(AccountType::Liability), "LIABILITY");
    assert_eq!(subledger_type_code(SubledgerType::PNL), "PNL");
    assert_eq!(parse_account_type("asset"), AccountType::Asset);
    assert_eq!(parse_account_type("??"), AccountType::Asset);
    assert_eq!(parse_subledger_type("cash"), SubledgerType::Trading);
}

#[test]
fn stored_row_reads_as_account() {
    let row = AccountRow {
        id: 1,
        tenant_id: 2,
        geo: "us-east".to_string(),
        account_code: "PNL-fee-ny-fi".to_string(),
        account_name: "Fees".to_string(),
        display_name: None,
        display_code: Some("F1".to_string()),
        account_type: "EXPENSE".to_string(),
        subledger_type: Some("PNL".to_string()),
        currency: "USD".to_string(),
        balance: Dec::from_small(0, 0),
        frozen_balance: Dec::from_small(0, 0),
        version: 3,
        sequence_number: 4,
        status: "active".to_string(),
        attributes: None,
        contract_name: None,
        contract_version: None,
        created_at: 5,
        updated_at: 6,
    };
    let a = Account::from_row(row);
    assert_eq!(a.account_type, AccountType::Expense);
    assert_eq!(a.subledger_type, Some(SubledgerType::PNL));
    assert_eq!(a.display_code.as_deref(), Some("F1"));
    assert_eq!(a.version, 3);
}

#[test]
fn replace_all_matches_str_replace() {
    for (s, p, t) in [("a{x}b{x}c", "{x}", "Y"), ("aaaa", "aa", "b"), ("héllo {x}", "{x}", "wörld"), ("none", "{x}", "Y"), ("{x}", "{x}", "")] {
        assert_eq!(replace_all(s, p, t), s.replace(p, t));
    }
}

#[test]
fn template_resolves_context_and_drops_unknown_placeholders() {
    let c = ctx(None);
    assert_eq!(
        resolve_template("{tenant_id}/{geo}/{desk}/{currency}/{instrument_id}{counterparty}", &c),
        "550e8400-e29b-41d4-a716-446655440000/us-east/ny-fi/USD/"
    );
    let mut bag = AttributeBag::new();
    bag.set_string("instrument_id", "AAPL");
    bag.set_string("counterparty", "GSCO");
    let c2 = ctx(Some(bag));
    assert_eq!(resolve_template("TRADING-{desk}-{instrument_id}-{counterparty}-{instrument_type}", &c2), "TRADING-ny-fi-AAPL-GSCO-");
}

#[test]
fn append_numbers_events_after_latest() {
    let events = vec![new_event("TransactionPosted"), new_event("BalanceUpdated")];
    let stored = append(7, "Transaction", Some(4), Some(4), &events, &vec![101, 102], 999).unwrap();
    assert_eq!(stored.len(), 2);
    assert_eq!(stored[0].version, 5);
    assert_eq!(stored[1].version, 6);
    assert_eq!(stored[1].id, 102);
    assert_eq!(stored[0].event_type, "TransactionPosted");
    assert_eq!(stored[0].aggregate_type, "Transaction");
    let fresh = append(8, "Account", None, None, &vec![new_event("AccountOpened")], &vec![1], 0).unwrap();
    assert_eq!(fresh[0].version, 1);
    let fresh_expected = append(8, "Account", None, Some(0), &vec![new_event("AccountOpened")], &vec![1], 0).unwrap();
    assert_eq!(fresh_expected[0].version, 1);
}

#[test]
fn append_with_stale_version_conflicts() {
    let events = vec![new_event("X")];
    assert_eq!(
        append(7, "T", Some(4), Some(3), &events, &vec![1], 0).unwrap_err(),
        EventStoreError::ConcurrencyConflict { expected: 3, actual: 4 }
    );
    assert!(append(7, "T", Some(4), Some(3), &Vec::new(), &Vec::new(), 0).unwrap().is_empty());
}

#[test]
fn batch_is_due_at_its_size() {
    let mut b: EntryBatch<u32> = EntryBatch::new(2);
    assert!(b.is_empty());
    assert_eq!(b.buffer_size(), 2);
    b.push(1);
    assert!(!b.needs_flush());
    b.push(2);
    assert_eq!(b.len(), 2);
    assert!(b.needs_flush());
    assert_eq!(b.take(), vec![1, 2]);
    assert!(b.is_empty());
    assert_eq!(b.buffer_size(), 2);
}

#[test]
fn memory_writer_keeps_entries() {
    let mut w = SimpleEntryWriter::new();
    let e = JournalEntry {
        id: 1,
        tenant_id: 1,
        transaction_id: 1,
        entry_sequence: 1,
        account_id: 1,
        amount: Dec::from_small(1, 0),
        currency: "USD".to_string(),
        side: Side::Debit,
        value_date: 1,
        narrative: String::new(),
        metadata: None,
        posted_at: 0,
    };
    w.write_entries(vec![e.clone(), e.clone()]);
    w.write_entries(vec![e]);
    assert_eq!(w.take_entries().len(), 3);
    assert!(w.take_entries().is_empty());
}

#[test]
fn fast_writer_statement() {
    assert!(!fast_should_flush(999));
    assert!(fast_should_flush(1000));
    let sql = insert_sql(2);
    assert_eq!(
        sql,
        "INSERT INTO journal_entries (id,tenant_id,transaction_id,entry_sequence,account_id,amount,currency,side,value_date,narrative,metadata,posted_at) VALUES \
($1::uuid,$2::uuid,$3::uuid,$4,$5::uuid,$6::numeric,$7,$8,$9,$10,'{}',$11),\
($12::uuid,$13::uuid,$14::uuid,$15,$16::uuid,$17::numeric,$18,$19,$20,$21,'{}',$22)"
    );
}

#[test]
fn configuration_defaults() {
    assert_eq!(default_host(), "127.0.0.1");
    assert_eq!(default_port(), 8080);
    assert_eq!(default_db_url(), "postgres://localhost:5432/fb");
    assert_eq!(default_max_connections(), 5);
    assert_eq!(default_log_level(), "info");
    assert_eq!(default_schema(), "public");
    let c = Config::default();
    assert_eq!(c.server.port, 8080);
    assert_eq!(c.tenants.len(), 1);
    assert_eq!(c.tenants[0].name, "Default Tenant");
    assert_eq!(TenantConfig::default().id, "default");
    assert_eq!(ServerConfig::default().host, "127.0.0.1");
    assert_eq!(DatabaseConfig::default().max_connections, 5);
    assert_eq!(LoggingConfig::default().level, "info");
}

#[test]
fn new_tenant_is_active() {
    let t = fb_ledger::models::Tenant::new_active(3, "JP Morgan AM", "jpmam", 77);
    assert_eq!(t.status, "active");
    assert_eq!(t.short_code, "jpmam");
    assert_eq!(t.created_at, 77);
    assert_eq!(t.updated_at, 77);
    assert!(t.metadata.is_none());
}
