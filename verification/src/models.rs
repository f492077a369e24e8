//! The records of the ledger: transactions, journal and subledger entries,
//! accounts, tenants, instrument schemas, posting templates and positions, and
//! the stages a transaction passes through while it is booked.
//!
//! Identifiers are 128-bit numbers (the bits of a UUID), dates are day numbers
//! counted from 1 January of year 1 (that day is 1), and instants are
//! microseconds since the Unix epoch.  JSON documents are carried as text.
use vstd::prelude::*;
use crate::attributes::AttributeBag;
use crate::decimal::Dec;
use crate::types::{AccountType, LinkType, QuantityType, Side, SubledgerType, TransactionStatus};

verus! {

/// Event type of a posted transaction.
pub const EVENT_TRANSACTION_POSTED: &'static str = "TransactionPosted";
/// Event type of a failed transaction.
pub const EVENT_TRANSACTION_FAILED: &'static str = "TransactionFailed";
/// Event type of a cancelled transaction.
pub const EVENT_TRANSACTION_CANCELLED: &'static str = "TransactionCancelled";
/// Event type of an enriched transaction.
pub const EVENT_TRANSACTION_ENRICHED: &'static str = "TransactionEnriched";
/// Event type of an opened account.
pub const EVENT_ACCOUNT_OPENED: &'static str = "AccountOpened";
/// Event type of a frozen account.
pub const EVENT_ACCOUNT_FROZEN: &'static str = "AccountFrozen";
/// Event type of a closed account.
pub const EVENT_ACCOUNT_CLOSED: &'static str = "AccountClosed";
/// Event type of a position change.
pub const EVENT_POSITION_UPDATED: &'static str = "PositionUpdated";
/// Event type of a balance change.
pub const EVENT_BALANCE_UPDATED: &'static str = "BalanceUpdated";
/// Event type of a posted child transaction.
pub const EVENT_CHILD_TRANSACTION_POSTED: &'static str = "ChildTransactionPosted";
/// Aggregate type of transactions.
pub const AGGREGATE_TRANSACTION: &'static str = "Transaction";
/// Aggregate type of accounts.
pub const AGGREGATE_ACCOUNT: &'static str = "Account";

/// A booked transaction.
#[derive(Debug, Clone)]
pub struct Transaction {
    pub id: u128,
    pub tenant_id: u128,
    pub instrument_type: String,
    pub instrument_id: String,
    pub parent_tx_id: Option<u128>,
    pub root_tx_id: u128,
    pub link_type: Option<String>,
    pub link_depth: i32,
    pub input_attributes: AttributeBag,
    pub derived_attributes: Option<AttributeBag>,
    pub enricher_name: String,
    pub enricher_version: String,
    pub contract_version: Option<String>,
    pub status: TransactionStatus,
    pub idempotency_key: Option<u128>,
    pub error_reason: Option<String>,
    pub metadata: Option<AttributeBag>,
    pub created_at: i64,
    pub posted_at: Option<i64>,
}

/// One line of the general journal.
#[derive(Debug, Clone)]
pub struct JournalEntry {
    pub id: u128,
    pub tenant_id: u128,
    pub transaction_id: u128,
    pub entry_sequence: i32,
    pub account_id: u128,
    pub amount: Dec,
    pub currency: String,
    pub side: Side,
    pub value_date: i32,
    pub narrative: String,
    pub metadata: Option<AttributeBag>,
    pub posted_at: i64,
}

/// One line of a subledger, attached to a journal entry.
#[derive(Debug, Clone)]
pub struct SubledgerEntry {
    pub id: u128,
    pub tenant_id: u128,
    pub transaction_id: u128,
    pub subledger_type: SubledgerType,
    pub journal_entry_id: u128,
    pub instrument_id: Option<String>,
    pub quantity: Option<Dec>,
    pub quantity_type: Option<QuantityType>,
    pub price: Option<Dec>,
    pub counterparty: Option<String>,
    pub trade_date: Option<i32>,
    pub settle_date: Option<i32>,
    pub metadata: Option<AttributeBag>,
}

/// An account of the chart of accounts.
#[derive(Debug, Clone)]
pub struct Account {
    pub id: u128,
    pub tenant_id: u128,
    pub geo: String,
    pub account_code: String,
    pub account_name: String,
    pub display_name: Option<String>,
    pub display_code: Option<String>,
    pub account_type: AccountType,
    pub subledger_type: Option<SubledgerType>,
    pub currency: String,
    pub balance: Dec,
    pub frozen_balance: Dec,
    pub version: i64,
    pub sequence_number: i64,
    pub status: String,
    pub attributes: Option<AttributeBag>,
    pub contract_name: Option<String>,
    pub contract_version: Option<String>,
    pub created_at: i64,
    pub updated_at: i64,
}

/// A tenant of the system; `metadata` is a JSON document.
#[derive(Debug, Clone)]
pub struct Tenant {
    pub id: u128,
    pub name: String,
    pub short_code: String,
    pub status: String,
    pub metadata: Option<String>,
    pub created_at: i64,
    pub updated_at: i64,
}

impl Tenant {
    /// A newly registered tenant: active, without metadata, created and updated
    /// at `now`.
    pub fn new_active(id: u128, name: &str, short_code: &str, now: i64) -> (r: Tenant)
        ensures
            r.id == id,
            r.name@ == name@,
            r.short_code@ == short_code@,
            r.status@ == "active"@,
            r.metadata is None,
            r.created_at == now,
            r.updated_at == now,
    {
        Tenant {
            id,
            name: crate::text::owned(name),
            short_code: crate::text::owned(short_code),
            status: crate::text::owned("active"),
            metadata: None,
            created_at: now,
            updated_at: now,
        }
    }
}

/// The schema of an instrument type; `schema_data` is a JSON document.
#[derive(Debug, Clone)]
pub struct InstrumentSchema {
    pub id: u128,
    pub tenant_id: u128,
    pub instrument_type: String,
    pub schema_data: String,
    pub enricher_name: String,
    pub version: String,
    pub active: bool,
    pub created_at: i64,
}

/// How one journal entry of a posting template is produced.
#[derive(Debug, Clone)]
pub struct PostingRule {
    pub side: Side,
    pub account_code_template: String,
    pub amount_ref: Option<String>,
    pub quantity_ref: Option<String>,
    pub currency: Option<String>,
    pub date_ref: Option<String>,
    pub narrative: Option<String>,
    pub subledger_type: Option<String>,
}

/// A named, versioned list of posting rules.
#[derive(Debug, Clone)]
pub struct PostingTemplate {
    pub name: String,
    pub version: String,
    pub entries: Vec<PostingRule>,
}

/// The posting template of a contract and the rules that link child transactions.
#[derive(Debug, Clone)]
pub struct PostingRules {
    pub template: PostingTemplate,
    pub link_rules: Vec<LinkRule>,
}

/// How a child transaction of a given link type is derived.
#[derive(Debug, Clone)]
pub struct LinkRule {
    pub link_type: LinkType,
    pub input_mapping: Vec<(String, String)>,
    pub posting_template: String,
}

/// A quantity held in an account.
#[derive(Debug, Clone)]
pub struct QuantityPosition {
    pub id: u128,
    pub tenant_id: u128,
    pub account_id: u128,
    pub instrument_id: String,
    pub quantity_type: QuantityType,
    pub quantity: Dec,
    pub version: i64,
    pub updated_at: i64,
}

/// What an account code template is resolved against.
#[derive(Debug, Clone)]
pub struct ResolveContext {
    pub tenant_id: u128,
    pub geo: String,
    pub desk: String,
    pub currency: String,
    pub attributes: Option<AttributeBag>,
}

/// A stored domain event; `event_data` and `metadata` are JSON documents.
#[derive(Debug, Clone)]
pub struct Event {
    pub id: i64,
    pub tenant_id: u128,
    pub event_id: u128,
    pub aggregate_type: String,
    pub aggregate_id: u128,
    pub event_type: String,
    pub event_data: String,
    pub metadata: String,
    pub version: i64,
    pub created_at: i64,
}

/// A transaction as submitted.
#[derive(Debug, Clone)]
pub struct RawTransaction {
    pub tenant_id: u128,
    pub instrument_type: String,
    pub instrument_id: String,
    pub parent_tx_id: Option<u128>,
    pub root_tx_id: Option<u128>,
    pub link_type: Option<String>,
    pub link_depth: i32,
    pub attributes: AttributeBag,
    pub idempotency_key: Option<u128>,
    pub metadata: Option<AttributeBag>,
}

/// A transaction with the attributes its contract derived.
#[derive(Debug, Clone)]
pub struct EnrichedTransaction {
    pub raw: RawTransaction,
    pub derived_attributes: Option<AttributeBag>,
    pub enricher_name: String,
    pub enricher_version: String,
    pub contract_version: Option<String>,
}

/// A transaction with its generated entries and child transactions.
#[derive(Debug, Clone)]
pub struct PostedTransaction {
    pub transaction: Transaction,
    pub entries: Vec<JournalEntry>,
    pub subledger_entries: Vec<SubledgerEntry>,
    pub child_txs: Vec<Transaction>,
}

/// Debit and credit totals of a set of entries.
#[derive(Debug, Clone)]
pub struct BalanceSummary {
    pub total_debit: Dec,
    pub total_credit: Dec,
    pub balanced: bool,
}

/// A fee charged on a transaction.
#[derive(Debug, Clone)]
pub struct FeeItem {
    pub fee_code: String,
    pub fee_category: String,
    pub fee_name: String,
    pub fee_amount: Dec,
    pub currency: String,
}

/// The verdict of the compliance checks on a transaction.
#[derive(Debug, Clone)]
pub struct ComplianceCheckResult {
    pub passed: bool,
    pub blocked: bool,
    pub alerts: Vec<ComplianceAlert>,
}

/// One finding of the compliance checks.
#[derive(Debug, Clone)]
pub struct ComplianceAlert {
    pub alert_type: String,
    pub severity: String,
    pub message: String,
}

} // verus!
