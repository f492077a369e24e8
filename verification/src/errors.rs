//! Errors of the posting pipeline and of contract validation.
use vstd::prelude::*;
use crate::text::owned;

verus! {

/// Name of the ingest stage.
pub const STAGE_INGEST: &'static str = "INGEST";
/// Name of the validate stage.
pub const STAGE_VALIDATE: &'static str = "VALIDATE";
/// Name of the enrich stage.
pub const STAGE_ENRICH: &'static str = "ENRICH";
/// Name of the generate stage.
pub const STAGE_GENERATE: &'static str = "GENERATE";
/// Name of the balance-check stage.
pub const STAGE_CHECK: &'static str = "CHECK";

/// Everything that can go wrong while booking.
#[derive(Debug, Clone)]
pub enum FbError {
    InvalidNumber,
    NilAttributeBag,
    Unbalanced,
    DuplicateEvent,
    EventNotFound,
    VersionConflict,
    AccountFrozen,
    AccountNotFound,
    TenantNotFound,
    TenantInactive,
    ContractNotFound,
    SchemaNotFound,
    InstrumentInvalid,
    IdempotencyKeyExists,
    DagCycle,
    ParentNotPosted,
    ChildExists,
    Unauthorized,
    InvalidStatus,
    InvalidSide,
    EmptyEntries,
    PipelineError { stage: String, tx_id: String, reason: String },
}

/// A rule a transaction broke, reported by a contract's validation.
#[derive(Debug, Clone)]
pub struct ValidationError {
    pub field: String,
    pub code: String,
    pub message: String,
}

/// Whether `e` is the pipeline error with these three texts.
pub open spec fn is_pipeline_error(e: FbError, stage: Seq<char>, tx_id: Seq<char>, reason: Seq<char>) -> bool {
    match e {
        FbError::PipelineError { stage: s, tx_id: t, reason: r } => s@ == stage && t@ == tx_id && r@ == reason,
        _ => false,
    }
}

/// The text shown for an error.
pub open spec fn error_text(e: FbError) -> Seq<char> {
    match e {
        FbError::InvalidNumber => "invalid number format"@,
        FbError::NilAttributeBag => "attribute bag is nil"@,
        FbError::Unbalanced => "debits do not equal credits"@,
        FbError::DuplicateEvent => "duplicate event version"@,
        FbError::EventNotFound => "event not found"@,
        FbError::VersionConflict => "version conflict: concurrent modification"@,
        FbError::AccountFrozen => "account is frozen"@,
        FbError::AccountNotFound => "account not found"@,
        FbError::TenantNotFound => "tenant not found"@,
        FbError::TenantInactive => "tenant is not active"@,
        FbError::ContractNotFound => "contract not found"@,
        FbError::SchemaNotFound => "instrument schema not found"@,
        FbError::InstrumentInvalid => "invalid instrument type"@,
        FbError::IdempotencyKeyExists => "idempotency key already processed"@,
        FbError::DagCycle => "transaction DAG contains a cycle"@,
        FbError::ParentNotPosted => "parent transaction is not posted"@,
        FbError::ChildExists => "cannot void transaction with posted children"@,
        FbError::Unauthorized => "unauthorized"@,
        FbError::InvalidStatus => "invalid transaction status transition"@,
        FbError::InvalidSide => "side must be DEBIT or CREDIT"@,
        FbError::EmptyEntries => "transaction must have at least one entry"@,
        FbError::PipelineError { stage, tx_id, reason } => "["@ + stage@ + "] "@ + tx_id@ + ": "@ + reason@,
    }
}

impl FbError {
    /// A pipeline error raised in `stage` for transaction `tx_id`.
    pub fn pipeline(stage: &str, tx_id: &str, reason: &str) -> (r: FbError)
        ensures
            is_pipeline_error(r, stage@, tx_id@, reason@),
    {
        FbError::PipelineError { stage: owned(stage), tx_id: owned(tx_id), reason: owned(reason) }
    }

    /// A pipeline error of the ingest stage.
    pub fn ingest(tx_id: &str, reason: &str) -> (r: FbError)
        ensures
            is_pipeline_error(r, STAGE_INGEST@, tx_id@, reason@),
    {
        Self::pipeline(STAGE_INGEST, tx_id, reason)
    }

    /// A pipeline error of the validate stage.
    pub fn validate(tx_id: &str, reason: &str) -> (r: FbError)
        ensures
            is_pipeline_error(r, STAGE_VALIDATE@, tx_id@, reason@),
    {
        Self::pipeline(STAGE_VALIDATE, tx_id, reason)
    }

    /// A pipeline error of the enrich stage.
    pub fn enrich(tx_id: &str, reason: &str) -> (r: FbError)
        ensures
            is_pipeline_error(r, STAGE_ENRICH@, tx_id@, reason@),
    {
        Self::pipeline(STAGE_ENRICH, tx_id, reason)
    }

    /// A pipeline error of the generate stage.
    pub fn generate(tx_id: &str, reason: &str) -> (r: FbError)
        ensures
            is_pipeline_error(r, STAGE_GENERATE@, tx_id@, reason@),
    {
        Self::pipeline(STAGE_GENERATE, tx_id, reason)
    }

    /// A pipeline error of the balance-check stage.
    pub fn check(tx_id: &str, reason: &str) -> (r: FbError)
        ensures
            is_pipeline_error(r, STAGE_CHECK@, tx_id@, reason@),
    {
        Self::pipeline(STAGE_CHECK, tx_id, reason)
    }

    /// The text shown for this error.
    pub fn to_text(&self) -> (r: String)
        ensures
            r@ == error_text(*self),
    {
        match self {
            FbError::InvalidNumber => owned("invalid number format"),
            FbError::NilAttributeBag => owned("attribute bag is nil"),
            FbError::Unbalanced => owned("debits do not equal credits"),
            FbError::DuplicateEvent => owned("duplicate event version"),
            FbError::EventNotFound => owned("event not found"),
            FbError::VersionConflict => owned("version conflict: concurrent modification"),
            FbError::AccountFrozen => owned("account is frozen"),
            FbError::AccountNotFound => owned("account not found"),
            FbError::TenantNotFound => owned("tenant not found"),
            FbError::TenantInactive => owned("tenant is not active"),
            FbError::ContractNotFound => owned("contract not found"),
            FbError::SchemaNotFound => owned("instrument schema not found"),
            FbError::InstrumentInvalid => owned("invalid instrument type"),
            FbError::IdempotencyKeyExists => owned("idempotency key already processed"),
            FbError::DagCycle => owned("transaction DAG contains a cycle"),
            FbError::ParentNotPosted => owned("parent transaction is not posted"),
            FbError::ChildExists => owned("cannot void transaction with posted children"),
            FbError::Unauthorized => owned("unauthorized"),
            FbError::InvalidStatus => owned("invalid transaction status transition"),
            FbError::InvalidSide => owned("side must be DEBIT or CREDIT"),
            FbError::EmptyEntries => owned("transaction must have at least one entry"),
            FbError::PipelineError { stage, tx_id, reason } => {
                let mut r = owned("[");
                r.append(stage.as_str());
                r.append("] ");
                r.append(tx_id.as_str());
                r.append(": ");
                r.append(reason.as_str());
                r
            },
        }
    }
}

impl ValidationError {
    /// The text shown for this error: "field: message (code)".
    pub fn to_text(&self) -> (r: String)
        ensures
            r@ == self.field@ + ": "@ + self.message@ + " ("@ + self.code@ + ")"@,
    {
        let mut r = self.field.clone();
        r.append(": ");
        r.append(self.message.as_str());
        r.append(" (");
        r.append(self.code.as_str());
        r.append(")");
        r
    }
}

} // verus!
