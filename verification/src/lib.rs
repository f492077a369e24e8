//! Core logic of a financial back-office ledger: decimal money arithmetic,
//! attribute bags, posting templates, balance checks, fees, tax lots,
//! position keeping, reconciliation and statements.

pub mod decimal;
pub mod text;
pub mod types;
pub mod attributes;
pub mod errors;
pub mod models;
pub mod template;
pub mod pipeline;
pub mod bond;
pub mod fees;
pub mod tax;
pub mod pnl;
pub mod recon;
pub mod statements;
pub mod compliance;
pub mod perf;
pub mod accounts;
pub mod event_store;
pub mod batch;
pub mod config;
pub mod output;
pub mod faker;
