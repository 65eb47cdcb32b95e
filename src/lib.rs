//! Shared-ledger backend: accounts with running balances, an append-only
//! transaction log and a versioned article catalog, with verified rules.
pub mod article_api;
pub mod article_db;
pub mod common;
pub mod db;
pub mod error;
pub mod laws;
pub mod metrics_db;
pub mod model;
pub mod settings;
pub mod transaction_api;
pub mod transaction_db;
pub mod user_api;
pub mod user_db;
