//! A double-entry ledger: accounts, balanced transactions of entries, and
//! balances recomputed from the stored entries.

pub mod amount;
pub mod balance;
pub mod config;
pub mod errors;
pub mod ledger;
pub mod middleware;
pub mod models;
pub mod order;
pub mod posting;
pub mod table;
pub mod text;
