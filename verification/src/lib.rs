//! A payments ledger: internal balances per (account, asset) backed by
//! token deposits and withdrawals, internal transfers, two-party escrow
//! with release/refund, admin role rotation, and per-asset / global
//! per-transaction spending caps.
pub mod records;
pub mod rules;
pub mod model;
pub mod contract;
pub mod laws;
pub mod holdings;
pub mod history;
pub mod behaviour;
