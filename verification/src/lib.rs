//! A verified ledger engine: per-user monetary balances together with an
//! append-only transaction log.
//!
//! The library keeps, for every registered account, a balance in minor
//! currency units and the full sequence of committed debit and credit
//! transactions, and maintains the central invariant that each balance
//! equals the net sum (credits minus debits) of that account's recorded
//! transactions, and is never negative.

pub mod guard;
pub mod laws;
pub mod store;
pub mod types;
