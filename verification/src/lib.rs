//! Replay of a sequential transaction log against a set of client accounts.
//!
//! The crate models balances as signed fixed-point numbers with four
//! fractional digits, stored as integer counts of ten-thousandths. Each
//! transaction (deposit, withdrawal, dispute, resolve, chargeback) is applied
//! by a processor that mutates an in-memory ledger of accounts and persisted
//! transactions; the effect of every operation is pinned down by a
//! mathematical transition function over unbounded integers, and the laws the
//! system obeys are proved from those transitions.

pub mod client;
pub mod laws;
pub mod parse;
pub mod store;
pub mod text;
pub mod transaction;
