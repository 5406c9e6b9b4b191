//! A ledger engine for client accounts.
//!
//! The engine takes deposits, withdrawals, disputes, resolutions and
//! chargebacks one at a time and keeps, per client, the available funds, the
//! held funds and the lock flag. Every amount is an exact integer count of
//! the smallest unit of money, so repeated holds and releases never drift.

pub mod data;
pub mod error;
pub mod guarantees;
pub mod ledger;
pub mod tr_processor;
