//! An event-sourced bank-account ledger.
//!
//! Clients issue commands against a named account.  Each command is validated
//! against the account's reconstructed history, accepted as a new immutable
//! event, and the committed events are projected into queryable read-model
//! tables (current balance, ledger entries, issued checks).
//!
//! The write path (aggregate reconstruction, command validation, optimistic
//! concurrency append) and the projection path (transactional read-model
//! updates, idempotent redelivery) are verified: every public function carries
//! a contract relating its result to a mathematical model of the event log
//! and the derived tables.

pub mod events;
pub mod commands;
pub mod aggregate;
pub mod engine;
pub mod store;
pub mod projection;
pub mod bank;
