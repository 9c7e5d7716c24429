//! A single-process ledger: named accounts, a FIFO queue of pending
//! operations, a settlement worker that applies them one at a time, and a
//! chain of sealed blocks of applied transfers.

pub mod error;
pub mod account;
pub mod block;
pub mod store;
pub mod queue;
pub mod ledger;
pub mod request;
