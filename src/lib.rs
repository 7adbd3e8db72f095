//! A ledger of client accounts fed by a stream of movement records (deposits,
//! withdrawals, disputes, resolves and chargebacks), with exact fixed-point
//! balances, a verified per-account state machine, and a cross-account guard on
//! transaction ids.
pub mod account;
pub mod amount;
pub mod bank;
pub mod transaction;
