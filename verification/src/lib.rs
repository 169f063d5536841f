//! A streaming payments engine: client accounts, a log of deposits, and the
//! dispute / resolve / chargeback life cycle of those deposits.

pub mod amount;
pub mod text;
pub mod transactions;
pub mod accounts;
pub mod parser;
pub mod engine;
pub mod cli;
pub mod laws;
