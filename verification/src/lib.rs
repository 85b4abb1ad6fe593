//! A payments engine: client accounts driven by a stream of deposits,
//! withdrawals, disputes, resolutions and chargebacks, with balances kept
//! in fixed-point units of one ten-thousandth.
pub mod account;
pub mod balance_order;
pub mod config;
pub mod decimal;
pub mod laws;
pub mod processor;
pub mod transaction;
pub mod types;
pub mod writer;
