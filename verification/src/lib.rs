//! Homebase: the verified core of a self-hosted personal finance dashboard.
//!
//! Money is kept as integer pennies; this crate parses and formats amounts,
//! totals budgets, builds the waterfall of a pay period, turns bank CSV rows
//! into transactions, and decides how each request is answered.

pub mod text;
pub mod currency;
pub mod pattern;
pub mod dates;
pub mod budget;
pub mod accounts;
pub mod auth;
pub mod transactions;
