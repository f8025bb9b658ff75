//! Day-by-day projection of account balances under recurring transfers.

pub mod account;
pub mod date;
pub mod rbudget_data;
pub mod simulation;
pub mod transaction;
pub mod util;
