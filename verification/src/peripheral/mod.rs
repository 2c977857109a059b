//! Peripheral controllers of the board, at the level of their registers.

pub mod pmbus;
pub mod status;
pub mod tps546;
