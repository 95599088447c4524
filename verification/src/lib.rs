//! Portfolio accounting for a stock wallet: trades grouped by ticker code,
//! and the net position and average purchase price derived from them.

pub mod online;
pub mod record;
pub mod text;
pub mod wallet;
