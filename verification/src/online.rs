//! Keeping the wallet that an online broker holds in step with this one:
//! what the broker knows a ticker by.

pub mod investidor10;

use vstd::prelude::*;

verus! {

/// The two kinds of asset that a broker lists.
#[derive(Debug, Clone, Copy, PartialEq, Eq, Structural)]
pub enum AssetType {
    Fii,
    Ticker,
}

/// A ticker as the broker knows it: its number there, its name, its kind.
#[derive(Debug, Clone)]
pub struct Ticker {
    pub id: i32,
    pub name: String,
    pub asset_type: AssetType,
}

} // verus!
