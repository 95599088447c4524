//! The wallet: trades, their grouping by ticker code, and per-ticker summaries.

pub mod event;
pub mod laws;
pub mod ledger;
pub mod ticker;

pub use event::{Code, Currency, Event, Timestamp, TransactionInfo};
pub use ledger::{Transactions, Wallet};
pub use ticker::{AveragePrice, Position, WalletTicker};
