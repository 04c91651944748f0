//! Historical replay: trade records, the replay engine, and performance
//! metrics over the resulting equity curve and ledger.

pub mod engine;
pub mod metrics;
pub mod trade;
