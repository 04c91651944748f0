//! A verified trading decision core: signal aggregation, risk gating,
//! Kelly-criterion position sizing, order and position lifecycle, historical
//! replay, and performance metrics.
//!
//! All monetary amounts are integer cents; all percentage-like values are
//! integer basis points (1 bp = 0.01%). This keeps every computation exact
//! and lets each function carry a full functional contract.

pub mod backtest;
pub mod data;
pub mod engine;
pub mod kelly_criterion;
pub mod math;
pub mod order_manager;
pub mod performance;
pub mod position_sizer;
pub mod risk_manager;
pub mod signal_aggregator;
pub mod types;

pub use backtest::engine::{BacktestConfig, BacktestError, BacktestResult, Backtester};
pub use backtest::metrics::{PerformanceMetrics, TradeStatistics};
pub use backtest::trade::{BacktestTrade, ExitReason, TradeOutcome};
pub use data::{CacheConfig, CacheStats, DataProviderConfig};
pub use engine::{EngineConfig, EngineStats, TradingEngine};
pub use kelly_criterion::{KellyConfig, KellyCriterion, PositionSummary, SizingMethod, TradingStats};
pub use order_manager::{CloseReason, ExecutionError, Order, OrderManager, OrderManagerConfig, OrderManagerStats, OrderSide, OrderStatus, OrderType, Position, PositionSizer, Trade};
pub use performance::{CpuPinning, OrderArena, PerformanceConfig, PerformanceStats, PinningError};
pub use position_sizer::{ApprovalStatus, IntegratedPositionSizer, PositionSizeDecision};
pub use risk_manager::{CorrelationGroup, RiskCheckResult, RiskManager, RiskManagerConfig, RiskStats, RiskViolation};
pub use signal_aggregator::{AggregationStrategy, SignalAggregator};
pub use types::price::{Price, Quantity};
pub use types::signal::{Confidence, Signal, SignalAction};
pub use types::{Symbol, ValidationError};
