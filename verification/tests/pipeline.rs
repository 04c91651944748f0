//! End-to-end scenarios across sizer, risk manager and order manager.

use tradecore::types::market_data::{MarketData, MarketSnapshot, Quote};
use tradecore::{
    ApprovalStatus, Confidence, EngineConfig, IntegratedPositionSizer, KellyConfig, OrderManager,
    OrderManagerConfig, Price, Quantity, RiskManagerConfig, RiskViolation, Signal, SignalAction,
    Symbol, TradingEngine,
};

fn price(cents: i64) -> Price {
    Price::new(cents).unwrap()
}

fn sym(s: &str) -> Symbol {
    Symbol::new(s).unwrap()
}

fn signal(symbol: &str, conf_bps: u32, stop: Option<i64>) -> Signal {
    let mut s = Signal::new(
        sym(symbol),
        SignalAction::Buy,
        Confidence::new(conf_bps).unwrap(),
        "test",
        "TestAlpha",
    );
    if let Some(stop_cents) = stop {
        s = s.with_stop_loss(price(stop_cents));
    }
    s
}

#[test]
fn test_integrated_sizer_basic() {
    let sizer = IntegratedPositionSizer::with_defaults(1_000_000);
    let s = signal("AAPL", 8000, Some(14_500));
    let decision = sizer
        .calculate_position(&s, price(15_000), &vec![], 10, 1_000_000)
        .unwrap();
    assert_eq!(decision.approval_status, ApprovalStatus::Approved);
    assert!(decision.quantity > 0);
    assert!(decision.risk_bps < 100);
}

#[test]
fn test_position_reduction_for_excessive_risk() {
    let sizer = IntegratedPositionSizer::new(
        KellyConfig {
            default_position_bps: 1000,
            ..KellyConfig::default()
        },
        RiskManagerConfig {
            max_risk_per_trade_bps: 50,
            ..RiskManagerConfig::default()
        },
        1_000_000,
    );
    // A very wide stop makes the Kelly-derived size too risky.
    let s = signal("AAPL", 9000, Some(10_000));
    let decision = sizer
        .calculate_position(&s, price(15_000), &vec![], 10, 1_000_000)
        .unwrap();
    assert_eq!(decision.approval_status, ApprovalStatus::Reduced);
    assert_eq!(decision.risk_cents, 5_000);
    assert!(decision.risk_bps <= 51);
}

#[test]
fn test_rejection_for_drawdown() {
    let mut sizer = IntegratedPositionSizer::new(
        KellyConfig::default(),
        RiskManagerConfig {
            max_daily_drawdown_bps: 500,
            ..RiskManagerConfig::default()
        },
        1_000_000,
    );
    sizer.update_portfolio(940_000);
    let s = signal("AAPL", 8000, Some(14_500));
    let decision = sizer.calculate_position(&s, price(15_000), &vec![], 10, 940_000);
    assert!(decision.is_err());
}

#[test]
fn test_kelly_integration() {
    let mut sizer = IntegratedPositionSizer::with_defaults(1_000_000);
    for _ in 0..15 {
        sizer.record_trade(10_000);
        sizer.record_trade(-8_000);
    }
    for _ in 0..5 {
        sizer.record_trade(10_000);
    }
    let s = signal("AAPL", 8000, Some(9_800));
    let decision = sizer
        .calculate_position(&s, price(10_000), &vec![], 10, 1_000_000)
        .unwrap();
    assert!(decision.kelly_bps.is_some());
    assert_eq!(decision.sizing_method, tradecore::SizingMethod::Kelly);
}

#[test]
fn test_consecutive_losses_block() {
    let mut sizer = IntegratedPositionSizer::new(
        KellyConfig::default(),
        RiskManagerConfig {
            max_consecutive_losses: 3,
            ..RiskManagerConfig::default()
        },
        1_000_000,
    );
    sizer.record_trade(-5_000);
    sizer.record_trade(-3_000);
    sizer.record_trade(-2_000);
    let s = signal("AAPL", 8000, Some(14_500));
    let decision = sizer.calculate_position(&s, price(15_000), &vec![], 10, 1_000_000);
    assert!(matches!(
        decision,
        Err(RiskViolation::ConsecutiveLosses { .. })
    ));
}

#[test]
fn test_panic_buy_signal_end_to_end() {
    // A severe-panic-style buy: very high confidence, a valid stop, ample
    // capital. The pipeline opens exactly one position, sized within the
    // configured cap.
    let sizer = IntegratedPositionSizer::with_defaults(10_000_000);
    let s = signal("SPY", 9000, Some(9_800));
    let decision = sizer
        .calculate_position(&s, price(10_000), &vec![], 10, 10_000_000)
        .unwrap();
    assert_eq!(decision.approval_status, ApprovalStatus::Approved);
    let max_cap_bps = 1000; // the default maximum position share
    assert!(decision.position_bps <= max_cap_bps);

    let mut manager = OrderManager::new(10_000_000, OrderManagerConfig::default());
    let order = manager.execute_signal(&s, price(10_000)).unwrap();
    assert_eq!(order.status, tradecore::OrderStatus::Filled);
    assert_eq!(manager.position_count(), 1);
    // Exactly one position, and never a duplicate for the same symbol.
    assert!(manager.execute_signal(&s, price(10_000)).is_err());
    assert_eq!(manager.position_count(), 1);
}

#[test]
fn test_cache_expiry() {
    assert!(!tradecore::data::cache_entry_expired(100, 100));
    assert!(tradecore::data::cache_entry_expired(101, 100));
}

#[test]
fn test_cache_hit_rate() {
    let stats = tradecore::CacheStats {
        quote_hits: 3,
        quote_misses: 1,
        historical_hits: 0,
        historical_misses: 0,
        evictions: 0,
    };
    assert_eq!(stats.quote_hit_rate_bps(), 7500);
    assert_eq!(stats.historical_hit_rate_bps(), 0);
}

#[test]
fn test_engine_cycle() {
    let mut engine = TradingEngine::new(EngineConfig::default(), 1_000_000);
    let mut snapshot = MarketSnapshot::new();
    snapshot.insert(MarketData {
        symbol: sym("AAPL"),
        quote: Quote {
            bid: price(10_000),
            ask: price(10_000),
            bid_size: Quantity::buy(100),
            ask_size: Quantity::sell(100),
            timestamp: 0,
        },
        last_price: price(10_000),
        volume: 1000,
        timestamp: 0,
        open: None,
        high: None,
        low: None,
        prev_close: None,
    });
    let raw = vec![signal("AAPL", 9000, Some(9_800))];
    let (closed, executed) = engine.run_cycle(&snapshot, raw);
    assert_eq!(closed.len(), 0);
    assert_eq!(executed, 1);
    assert_eq!(engine.stats().cycles_completed, 1);
    assert_eq!(engine.stats().signals_generated, 1);
    assert_eq!(engine.stats().signals_aggregated, 1);
    assert_eq!(engine.order_manager.position_count(), 1);
}
