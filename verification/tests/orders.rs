//! The order manager: sizing, execution, exits and the ledger.

use tradecore::types::market_data::{MarketData, MarketSnapshot, Quote};
use tradecore::{
    Confidence, ExecutionError, OrderManager, OrderManagerConfig, Position, PositionSizer, Price,
    Quantity, Signal, SignalAction, Symbol,
};

fn price(cents: i64) -> Price {
    Price::new(cents).unwrap()
}

fn sym(s: &str) -> Symbol {
    Symbol::new(s).unwrap()
}

fn buy_signal(symbol: &str, stop: Option<i64>, take: Option<i64>) -> Signal {
    let mut s = Signal::new(
        sym(symbol),
        SignalAction::Buy,
        Confidence::new(9000).unwrap(),
        "test",
        "TestAlpha",
    );
    if let Some(stop_cents) = stop {
        s = s.with_stop_loss(price(stop_cents));
    }
    if let Some(take_cents) = take {
        s = s.with_take_profit(price(take_cents));
    }
    s
}

fn snapshot_with(symbol: &str, last: i64) -> MarketSnapshot {
    let mut snap = MarketSnapshot::new();
    snap.insert(MarketData {
        symbol: sym(symbol),
        quote: Quote {
            bid: price(last),
            ask: price(last),
            bid_size: Quantity::buy(100),
            ask_size: Quantity::sell(100),
            timestamp: 0,
        },
        last_price: price(last),
        volume: 1000,
        timestamp: 0,
        open: None,
        high: None,
        low: None,
        prev_close: None,
    });
    snap
}

#[test]
fn test_position_sizer() {
    let sizer = PositionSizer::new(1_000_000, 50);
    let entry = price(67_000);
    let stop = price(66_650);
    // Risk $50, stop distance $3.50: fourteen whole shares.
    let size = sizer.calculate_size(entry, Some(stop)).unwrap();
    assert_eq!(size.value(), 14);
}

#[test]
fn test_position_sizer_requires_stop() {
    let sizer = PositionSizer::new(1_000_000, 50);
    assert_eq!(
        sizer.calculate_size(price(67_000), None),
        Err(ExecutionError::MissingStopLoss)
    );
}

#[test]
fn test_position_sizer_stop_too_close() {
    let sizer = PositionSizer::new(1_000_000, 50);
    assert_eq!(
        sizer.calculate_size(price(67_000), Some(price(67_000))),
        Err(ExecutionError::StopLossTooClose)
    );
}

#[test]
fn test_position_sizer_too_small() {
    let sizer = PositionSizer::new(100, 50);
    assert_eq!(
        sizer.calculate_size(price(67_000), Some(price(66_000))),
        Err(ExecutionError::PositionTooSmall)
    );
}

#[test]
fn test_order_manager_creation() {
    let manager = OrderManager::new(1_000_000, OrderManagerConfig::default());
    assert_eq!(manager.cash_cents, 1_000_000);
    assert_eq!(manager.position_count(), 0);
    assert!(manager.can_open_position());
}

#[test]
fn test_position_pnl() {
    let mut position = Position {
        symbol: sym("SPY"),
        quantity: Quantity::buy(10),
        entry_price: price(67_000),
        current_price: price(68_000),
        stop_loss: None,
        take_profit: None,
        opened_at: 0,
        source_signal: String::from("test"),
    };
    assert_eq!(position.unrealized_pnl(), 10_000);
    position.update_price(price(66_500));
    assert_eq!(position.unrealized_pnl(), -5_000);
}

#[test]
fn test_execute_signal_opens_position() {
    let mut manager = OrderManager::new(1_000_000, OrderManagerConfig::default());
    let signal = buy_signal("AAPL", Some(9_800), None);
    let order = manager.execute_signal(&signal, price(10_000)).unwrap();
    assert_eq!(order.symbol.as_str(), "AAPL");
    // Risk $50 over a $2 stop distance buys 25 shares for $2,500.
    assert_eq!(order.quantity.value(), 25);
    assert_eq!(manager.position_count(), 1);
    assert_eq!(manager.cash_cents, 1_000_000 - 250_000);
}

#[test]
fn test_execute_signal_debits_commission() {
    let config = OrderManagerConfig {
        commission_cents: 100,
        ..OrderManagerConfig::default()
    };
    let mut manager = OrderManager::new(1_000_000, config);
    let signal = buy_signal("AAPL", Some(9_800), None);
    manager.execute_signal(&signal, price(10_000)).unwrap();
    // 25 shares at $100 plus the $1 commission.
    assert_eq!(manager.cash_cents, 1_000_000 - 250_000 - 100);
}

#[test]
fn test_execute_signal_duplicate_position() {
    let mut manager = OrderManager::new(1_000_000, OrderManagerConfig::default());
    let signal = buy_signal("AAPL", Some(9_800), None);
    manager.execute_signal(&signal, price(10_000)).unwrap();
    assert!(matches!(
        manager.execute_signal(&signal, price(10_000)),
        Err(ExecutionError::AlreadyHavePosition)
    ));
}

#[test]
fn test_execute_signal_missing_stop() {
    let mut manager = OrderManager::new(1_000_000, OrderManagerConfig::default());
    let signal = buy_signal("AAPL", None, None);
    assert!(matches!(
        manager.execute_signal(&signal, price(10_000)),
        Err(ExecutionError::MissingStopLoss)
    ));
}

#[test]
fn test_execute_signal_invalid_action() {
    let mut manager = OrderManager::new(1_000_000, OrderManagerConfig::default());
    let mut signal = buy_signal("AAPL", Some(9_800), None);
    signal.action = SignalAction::Hold;
    assert!(matches!(
        manager.execute_signal(&signal, price(10_000)),
        Err(ExecutionError::InvalidAction)
    ));
}

#[test]
fn test_check_exits_stop_loss_first() {
    let mut manager = OrderManager::new(1_000_000, OrderManagerConfig::default());
    let signal = buy_signal("AAPL", Some(9_800), Some(10_400));
    manager.execute_signal(&signal, price(10_000)).unwrap();

    // Mark the position below its stop; the stop closes it.
    manager.update_positions(&snapshot_with("AAPL", 9_700));
    let closed = manager.check_exits();
    assert_eq!(closed.len(), 1);
    assert_eq!(
        closed[0].close_reason,
        tradecore::CloseReason::StopLoss
    );
    assert_eq!(manager.position_count(), 0);
    // The realized loss is $2 a share times 25 shares.
    assert_eq!(closed[0].pnl_cents, -7_500);
}

#[test]
fn test_check_exits_take_profit() {
    let mut manager = OrderManager::new(1_000_000, OrderManagerConfig::default());
    let signal = buy_signal("AAPL", Some(9_800), Some(10_400));
    manager.execute_signal(&signal, price(10_000)).unwrap();

    manager.update_positions(&snapshot_with("AAPL", 10_500));
    let closed = manager.check_exits();
    assert_eq!(closed.len(), 1);
    assert_eq!(
        closed[0].close_reason,
        tradecore::CloseReason::TakeProfit
    );
    assert_eq!(closed[0].pnl_cents, 12_500);
}

#[test]
fn test_portfolio_value_recomputed() {
    let mut manager = OrderManager::new(1_000_000, OrderManagerConfig::default());
    let signal = buy_signal("AAPL", Some(9_800), None);
    manager.execute_signal(&signal, price(10_000)).unwrap();
    manager.update_positions(&snapshot_with("AAPL", 10_200));

    // cash + mark-to-market equals the reported portfolio value exactly.
    let expected = manager.cash_cents + 25 * 10_200;
    assert_eq!(manager.portfolio_value(), expected);
}
