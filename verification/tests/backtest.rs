//! Replay trades, performance metrics, and the replay engine.

use tradecore::backtest::metrics::{
    calculate_max_drawdown, calculate_returns, calculate_sharpe_ratio, TradeStatistics,
};
use tradecore::types::market_data::{MarketData, Quote};
use tradecore::{
    BacktestConfig, BacktestTrade, Backtester, Confidence, ExitReason, Price, Quantity, Signal,
    SignalAction, Symbol, TradeOutcome,
};

fn price(cents: i64) -> Price {
    Price::new(cents).unwrap()
}

fn sym(s: &str) -> Symbol {
    Symbol::new(s).unwrap()
}

#[test]
fn test_winning_trade() {
    let mut trade = BacktestTrade::new(
        sym("AAPL"),
        SignalAction::Buy,
        price(10_000),
        Quantity::buy(10),
        0,
        100, // commission
        10,  // slippage
        8500,
    );
    assert!(trade.is_open());

    trade.close(price(11_000), 86_400, ExitReason::TakeProfit, 100, 10);
    assert!(!trade.is_open());
    assert_eq!(trade.outcome(), Some(TradeOutcome::Winner));
    // (110 - 100) * 10 = $100 gross; $2 commission and $0.20 slippage off.
    assert_eq!(trade.net_pnl_cents, Some(9_780));
}

#[test]
fn test_losing_trade() {
    let mut trade = BacktestTrade::new(
        sym("TSLA"),
        SignalAction::Sell,
        price(20_000),
        Quantity::buy(5),
        0,
        200,
        50,
        7500,
    );
    trade.close(price(21_000), 86_400, ExitReason::StopLoss, 200, 50);
    assert_eq!(trade.outcome(), Some(TradeOutcome::Loser));
    // (200 - 210) * 5 = -$50 gross; $4 commission and $1 slippage off.
    assert_eq!(trade.net_pnl_cents, Some(-5_500));
}

#[test]
fn test_return_pct() {
    let mut trade = BacktestTrade::new(
        sym("AAPL"),
        SignalAction::Buy,
        price(10_000),
        Quantity::buy(10),
        0,
        0,
        0,
        8500,
    );
    trade.close(price(10_500), 86_400, ExitReason::TakeProfit, 0, 0);
    // $50 net over a $1,000 entry notional is 5%.
    assert_eq!(trade.return_bps(), Some(500));
}

fn create_test_trade(net_cents: i64) -> BacktestTrade {
    let mut trade = BacktestTrade::new(
        sym("TEST"),
        SignalAction::Buy,
        price(10_000),
        Quantity::buy(1),
        0,
        0,
        0,
        5000,
    );
    trade.close(
        price(10_000 + net_cents),
        3600,
        ExitReason::TakeProfit,
        0,
        0,
    );
    trade
}

#[test]
fn test_trade_statistics() {
    let trades = vec![
        create_test_trade(1_000),
        create_test_trade(-500),
        create_test_trade(1_500),
        create_test_trade(-300),
        create_test_trade(2_000),
    ];
    let stats = TradeStatistics::calculate(&trades);

    assert_eq!(stats.total_trades, 5);
    assert_eq!(stats.winning_trades, 3);
    assert_eq!(stats.losing_trades, 2);
    assert_eq!(stats.win_rate_bps, 6000);
    assert_eq!(stats.avg_win_cents, 1_500);
    assert_eq!(stats.avg_loss_cents, -400);
    // Profit factor 4500 / 800 = 5.625.
    assert_eq!(stats.profit_factor_centi, Some(562));
    assert_eq!(stats.largest_win_cents, 2_000);
    assert_eq!(stats.largest_loss_cents, -500);
    assert_eq!(stats.max_consecutive_wins, 1);
    assert_eq!(stats.max_consecutive_losses, 1);
}

#[test]
fn test_profit_factor_infinite_without_losses() {
    let trades = vec![create_test_trade(1_000), create_test_trade(2_000)];
    let stats = TradeStatistics::calculate(&trades);
    assert_eq!(stats.profit_factor_centi, None);
}

#[test]
fn test_max_drawdown() {
    let equity: Vec<u64> = vec![1_000_000, 1_100_000, 1_050_000, 900_000, 950_000, 1_200_000];
    let max_dd = calculate_max_drawdown(&equity);
    // Peak $11,000, trough $9,000: a decline of 18.18%.
    assert_eq!(max_dd, -1818);
}

#[test]
fn test_sharpe_ratio() {
    // Per-period returns of 5%, -2%, 3%, 6%, -1% in basis points.
    let period_returns: Vec<i128> = vec![500, -200, 300, 600, -100];
    let sharpe = calculate_sharpe_ratio(&period_returns, 200);
    assert!(sharpe > 0);
    assert!(sharpe < 100_000);
}

#[test]
fn test_returns_from_curve() {
    let equity: Vec<u64> = vec![1_000_000, 1_050_000, 1_029_000];
    let rs = calculate_returns(&equity);
    assert_eq!(rs, vec![500, -200]);
}

#[test]
fn test_backtester_creation() {
    let backtester = Backtester::new(BacktestConfig::default());
    assert_eq!(backtester.config.initial_capital_cents, 1_000_000);
    assert_eq!(backtester.risk_manager.consecutive_losses, 0);
}

#[test]
fn test_slippage_application() {
    let config = BacktestConfig {
        slippage_bps: 10, // 0.1%
        ..BacktestConfig::default()
    };
    let backtester = Backtester::new(config);
    // Entries pay more, exits receive less.
    assert_eq!(backtester.apply_slippage(price(10_000), false).value(), 10_010);
    assert_eq!(backtester.apply_slippage(price(10_000), true).value(), 9_990);
}

#[test]
fn test_run_with_signals_round_trip() {
    let config = BacktestConfig {
        slippage_bps: 0,
        commission_cents: 100,
        initial_capital_cents: 1_000_000,
        default_position_size_bps: 1000,
        use_confidence_sizing: false,
        ..BacktestConfig::default()
    };
    let mut backtester = Backtester::new(config);
    let buy = Signal::new(
        sym("AAPL"),
        SignalAction::Buy,
        Confidence::new(9000).unwrap(),
        "entry",
        "TestAlpha",
    )
    .with_target_price(price(10_000));
    let close = Signal::new(
        sym("AAPL"),
        SignalAction::Close,
        Confidence::new(9000).unwrap(),
        "exit",
        "TestAlpha",
    )
    .with_target_price(price(11_000));

    let result = backtester.run_with_signals(vec![buy, close]).unwrap();
    assert_eq!(result.total_signals, 2);
    assert_eq!(result.trades.len(), 1);
    // 10% of capital buys 10 shares at $100; the close at $110 realizes
    // $100 gross minus two $1 commissions.
    let trade = &result.trades[0];
    assert_eq!(trade.quantity.value(), 10);
    assert_eq!(trade.net_pnl_cents, Some(9_790));
    assert_eq!(trade.exit_reason, Some(ExitReason::SignalReverse));
    assert_eq!(result.equity_curve.len(), 3);
    assert_eq!(result.equity_curve[0], 1_000_000);
    // Entry debits $1,001; the close credits $1,100 less $1.
    assert_eq!(result.final_capital_cents, 1_000_000 - 100_100 + 110_000 - 100);
}

#[test]
fn test_untargeted_signal_is_rejected() {
    // A pre-priced replay must turn away an entry signal with no target.
    let mut backtester = Backtester::new(BacktestConfig::default());
    let untargeted = Signal::new(
        sym("AAPL"),
        SignalAction::Buy,
        Confidence::new(9000).unwrap(),
        "no price attached",
        "TestAlpha",
    );
    let result = backtester.run_with_signals(vec![untargeted]).unwrap();
    assert_eq!(result.rejected_signals, 1);
    assert_eq!(result.trades.len(), 0);
}

#[test]
fn test_run_requires_data() {
    let mut backtester = Backtester::new(BacktestConfig::default());
    let empty: Vec<(Symbol, Vec<MarketData>)> = Vec::new();
    let r = backtester.run(&empty, &vec![], &vec![]);
    assert!(matches!(r, Err(tradecore::BacktestError::NoHistoricalData)));
}

#[test]
fn test_run_requires_two_steps() {
    let mut backtester = Backtester::new(BacktestConfig::default());
    let spy = sym("SPY");
    let one_day = vec![MarketData {
        symbol: spy.clone(),
        quote: Quote {
            bid: price(50_000),
            ask: price(50_000),
            bid_size: Quantity::buy(100),
            ask_size: Quantity::sell(100),
            timestamp: 0,
        },
        last_price: price(50_000),
        volume: 1000,
        timestamp: 0,
        open: None,
        high: None,
        low: None,
        prev_close: None,
    }];
    let r = backtester.run(&vec![(spy.clone(), one_day)], &vec![spy], &vec![]);
    assert!(matches!(r, Err(tradecore::BacktestError::TooFewTimeSteps)));
}

#[test]
fn test_run_replays_and_closes_everything() {
    let config = BacktestConfig {
        slippage_bps: 0,
        use_confidence_sizing: false,
        ..BacktestConfig::default()
    };
    let mut backtester = Backtester::new(config);
    let spy = sym("SPY");
    let closes: [i64; 4] = [50_000, 48_000, 49_000, 52_600];
    let mut series = Vec::new();
    for (i, &c) in closes.iter().enumerate() {
        series.push(MarketData {
            symbol: spy.clone(),
            quote: Quote {
                bid: price(c),
                ask: price(c),
                bid_size: Quantity::buy(100),
                ask_size: Quantity::sell(100),
                timestamp: i as u64,
            },
            last_price: price(c),
            volume: 1000,
            timestamp: i as u64,
            open: None,
            high: None,
            low: None,
            prev_close: None,
        });
    }
    let buy = Signal::new(
        spy.clone(),
        SignalAction::Buy,
        Confidence::new(9000).unwrap(),
        "dip entry",
        "TestAlpha",
    );
    let mut step_signals: Vec<Vec<Signal>> = vec![Vec::new(); 4];
    step_signals[1].push(buy);

    let result = backtester
        .run(&vec![(spy.clone(), series)], &vec![spy], &step_signals)
        .unwrap();
    assert_eq!(result.total_signals, 1);
    assert_eq!(result.equity_curve.len(), 5);
    assert_eq!(result.equity_curve[0], 1_000_000);
    // Whatever was opened is closed by the end of the data.
    assert!(result.trades.iter().all(|t| !t.is_open()));
    // The dip entry buys 10% of capital at $480: two shares; the last
    // step's 9.6% gain over $480 trips the 4% take-profit.
    assert_eq!(result.trades.len(), 1);
    assert_eq!(result.trades[0].quantity.value(), 2);
    assert_eq!(
        result.trades[0].exit_reason,
        Some(tradecore::ExitReason::TakeProfit)
    );
}
