//! The Kelly calculator: statistics, the formula, and sizing caps.

use tradecore::{Confidence, KellyConfig, KellyCriterion, Price, SizingMethod, TradingStats};

#[test]
fn test_trading_stats_basic() {
    let mut stats = TradingStats::new();
    stats.record_trade(10_000);
    stats.record_trade(-5_000);
    stats.record_trade(15_000);

    assert_eq!(stats.total_trades, 3);
    assert_eq!(stats.wins, 2);
    assert_eq!(stats.losses, 1);
    assert_eq!(stats.win_rate(), Some(6666));
    assert_eq!(stats.avg_win(), Some(12_500));
    assert_eq!(stats.avg_loss(), Some(5_000));
}

#[test]
fn test_win_loss_ratio() {
    let mut stats = TradingStats::new();
    stats.record_trade(20_000);
    stats.record_trade(-10_000);
    assert_eq!(stats.win_loss_ratio(), Some(2_000));
}

#[test]
fn test_kelly_calculation() {
    let config = KellyConfig {
        min_trades_for_kelly: 5,
        ..KellyConfig::default()
    };
    let mut kelly = KellyCriterion::with_config(config);
    kelly.record_trade(20_000);
    kelly.record_trade(-10_000);
    kelly.record_trade(20_000);
    kelly.record_trade(20_000);
    kelly.record_trade(-10_000);

    // Win rate 60%, win/loss ratio 2: raw Kelly 40%, half Kelly 20%.
    assert_eq!(kelly.kelly_bps(), Some(2000));
}

#[test]
fn test_insufficient_trades() {
    let kelly = KellyCriterion::new();
    assert!(kelly.kelly_bps().is_none());
    // Default 2% of $10,000.
    assert_eq!(kelly.position_size(1_000_000, None), 20_000);
}

#[test]
fn test_position_size_with_confidence() {
    let config = KellyConfig {
        min_trades_for_kelly: 5,
        max_position_bps: 5000,
        ..KellyConfig::default()
    };
    let mut kelly = KellyCriterion::with_config(config);
    for _ in 0..3 {
        kelly.record_trade(20_000);
    }
    for _ in 0..2 {
        kelly.record_trade(-10_000);
    }

    let portfolio = 1_000_000;
    let size_high = kelly.position_size(portfolio, Some(Confidence::new(9000).unwrap()));
    let size_med = kelly.position_size(portfolio, Some(Confidence::new(6000).unwrap()));
    let size_low = kelly.position_size(portfolio, Some(Confidence::new(4000).unwrap()));

    assert!(size_high > size_med, "high {} med {}", size_high, size_med);
    assert!(size_med > size_low, "med {} low {}", size_med, size_low);
}

#[test]
fn test_quantity_calculation() {
    let config = KellyConfig {
        default_position_bps: 500,
        ..KellyConfig::default()
    };
    let kelly = KellyCriterion::with_config(config);
    // 5% of $10,000 is $500; at $100 a share that buys 5 shares.
    let qty = kelly.calculate_quantity(1_000_000, Price::new(10_000).unwrap(), None);
    assert_eq!(qty, 5);
}

#[test]
fn test_position_caps() {
    let config = KellyConfig {
        max_position_bps: 500,
        min_trades_for_kelly: 2,
        ..KellyConfig::default()
    };
    let mut kelly = KellyCriterion::with_config(config);
    kelly.record_trade(100_000);
    kelly.record_trade(-1_000);
    kelly.record_trade(100_000);

    let portfolio = 1_000_000;
    let size = kelly.position_size(portfolio, None);
    // Capped at 5% of the portfolio.
    assert_eq!(size, 50_000);
}

#[test]
fn test_negative_kelly() {
    let config = KellyConfig {
        min_trades_for_kelly: 5,
        min_win_rate_bps: 3000,
        ..KellyConfig::default()
    };
    let mut kelly = KellyCriterion::with_config(config);
    kelly.record_trade(10_000);
    kelly.record_trade(-10_000);
    kelly.record_trade(-10_000);
    kelly.record_trade(-10_000);
    kelly.record_trade(-10_000);

    assert!(kelly.kelly_bps().is_none());
    assert_eq!(kelly.position_size(1_000_000, None), 20_000);
}

#[test]
fn test_kelly_none_below_min_trades() {
    let config = KellyConfig {
        min_trades_for_kelly: 20,
        ..KellyConfig::default()
    };
    let mut kelly = KellyCriterion::with_config(config);
    for _ in 0..10 {
        kelly.record_trade(20_000);
        kelly.record_trade(-10_000);
    }
    // Nineteen trades would not be enough; twenty are.
    assert_eq!(kelly.stats().total_trades, 20);
    assert!(kelly.kelly_bps().is_some());

    let mut short = KellyCriterion::with_config(config);
    for _ in 0..9 {
        short.record_trade(20_000);
        short.record_trade(-10_000);
    }
    short.record_trade(20_000);
    assert_eq!(short.stats().total_trades, 19);
    assert!(short.kelly_bps().is_none());
}

#[test]
fn test_position_summary() {
    let mut kelly = KellyCriterion::new();
    let portfolio = 1_000_000;
    let price = Price::new(5_000).unwrap();
    let confidence = Confidence::new(8000).unwrap();

    let summary = kelly.position_summary(portfolio, price, Some(confidence));
    assert_eq!(summary.sizing_method, SizingMethod::Fixed);
    assert!(summary.kelly_bps.is_none());
    assert_eq!(summary.trades_completed, 0);

    for _ in 0..30 {
        kelly.record_trade(10_000);
    }
    for _ in 0..20 {
        kelly.record_trade(-8_000);
    }
    let summary2 = kelly.position_summary(portfolio, price, Some(confidence));
    assert_eq!(summary2.sizing_method, SizingMethod::Kelly);
    assert!(summary2.kelly_bps.is_some());
}
