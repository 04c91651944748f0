//! The risk manager's gate: every check, in its priority order.

use tradecore::{RiskCheckResult, RiskManager, RiskManagerConfig, RiskViolation, Symbol};

fn sym(s: &str) -> Symbol {
    Symbol::new(s).unwrap()
}

#[test]
fn test_risk_manager_creation() {
    let config = RiskManagerConfig::default();
    let manager = RiskManager::new(config, 1_000_000);
    assert_eq!(manager.stats().current_value_cents, 1_000_000);
    assert_eq!(manager.consecutive_losses(), 0);
}

#[test]
fn test_excessive_risk_rejection() {
    let config = RiskManagerConfig {
        max_risk_per_trade_bps: 50,
        ..RiskManagerConfig::default()
    };
    let manager = RiskManager::new(config, 1_000_000);
    let result = manager.check_trade(&sym("SPY"), 100_000, 10_000, &vec![], 10, 1_000_000);
    assert!(matches!(
        result,
        RiskCheckResult::Rejected(RiskViolation::ExcessiveRisk { .. })
    ));
}

#[test]
fn test_consecutive_losses_rejection() {
    let config = RiskManagerConfig {
        max_consecutive_losses: 3,
        ..RiskManagerConfig::default()
    };
    let mut manager = RiskManager::new(config, 1_000_000);
    manager.record_trade(-5_000);
    manager.record_trade(-3_000);
    manager.record_trade(-2_000);
    assert_eq!(manager.consecutive_losses(), 3);

    let result = manager.check_trade(&sym("SPY"), 100_000, 1_000, &vec![], 10, 1_000_000);
    assert!(matches!(
        result,
        RiskCheckResult::Rejected(RiskViolation::ConsecutiveLosses { .. })
    ));
}

#[test]
fn test_win_resets_loss_streak() {
    let mut manager = RiskManager::new(RiskManagerConfig::default(), 1_000_000);
    manager.record_trade(-5_000);
    manager.record_trade(-3_000);
    assert_eq!(manager.consecutive_losses(), 2);
    manager.record_trade(10_000);
    assert_eq!(manager.consecutive_losses(), 0);
}

#[test]
fn test_daily_drawdown_rejection() {
    let config = RiskManagerConfig {
        max_daily_drawdown_bps: 500,
        ..RiskManagerConfig::default()
    };
    let mut manager = RiskManager::new(config, 1_000_000);
    manager.update_portfolio_value(940_000);
    let result = manager.check_trade(&sym("SPY"), 100_000, 1_000, &vec![], 10, 940_000);
    assert!(matches!(
        result,
        RiskCheckResult::Rejected(RiskViolation::MaxDrawdownReached { .. })
    ));
}

#[test]
fn test_approved_trade() {
    let manager = RiskManager::new(RiskManagerConfig::default(), 1_000_000);
    let result = manager.check_trade(&sym("SPY"), 100_000, 3_000, &vec![], 10, 1_000_000);
    assert_eq!(result, RiskCheckResult::Approved);
}

#[test]
fn test_correlation_exposure() {
    let config = RiskManagerConfig {
        max_correlation_exposure_bps: 5000,
        ..RiskManagerConfig::default()
    };
    let manager = RiskManager::new(config, 1_000_000);
    let open_positions = vec![(sym("SPY"), 400_000u64)];
    let result = manager.check_trade(&sym("IWM"), 200_000, 2_000, &open_positions, 10, 1_000_000);
    assert!(matches!(
        result,
        RiskCheckResult::Rejected(RiskViolation::CorrelationExposure { .. })
    ));
}

#[test]
fn test_emergency_stop_blocks_everything() {
    let config = RiskManagerConfig {
        emergency_stop_cents: 500_000,
        ..RiskManagerConfig::default()
    };
    let mut manager = RiskManager::new(config, 1_000_000);
    manager.update_portfolio_value(500_000);
    let result = manager.check_trade(&sym("SPY"), 1, 0, &vec![], 10, 500_000);
    assert!(matches!(
        result,
        RiskCheckResult::Rejected(RiskViolation::EmergencyStop { .. })
    ));
}

#[test]
fn test_max_positions_rejection() {
    let manager = RiskManager::new(RiskManagerConfig::default(), 1_000_000);
    let open = vec![(sym("A"), 1u64), (sym("B"), 1u64)];
    let result = manager.check_trade(&sym("C"), 1_000, 100, &open, 2, 1_000_000);
    assert!(matches!(
        result,
        RiskCheckResult::Rejected(RiskViolation::MaxPositionsReached { .. })
    ));
}

#[test]
fn test_insufficient_capital_rejection() {
    let manager = RiskManager::new(RiskManagerConfig::default(), 1_000_000);
    let result = manager.check_trade(&sym("SPY"), 2_000_000, 100, &vec![], 10, 1_000_000);
    assert!(matches!(
        result,
        RiskCheckResult::Rejected(RiskViolation::InsufficientCapital { .. })
    ));
}

#[test]
fn test_loss_streak_tracks_trailing_losses() {
    let mut manager = RiskManager::new(RiskManagerConfig::default(), 1_000_000);
    for pnl in [-100i64, 200, -50, -75, -25] {
        manager.record_trade(pnl);
    }
    // The trailing run of strictly negative results has length three.
    assert_eq!(manager.consecutive_losses(), 3);
}
