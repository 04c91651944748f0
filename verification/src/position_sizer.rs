//! Integrated position sizing: the Kelly calculator proposes a
//! growth-optimal size and the risk manager validates it.
//!
//! When the only objection is excessive per-trade risk, the sizer reduces
//! the quantity to the largest one that exactly satisfies the risk cap and
//! offers that instead; any other violation is a hard rejection.

use vstd::prelude::*;

use crate::kelly_criterion::{
    spec_kelly_bps, spec_position_size, KellyConfig, KellyCriterion, SizingMethod, TradingStats,
};
use crate::risk_manager::{RiskCheckResult, RiskManager, RiskManagerConfig, RiskStats, RiskViolation};
use crate::types::price::Price;
use crate::types::signal::Signal;
use crate::types::Symbol;

verus! {

/// Whether a proposed position went through whole, reduced, or not at all.
#[derive(Debug, Clone, Copy, PartialEq, Eq, Structural)]
pub enum ApprovalStatus {
    /// Approved at the full Kelly-derived size.
    Approved,
    /// Reduced to fit the per-trade risk cap.
    Reduced,
    /// Fully rejected.
    Rejected,
}

/// A sizing decision with the numbers that produced it.
#[derive(Debug)]
pub struct PositionSizeDecision {
    /// The instrument to trade.
    pub symbol: Symbol,
    /// Shares to trade.
    pub quantity: u64,
    /// Position value in cents.
    pub position_value_cents: u64,
    /// Position as basis points of the portfolio (zero for an empty
    /// portfolio).
    pub position_bps: u128,
    /// Capital at risk in cents (to the stop-loss, or an assumed 2% stop).
    pub risk_cents: u64,
    /// Risk as basis points of the portfolio (zero for an empty portfolio).
    pub risk_bps: u128,
    /// Which rule sized the position.
    pub sizing_method: SizingMethod,
    /// The scaled Kelly percentage, if it was available.
    pub kelly_bps: Option<u64>,
    /// Whether the size is the full proposal or a risk-reduced one.
    pub approval_status: ApprovalStatus,
    /// The violation that forced a reduction, if any.
    pub rejection_reason: Option<RiskViolation>,
}

/// The capital at risk for a proposal: the stop distance times the share
/// count when a stop is given, else 2% of the position value; saturated at
/// the largest representable amount.
pub open spec fn spec_risk_amount(
    entry_cents: int,
    stop_loss: Option<Price>,
    quantity: int,
    position_value: int,
) -> int {
    match stop_loss {
        Some(sl) => {
            let diff = if entry_cents >= sl.spec_cents() {
                entry_cents - sl.spec_cents()
            } else {
                sl.spec_cents() - entry_cents
            };
            if diff * quantity > u64::MAX {
                u64::MAX as int
            } else {
                diff * quantity
            }
        },
        None => position_value * 200 / 10000,
    }
}

/// The reduced share count that exactly fits the per-trade risk cap: the
/// allowed risk divided by the per-share stop distance, or, without a
/// stop, the value affordable under an assumed 2% stop at the entry price.
pub open spec fn spec_reduced_quantity(
    max_risk_cents: int,
    entry_cents: int,
    stop_loss: Option<Price>,
) -> int {
    match stop_loss {
        Some(sl) => {
            let diff = if entry_cents >= sl.spec_cents() {
                entry_cents - sl.spec_cents()
            } else {
                sl.spec_cents() - entry_cents
            };
            if diff > 0 {
                max_risk_cents / diff
            } else {
                0
            }
        },
        None => (max_risk_cents * 50) / entry_cents,
    }
}

/// Kelly-optimal sizing clipped by the risk manager.
#[derive(Debug)]
pub struct IntegratedPositionSizer {
    /// The Kelly calculator and its statistics.
    pub kelly: KellyCriterion,
    /// The risk gate.
    pub risk_manager: RiskManager,
    /// The portfolio value sizing is based on, in cents.
    pub portfolio_cents: u64,
}

impl IntegratedPositionSizer {
    /// The sizer's invariant: its Kelly statistics are well formed.
    pub open spec fn wf(self) -> bool {
        self.kelly.wf()
    }

    /// A sizer over a fresh portfolio.
    pub fn new(
        kelly_config: KellyConfig,
        risk_config: RiskManagerConfig,
        initial_portfolio_cents: u64,
    ) -> (r: IntegratedPositionSizer)
        ensures
            r.wf(),
            r.kelly.config == kelly_config,
            r.kelly.stats == (TradingStats {
                total_trades: 0,
                wins: 0,
                losses: 0,
                total_win_cents: 0,
                total_loss_cents: 0,
            }),
            r.risk_manager.config == risk_config,
            r.risk_manager.day_start_cents == initial_portfolio_cents,
            r.risk_manager.current_cents == initial_portfolio_cents,
            r.risk_manager.consecutive_losses == 0,
            r.portfolio_cents == initial_portfolio_cents,
    {
        IntegratedPositionSizer {
            kelly: KellyCriterion::with_config(kelly_config),
            risk_manager: RiskManager::new(risk_config, initial_portfolio_cents),
            portfolio_cents: initial_portfolio_cents,
        }
    }

    /// A sizer with the default Kelly and risk configurations.
    pub fn with_defaults(initial_portfolio_cents: u64) -> (r: IntegratedPositionSizer)
        ensures
            r.wf(),
            r.kelly.config == (KellyConfig {
                kelly_fraction_bps: 5000,
                min_win_rate_bps: 4000,
                max_position_bps: 1000,
                min_position_bps: 50,
                min_trades_for_kelly: 20,
                default_position_bps: 200,
            }),
            r.risk_manager.config == (RiskManagerConfig {
                max_risk_per_trade_bps: 50,
                max_daily_drawdown_bps: 500,
                max_correlation_exposure_bps: 5000,
                max_consecutive_losses: 3,
                emergency_stop_cents: 500_000,
            }),
            r.kelly.stats.total_trades == 0,
            r.risk_manager.day_start_cents == initial_portfolio_cents,
            r.risk_manager.current_cents == initial_portfolio_cents,
            r.risk_manager.consecutive_losses == 0,
            r.portfolio_cents == initial_portfolio_cents,
    {
        Self::new(KellyConfig::default(), RiskManagerConfig::default(), initial_portfolio_cents)
    }

    /// Re-marks the portfolio value used for sizing and risk checks.
    pub fn update_portfolio(&mut self, value_cents: u64)
        requires
            old(self).wf(),
        ensures
            final(self).wf(),
            final(self).portfolio_cents == value_cents,
            final(self).risk_manager.current_cents == value_cents,
            final(self).risk_manager.config == old(self).risk_manager.config,
            final(self).risk_manager.day_start_cents == old(self).risk_manager.day_start_cents,
            final(self).risk_manager.consecutive_losses
                == old(self).risk_manager.consecutive_losses,
            final(self).risk_manager.correlation_groups
                == old(self).risk_manager.correlation_groups,
            final(self).kelly == old(self).kelly,
    {
        self.portfolio_cents = value_cents;
        self.risk_manager.update_portfolio_value(value_cents);
    }

    /// Records a completed trade into both the Kelly statistics and the
    /// risk manager's loss streak.
    pub fn record_trade(&mut self, pnl_cents: i64)
        requires
            old(self).wf(),
        ensures
            final(self).wf(),
            final(self).portfolio_cents == old(self).portfolio_cents,
            final(self).kelly.config == old(self).kelly.config,
            !old(self).kelly.stats.spec_frozen() ==> final(self).kelly.stats.total_trades
                == old(self).kelly.stats.total_trades + 1,
            final(self).risk_manager.consecutive_losses == if pnl_cents < 0 {
                if old(self).risk_manager.consecutive_losses == usize::MAX {
                    usize::MAX as int
                } else {
                    old(self).risk_manager.consecutive_losses + 1
                }
            } else {
                0
            },
            final(self).risk_manager.config == old(self).risk_manager.config,
            final(self).risk_manager.day_start_cents == old(self).risk_manager.day_start_cents,
            final(self).risk_manager.current_cents == old(self).risk_manager.current_cents,
            final(self).risk_manager.correlation_groups
                == old(self).risk_manager.correlation_groups,
    {
        self.kelly.record_trade(pnl_cents);
        self.risk_manager.record_trade(pnl_cents);
    }

    /// Sizes a position for `signal`: proposes the Kelly-derived size,
    /// asks the risk manager for approval, and on an excessive-risk
    /// rejection recomputes the largest quantity that satisfies the
    /// per-trade risk cap. Every other violation is returned as an error.
    pub fn calculate_position(
        &self,
        signal: &Signal,
        current_price: Price,
        open_positions: &Vec<(Symbol, u64)>,
        max_positions: usize,
        cash: u64,
    ) -> (r: Result<PositionSizeDecision, RiskViolation>)
        requires
            self.wf(),
        ensures
            ({
                let size = spec_position_size(
                    self.kelly.config,
                    self.kelly.stats,
                    self.portfolio_cents as int,
                    signal.confidence.spec_bps() as int,
                );
                let quantity = size / (current_price.spec_cents() as int);
                let risk = spec_risk_amount(
                    current_price.spec_cents() as int,
                    signal.stop_loss,
                    quantity,
                    size,
                );
                let check = self.risk_manager.spec_check_trade(
                    signal.symbol@,
                    size as u64,
                    risk as u64,
                    open_positions@,
                    max_positions,
                    cash,
                );
                match check {
                    RiskCheckResult::Approved => {
                        &&& r matches Ok(d)
                        &&& d.symbol@ == signal.symbol@
                        &&& d.quantity == quantity
                        &&& d.position_value_cents == size
                        &&& d.position_bps == (if self.portfolio_cents == 0 {
                            0int
                        } else {
                            size * 10000 / (self.portfolio_cents as int)
                        })
                        &&& d.risk_cents == risk
                        &&& d.risk_bps == (if self.portfolio_cents == 0 {
                            0int
                        } else {
                            risk * 10000 / (self.portfolio_cents as int)
                        })
                        &&& d.sizing_method == (if spec_kelly_bps(
                            self.kelly.config,
                            self.kelly.stats,
                        ) is Some {
                            SizingMethod::Kelly
                        } else {
                            SizingMethod::Fixed
                        })
                        &&& d.kelly_bps == spec_kelly_bps(self.kelly.config, self.kelly.stats)
                        &&& d.approval_status == ApprovalStatus::Approved
                        &&& d.rejection_reason is None
                    },
                    RiskCheckResult::Rejected(v) => {
                        if v matches RiskViolation::ExcessiveRisk { .. } {
                            let max_risk_raw = self.risk_manager.config.max_risk_per_trade_bps
                                * self.portfolio_cents / 10000;
                            let max_risk = if max_risk_raw > u64::MAX {
                                u64::MAX as int
                            } else {
                                max_risk_raw
                            };
                            let adjusted_qty_raw = spec_reduced_quantity(
                                max_risk_raw,
                                current_price.spec_cents() as int,
                                signal.stop_loss,
                            );
                            let adjusted_qty = if adjusted_qty_raw > u64::MAX {
                                u64::MAX as int
                            } else {
                                adjusted_qty_raw
                            };
                            if adjusted_qty > 0 {
                                let adjusted_value = if adjusted_qty
                                    * current_price.spec_cents() > u64::MAX {
                                    u64::MAX as int
                                } else {
                                    adjusted_qty * current_price.spec_cents()
                                };
                                &&& r matches Ok(d)
                                &&& d.symbol@ == signal.symbol@
                                &&& d.quantity == adjusted_qty
                                &&& d.position_value_cents == adjusted_value
                                &&& d.position_bps == (if self.portfolio_cents == 0 {
                                    0int
                                } else {
                                    adjusted_value * 10000 / (self.portfolio_cents as int)
                                })
                                &&& d.risk_cents == max_risk
                                &&& d.risk_bps == (if self.portfolio_cents == 0 {
                                    0int
                                } else {
                                    max_risk * 10000 / (self.portfolio_cents as int)
                                })
                                &&& d.sizing_method == SizingMethod::Fixed
                                &&& d.kelly_bps == spec_kelly_bps(
                                    self.kelly.config,
                                    self.kelly.stats,
                                )
                                &&& d.approval_status == ApprovalStatus::Reduced
                                &&& d.rejection_reason == Some(v)
                            } else {
                                r == Err::<PositionSizeDecision, RiskViolation>(v)
                            }
                        } else {
                            r == Err::<PositionSizeDecision, RiskViolation>(v)
                        }
                    },
                }
            }),
    {
        let summary = self.kelly.position_summary(
            self.portfolio_cents,
            current_price,
            Some(signal.confidence),
        );
        let kelly_value = summary.position_value_cents;
        let kelly_quantity = summary.quantity;

        let risk_amount: u64 = match signal.stop_loss {
            Some(sl) => {
                let entry = current_price.value();
                let stop = sl.value();
                let diff: u64 = if entry >= stop {
                    entry - stop
                } else {
                    stop - entry
                };
                proof {
                    assert(diff * kelly_quantity <= (u64::MAX as int) * (u64::MAX as int))
                        by (nonlinear_arith)
                        requires
                            diff <= u64::MAX,
                            kelly_quantity <= u64::MAX,
                    ;
                }
                let product: u128 = (diff as u128) * (kelly_quantity as u128);
                if product > u64::MAX as u128 {
                    u64::MAX
                } else {
                    product as u64
                }
            },
            None => {
                proof {
                    crate::math::lemma_div_le_numerator((kelly_value as int) * 200, 10000);
                    assert(kelly_value * 200 <= u64::MAX * 200) by (nonlinear_arith)
                        requires
                            kelly_value <= u64::MAX,
                    ;
                }
                ((kelly_value as u128 * 200) / 10000) as u64
            },
        };

        let check = self.risk_manager.check_trade(
            &signal.symbol,
            kelly_value,
            risk_amount,
            open_positions,
            max_positions,
            cash,
        );

        match check {
            RiskCheckResult::Approved => {
                Ok(PositionSizeDecision {
                    symbol: signal.symbol.clone(),
                    quantity: kelly_quantity,
                    position_value_cents: kelly_value,
                    position_bps: bps_of(kelly_value, self.portfolio_cents),
                    risk_cents: risk_amount,
                    risk_bps: bps_of(risk_amount, self.portfolio_cents),
                    sizing_method: summary.sizing_method,
                    kelly_bps: summary.kelly_bps,
                    approval_status: ApprovalStatus::Approved,
                    rejection_reason: None,
                })
            },
            RiskCheckResult::Rejected(violation) => {
                let is_excessive = match &violation {
                    RiskViolation::ExcessiveRisk { .. } => true,
                    _ => false,
                };
                if !is_excessive {
                    return Err(violation);
                }
                proof {
                    crate::math::lemma_div_le_numerator(
                        (self.risk_manager.config.max_risk_per_trade_bps as int)
                            * (self.portfolio_cents as int),
                        10000,
                    );
                    assert(self.risk_manager.config.max_risk_per_trade_bps * self.portfolio_cents
                        <= u32::MAX * (u64::MAX as int)) by (nonlinear_arith)
                        requires
                            self.risk_manager.config.max_risk_per_trade_bps <= u32::MAX,
                            self.portfolio_cents <= u64::MAX,
                    ;
                }
                let max_risk_128: u128 = (self.risk_manager.config.max_risk_per_trade_bps as u128)
                    * (self.portfolio_cents as u128) / 10000;
                let adjusted_quantity: u128 = match signal.stop_loss {
                    Some(sl) => {
                        let entry = current_price.value();
                        let stop = sl.value();
                        let diff: u64 = if entry >= stop {
                            entry - stop
                        } else {
                            stop - entry
                        };
                        if diff > 0 {
                            max_risk_128 / (diff as u128)
                        } else {
                            0
                        }
                    },
                    None => {
                        let adjusted_value: u128 = max_risk_128 * 50;
                        adjusted_value / (current_price.value() as u128)
                    },
                };
                let adjusted_quantity: u64 = if adjusted_quantity > u64::MAX as u128 {
                    u64::MAX
                } else {
                    adjusted_quantity as u64
                };
                if adjusted_quantity > 0 {
                    proof {
                        assert(adjusted_quantity * current_price.spec_cents()
                            <= (u64::MAX as int) * (u64::MAX as int)) by (nonlinear_arith)
                            requires
                                adjusted_quantity <= u64::MAX,
                                current_price.spec_cents() <= u64::MAX,
                        ;
                    }
                    let value_product: u128 = (adjusted_quantity as u128)
                        * (current_price.value() as u128);
                    let adjusted_value: u64 = if value_product > u64::MAX as u128 {
                        u64::MAX
                    } else {
                        value_product as u64
                    };
                    let max_risk: u64 = if max_risk_128 > u64::MAX as u128 {
                        u64::MAX
                    } else {
                        max_risk_128 as u64
                    };
                    Ok(PositionSizeDecision {
                        symbol: signal.symbol.clone(),
                        quantity: adjusted_quantity,
                        position_value_cents: adjusted_value,
                        position_bps: bps_of(adjusted_value, self.portfolio_cents),
                        risk_cents: max_risk,
                        risk_bps: bps_of(max_risk, self.portfolio_cents),
                        sizing_method: SizingMethod::Fixed,
                        kelly_bps: summary.kelly_bps,
                        approval_status: ApprovalStatus::Reduced,
                        rejection_reason: Some(violation),
                    })
                } else {
                    Err(violation)
                }
            },
        }
    }

    /// The Kelly statistics.
    pub fn kelly_stats(&self) -> (r: &TradingStats)
        ensures
            r == self.kelly.stats,
    {
        self.kelly.stats()
    }

    /// The risk manager's state snapshot.
    pub fn risk_stats(&self) -> (r: RiskStats)
        ensures
            r.current_value_cents == self.risk_manager.current_cents,
            r.day_start_value_cents == self.risk_manager.day_start_cents,
            r.consecutive_losses == self.risk_manager.consecutive_losses,
    {
        self.risk_manager.stats()
    }

    /// Clears the daily risk counters; call at the start of a trading day.
    pub fn reset_daily(&mut self)
        requires
            old(self).wf(),
        ensures
            final(self).wf(),
            final(self).risk_manager.day_start_cents == old(self).risk_manager.current_cents,
            final(self).risk_manager.consecutive_losses == 0,
            final(self).risk_manager.config == old(self).risk_manager.config,
            final(self).risk_manager.current_cents == old(self).risk_manager.current_cents,
            final(self).kelly == old(self).kelly,
            final(self).portfolio_cents == old(self).portfolio_cents,
    {
        self.risk_manager.reset_daily();
    }

    /// The risk configuration in force.
    pub fn risk_config(&self) -> (r: &RiskManagerConfig)
        ensures
            r == self.risk_manager.config,
    {
        &self.risk_manager.config
    }
}

/// `part` as basis points of `whole`, zero when `whole` is zero.
fn bps_of(part: u64, whole: u64) -> (r: u128)
    ensures
        r == if whole == 0 {
            0int
        } else {
            part * 10000 / (whole as int)
        },
{
    if whole == 0 {
        0
    } else {
        (part as u128 * 10000) / (whole as u128)
    }
}

} // verus!
