//! The risk manager: a stateful gate that approves or rejects a proposed
//! trade against portfolio-level limits.
//!
//! `check_trade` evaluates its checks in a fixed priority order and reports
//! the first failing one; a trade is approved only when every check passes.

use vstd::prelude::*;

use crate::math::{lemma_div_le_numerator, lemma_ratio_bps_bounded, lemma_scaled_gt};
use crate::types::Symbol;

verus! {

/// Risk limits, all expressed in basis points (1 bp = 0.01%) or cents.
#[derive(Debug, Clone, Copy, PartialEq, Eq, Structural)]
pub struct RiskManagerConfig {
    /// Largest risk a single trade may put on, as basis points of the
    /// current portfolio value.
    pub max_risk_per_trade_bps: u32,
    /// Largest daily drawdown before trading stops, in basis points of the
    /// day-start value.
    pub max_daily_drawdown_bps: u32,
    /// Largest share of the portfolio allowed in one correlation group,
    /// in basis points.
    pub max_correlation_exposure_bps: u32,
    /// Trading stops after this many consecutive losses.
    pub max_consecutive_losses: usize,
    /// Trading stops once the portfolio is worth this much or less, in cents.
    pub emergency_stop_cents: u64,
}

impl Default for RiskManagerConfig {
    /// Conservative defaults: 0.5% risk per trade, 5% daily drawdown,
    /// 50% correlation exposure, three consecutive losses, $5,000 floor.
    fn default() -> (r: RiskManagerConfig)
        ensures
            r.max_risk_per_trade_bps == 50,
            r.max_daily_drawdown_bps == 500,
            r.max_correlation_exposure_bps == 5000,
            r.max_consecutive_losses == 3,
            r.emergency_stop_cents == 500_000,
    {
        RiskManagerConfig {
            max_risk_per_trade_bps: 50,
            max_daily_drawdown_bps: 500,
            max_correlation_exposure_bps: 5000,
            max_consecutive_losses: 3,
            emergency_stop_cents: 500_000,
        }
    }
}

/// The outcome of a risk check: a trade is either approved whole or
/// rejected with the first violation found, never partially approved.
#[derive(Debug, Clone, Copy, PartialEq, Eq, Structural)]
pub enum RiskCheckResult {
    /// Every check passed.
    Approved,
    /// A check failed; the first failing check is the one reported.
    Rejected(RiskViolation),
}

/// Which risk check failed, with the observed values and the limit.
#[derive(Debug, Clone, Copy, PartialEq, Eq, Structural)]
pub enum RiskViolation {
    /// The trade would risk more than the per-trade cap.
    ExcessiveRisk { risk_cents: u64, current_value_cents: u64, max_allowed_bps: u32 },
    /// The daily drawdown limit is already reached.
    MaxDrawdownReached { drawdown_bps: u32, max_allowed_bps: u32 },
    /// Too many consecutive losses.
    ConsecutiveLosses { count: usize, max_allowed: usize },
    /// The symbol's correlation group would hold too much of the portfolio.
    CorrelationExposure { exposure_cents: u128, current_value_cents: u64, max_allowed_bps: u32 },
    /// The portfolio is at or below the emergency floor.
    EmergencyStop { value_cents: u64, threshold_cents: u64 },
    /// The portfolio already holds the maximum number of positions.
    MaxPositionsReached { current: usize, max_allowed: usize },
    /// Not enough cash to pay for the position.
    InsufficientCapital { required_cents: u64, available_cents: u64 },
}

/// A set of symbols whose prices tend to move together; capital committed
/// to them is counted as one exposure.
#[derive(Debug)]
pub struct CorrelationGroup {
    /// A short name for the group.
    pub name: String,
    /// The symbols grouped together.
    pub symbols: Vec<Symbol>,
}

/// The daily drawdown in basis points of the day-start value: positive for
/// a loss, negative for a gain, zero when no baseline exists.
pub open spec fn spec_drawdown_bps(day_start: int, current: int) -> int {
    if day_start <= 0 {
        0
    } else if current <= day_start {
        (day_start - current) * 10000 / day_start
    } else {
        -((current - day_start) * 10000 / day_start)
    }
}

/// True exactly when `sym` is one of `symbols`.
pub open spec fn spec_group_contains(symbols: Seq<Symbol>, sym: Seq<char>) -> bool {
    exists|i: int| 0 <= i < symbols.len() && (#[trigger] symbols[i])@ == sym
}

/// The combined value of the open positions whose symbol belongs to the
/// group, in cents.
pub open spec fn spec_group_sum(symbols: Seq<Symbol>, positions: Seq<(Symbol, u64)>) -> int
    decreases positions.len(),
{
    if positions.len() == 0 {
        0
    } else {
        (if spec_group_contains(symbols, positions[0].0@) {
            positions[0].1 as int
        } else {
            0
        }) + spec_group_sum(symbols, positions.drop_first())
    }
}

/// The first correlation group (in declaration order) that contains `sym`
/// and whose exposure, counting the proposed position, would exceed the
/// cap; `None` when no group objects.
pub open spec fn spec_corr_violation(
    groups: Seq<CorrelationGroup>,
    sym: Seq<char>,
    position_value: u64,
    positions: Seq<(Symbol, u64)>,
    current: u64,
    max_bps: u32,
) -> Option<RiskViolation>
    decreases groups.len(),
{
    if groups.len() == 0 {
        None
    } else {
        let exposure = position_value + spec_group_sum(groups[0].symbols@, positions);
        if spec_group_contains(groups[0].symbols@, sym) && exposure * 10000 > max_bps * current {
            Some(RiskViolation::CorrelationExposure {
                exposure_cents: exposure as u128,
                current_value_cents: current,
                max_allowed_bps: max_bps,
            })
        } else {
            spec_corr_violation(groups.drop_first(), sym, position_value, positions, current, max_bps)
        }
    }
}

/// The stateful risk gate. It holds no opinion on sizing, only on approval.
#[derive(Debug)]
pub struct RiskManager {
    /// The configured limits.
    pub config: RiskManagerConfig,
    /// Portfolio value at the start of the trading day, in cents.
    pub day_start_cents: u64,
    /// Current portfolio value, in cents.
    pub current_cents: u64,
    /// Length of the current run of losing trades.
    pub consecutive_losses: usize,
    /// The static correlation grouping of symbols.
    pub correlation_groups: Vec<CorrelationGroup>,
}

impl RiskManager {
    /// The decision `check_trade` returns, as a function of the manager's
    /// state and the proposed trade. Checks run in this order: emergency
    /// stop, daily drawdown, consecutive losses, per-trade risk, position
    /// count, capital sufficiency, correlation exposure.
    pub open spec fn spec_check_trade(
        self,
        sym: Seq<char>,
        position_value: u64,
        risk_amount: u64,
        positions: Seq<(Symbol, u64)>,
        max_positions: usize,
        cash: u64,
    ) -> RiskCheckResult {
        let cfg = self.config;
        if self.current_cents <= cfg.emergency_stop_cents {
            RiskCheckResult::Rejected(RiskViolation::EmergencyStop {
                value_cents: self.current_cents,
                threshold_cents: cfg.emergency_stop_cents,
            })
        } else if spec_drawdown_bps(self.day_start_cents as int, self.current_cents as int)
            >= cfg.max_daily_drawdown_bps {
            RiskCheckResult::Rejected(RiskViolation::MaxDrawdownReached {
                drawdown_bps: spec_drawdown_bps(
                    self.day_start_cents as int,
                    self.current_cents as int,
                ) as u32,
                max_allowed_bps: cfg.max_daily_drawdown_bps,
            })
        } else if self.consecutive_losses >= cfg.max_consecutive_losses {
            RiskCheckResult::Rejected(RiskViolation::ConsecutiveLosses {
                count: self.consecutive_losses,
                max_allowed: cfg.max_consecutive_losses,
            })
        } else if risk_amount * 10000 > cfg.max_risk_per_trade_bps * self.current_cents {
            RiskCheckResult::Rejected(RiskViolation::ExcessiveRisk {
                risk_cents: risk_amount,
                current_value_cents: self.current_cents,
                max_allowed_bps: cfg.max_risk_per_trade_bps,
            })
        } else if positions.len() >= max_positions {
            RiskCheckResult::Rejected(RiskViolation::MaxPositionsReached {
                current: positions.len() as usize,
                max_allowed: max_positions,
            })
        } else if cash < position_value {
            RiskCheckResult::Rejected(RiskViolation::InsufficientCapital {
                required_cents: position_value,
                available_cents: cash,
            })
        } else {
            match spec_corr_violation(
                self.correlation_groups@,
                sym,
                position_value,
                positions,
                self.current_cents,
                cfg.max_correlation_exposure_bps,
            ) {
                Some(v) => RiskCheckResult::Rejected(v),
                None => RiskCheckResult::Approved,
            }
        }
    }

    /// As [`RiskManager::spec_check_trade`], over name-keyed positions.
    pub open spec fn spec_check_trade_by_name(
        self,
        sym: Seq<char>,
        position_value: u64,
        risk_amount: u64,
        positions: Seq<(Seq<char>, u64)>,
        max_positions: usize,
        cash: u64,
    ) -> RiskCheckResult {
        let cfg = self.config;
        if self.current_cents <= cfg.emergency_stop_cents {
            RiskCheckResult::Rejected(RiskViolation::EmergencyStop {
                value_cents: self.current_cents,
                threshold_cents: cfg.emergency_stop_cents,
            })
        } else if spec_drawdown_bps(self.day_start_cents as int, self.current_cents as int)
            >= cfg.max_daily_drawdown_bps {
            RiskCheckResult::Rejected(RiskViolation::MaxDrawdownReached {
                drawdown_bps: spec_drawdown_bps(
                    self.day_start_cents as int,
                    self.current_cents as int,
                ) as u32,
                max_allowed_bps: cfg.max_daily_drawdown_bps,
            })
        } else if self.consecutive_losses >= cfg.max_consecutive_losses {
            RiskCheckResult::Rejected(RiskViolation::ConsecutiveLosses {
                count: self.consecutive_losses,
                max_allowed: cfg.max_consecutive_losses,
            })
        } else if risk_amount * 10000 > cfg.max_risk_per_trade_bps * self.current_cents {
            RiskCheckResult::Rejected(RiskViolation::ExcessiveRisk {
                risk_cents: risk_amount,
                current_value_cents: self.current_cents,
                max_allowed_bps: cfg.max_risk_per_trade_bps,
            })
        } else if positions.len() >= max_positions {
            RiskCheckResult::Rejected(RiskViolation::MaxPositionsReached {
                current: positions.len() as usize,
                max_allowed: max_positions,
            })
        } else if cash < position_value {
            RiskCheckResult::Rejected(RiskViolation::InsufficientCapital {
                required_cents: position_value,
                available_cents: cash,
            })
        } else {
            match spec_corr_violation_by_name(
                self.correlation_groups@,
                sym,
                position_value,
                positions,
                self.current_cents,
                cfg.max_correlation_exposure_bps,
            ) {
                Some(v) => RiskCheckResult::Rejected(v),
                None => RiskCheckResult::Approved,
            }
        }
    }

    /// A fresh manager anchored at `initial_cents`, with the built-in
    /// correlation groups: the tech ETFs QQQ and XLK, and the broad-market
    /// ETFs SPY, IWM and DIA.
    pub fn new(config: RiskManagerConfig, initial_cents: u64) -> (r: RiskManager)
        ensures
            r.config == config,
            r.day_start_cents == initial_cents,
            r.current_cents == initial_cents,
            r.consecutive_losses == 0,
            r.correlation_groups@.len() == 2,
            r.correlation_groups@[0].symbols@.len() == 2,
            r.correlation_groups@[0].symbols@[0]@ == "QQQ"@,
            r.correlation_groups@[0].symbols@[1]@ == "XLK"@,
            r.correlation_groups@[1].symbols@.len() == 3,
            r.correlation_groups@[1].symbols@[0]@ == "SPY"@,
            r.correlation_groups@[1].symbols@[1]@ == "IWM"@,
            r.correlation_groups@[1].symbols@[2]@ == "DIA"@,
    {
        proof {
            reveal_strlit("QQQ");
            reveal_strlit("XLK");
            reveal_strlit("SPY");
            reveal_strlit("IWM");
            reveal_strlit("DIA");
            reveal_strlit("tech_etf");
            reveal_strlit("broad_market");
        }
        let qqq = Symbol::new("QQQ").unwrap();
        let xlk = Symbol::new("XLK").unwrap();
        let spy = Symbol::new("SPY").unwrap();
        let iwm = Symbol::new("IWM").unwrap();
        let dia = Symbol::new("DIA").unwrap();
        proof {
            assert(qqq@ =~= "QQQ"@);
            assert(xlk@ =~= "XLK"@);
            assert(spy@ =~= "SPY"@);
            assert(iwm@ =~= "IWM"@);
            assert(dia@ =~= "DIA"@);
        }
        let mut tech: Vec<Symbol> = Vec::new();
        tech.push(qqq);
        tech.push(xlk);
        let mut broad: Vec<Symbol> = Vec::new();
        broad.push(spy);
        broad.push(iwm);
        broad.push(dia);
        let mut groups: Vec<CorrelationGroup> = Vec::new();
        groups.push(CorrelationGroup { name: String::from_str("tech_etf"), symbols: tech });
        groups.push(CorrelationGroup { name: String::from_str("broad_market"), symbols: broad });
        RiskManager {
            config,
            day_start_cents: initial_cents,
            current_cents: initial_cents,
            consecutive_losses: 0,
            correlation_groups: groups,
        }
    }

    /// Re-marks the portfolio value the checks compare against.
    pub fn update_portfolio_value(&mut self, value_cents: u64)
        ensures
            final(self).current_cents == value_cents,
            final(self).config == old(self).config,
            final(self).day_start_cents == old(self).day_start_cents,
            final(self).consecutive_losses == old(self).consecutive_losses,
            final(self).correlation_groups == old(self).correlation_groups,
    {
        self.current_cents = value_cents;
    }

    /// Re-anchors the drawdown baseline at the current value and clears the
    /// loss streak; call at the start of each trading day.
    pub fn reset_daily(&mut self)
        ensures
            final(self).day_start_cents == old(self).current_cents,
            final(self).consecutive_losses == 0,
            final(self).config == old(self).config,
            final(self).current_cents == old(self).current_cents,
            final(self).correlation_groups == old(self).correlation_groups,
    {
        self.day_start_cents = self.current_cents;
        self.consecutive_losses = 0;
    }

    /// Records a realized trade result: a loss lengthens the streak, any
    /// non-negative result clears it. The streak saturates at `usize::MAX`.
    pub fn record_trade(&mut self, pnl_cents: i64)
        ensures
            final(self).config == old(self).config,
            final(self).day_start_cents == old(self).day_start_cents,
            final(self).current_cents == old(self).current_cents,
            final(self).correlation_groups == old(self).correlation_groups,
            final(self).consecutive_losses == if pnl_cents < 0 {
                if old(self).consecutive_losses == usize::MAX {
                    usize::MAX as int
                } else {
                    old(self).consecutive_losses + 1
                }
            } else {
                0
            },
    {
        if pnl_cents < 0 {
            if self.consecutive_losses < usize::MAX {
                self.consecutive_losses = self.consecutive_losses + 1;
            }
        } else {
            self.consecutive_losses = 0;
        }
    }

    /// Decides whether the proposed trade is allowed, returning the first
    /// violated limit otherwise. `positions` maps each open symbol to its
    /// market value in cents.
    pub fn check_trade(
        &self,
        symbol: &Symbol,
        position_value: u64,
        risk_amount: u64,
        open_positions: &Vec<(Symbol, u64)>,
        max_positions: usize,
        cash: u64,
    ) -> (r: RiskCheckResult)
        ensures
            r == self.spec_check_trade(
                symbol@,
                position_value,
                risk_amount,
                open_positions@,
                max_positions,
                cash,
            ),
            self.current_cents <= self.config.emergency_stop_cents ==> (r matches
                RiskCheckResult::Rejected(v) && v matches RiskViolation::EmergencyStop { .. }),
    {
        if self.current_cents <= self.config.emergency_stop_cents {
            return RiskCheckResult::Rejected(RiskViolation::EmergencyStop {
                value_cents: self.current_cents,
                threshold_cents: self.config.emergency_stop_cents,
            });
        }
        let dd = self.current_drawdown_bps();
        if dd >= self.config.max_daily_drawdown_bps as i128 {
            proof {
                if self.day_start_cents >= 1 && self.current_cents <= self.day_start_cents {
                    lemma_ratio_bps_bounded(
                        self.day_start_cents - self.current_cents,
                        self.day_start_cents as int,
                    );
                }
            }
            return RiskCheckResult::Rejected(RiskViolation::MaxDrawdownReached {
                drawdown_bps: dd as u32,
                max_allowed_bps: self.config.max_daily_drawdown_bps,
            });
        }
        if self.consecutive_losses >= self.config.max_consecutive_losses {
            return RiskCheckResult::Rejected(RiskViolation::ConsecutiveLosses {
                count: self.consecutive_losses,
                max_allowed: self.config.max_consecutive_losses,
            });
        }
        proof {
            assert(risk_amount * 10000 <= u64::MAX * 10000) by (nonlinear_arith)
                requires
                    risk_amount <= u64::MAX,
            ;
            assert(self.config.max_risk_per_trade_bps * self.current_cents
                <= u32::MAX * (u64::MAX as int)) by (nonlinear_arith)
                requires
                    self.config.max_risk_per_trade_bps <= u32::MAX,
                    self.current_cents <= u64::MAX,
            ;
        }
        if risk_amount as u128 * 10000 > self.config.max_risk_per_trade_bps as u128
            * self.current_cents as u128 {
            return RiskCheckResult::Rejected(RiskViolation::ExcessiveRisk {
                risk_cents: risk_amount,
                current_value_cents: self.current_cents,
                max_allowed_bps: self.config.max_risk_per_trade_bps,
            });
        }
        if open_positions.len() >= max_positions {
            return RiskCheckResult::Rejected(RiskViolation::MaxPositionsReached {
                current: open_positions.len(),
                max_allowed: max_positions,
            });
        }
        if cash < position_value {
            return RiskCheckResult::Rejected(RiskViolation::InsufficientCapital {
                required_cents: position_value,
                available_cents: cash,
            });
        }
        match self.check_correlation_exposure(symbol, position_value, open_positions) {
            Some(v) => RiskCheckResult::Rejected(v),
            None => RiskCheckResult::Approved,
        }
    }

    /// Finds the first correlation group that the proposed trade would
    /// overexpose, if any.
    fn check_correlation_exposure(
        &self,
        new_symbol: &Symbol,
        new_position_value: u64,
        open_positions: &Vec<(Symbol, u64)>,
    ) -> (r: Option<RiskViolation>)
        ensures
            r == spec_corr_violation(
                self.correlation_groups@,
                new_symbol@,
                new_position_value,
                open_positions@,
                self.current_cents,
                self.config.max_correlation_exposure_bps,
            ),
    {
        let ngroups = self.correlation_groups.len();
        let mut g: usize = 0;
        proof {
            assert(self.correlation_groups@.skip(0) =~= self.correlation_groups@);
        }
        while g < ngroups
            invariant
                ngroups == self.correlation_groups@.len(),
                0 <= g <= ngroups,
                spec_corr_violation(
                    self.correlation_groups@,
                    new_symbol@,
                    new_position_value,
                    open_positions@,
                    self.current_cents,
                    self.config.max_correlation_exposure_bps,
                ) == spec_corr_violation(
                    self.correlation_groups@.skip(g as int),
                    new_symbol@,
                    new_position_value,
                    open_positions@,
                    self.current_cents,
                    self.config.max_correlation_exposure_bps,
                ),
            decreases ngroups - g,
        {
            let group = &self.correlation_groups[g];
            let member = group_contains(&group.symbols, new_symbol);
            let gsum = group_sum(&group.symbols, open_positions);
            proof {
                assert(self.config.max_correlation_exposure_bps * self.current_cents
                    <= u32::MAX * (u64::MAX as int)) by (nonlinear_arith)
                    requires
                        self.config.max_correlation_exposure_bps <= u32::MAX,
                        self.current_cents <= u64::MAX,
                ;
            }
            let exposure: u128 = new_position_value as u128 + gsum;
            let threshold: u128 = self.config.max_correlation_exposure_bps as u128
                * self.current_cents as u128;
            proof {
                assert(self.correlation_groups@.skip(g as int)[0]
                    == self.correlation_groups@[g as int]);
                lemma_scaled_gt(exposure as int, threshold as int, 10000);
            }
            if member && exposure > threshold / 10000 {
                return Some(RiskViolation::CorrelationExposure {
                    exposure_cents: exposure,
                    current_value_cents: self.current_cents,
                    max_allowed_bps: self.config.max_correlation_exposure_bps,
                });
            }
            proof {
                assert(self.correlation_groups@.skip(g as int).drop_first()
                    =~= self.correlation_groups@.skip(g as int + 1));
            }
            g += 1;
        }
        None
    }

    /// The current daily drawdown in basis points: positive for a loss,
    /// negative for a gain.
    pub fn current_drawdown_bps(&self) -> (r: i128)
        ensures
            r == spec_drawdown_bps(self.day_start_cents as int, self.current_cents as int),
    {
        let ds = self.day_start_cents;
        let c = self.current_cents;
        if ds == 0 {
            0
        } else if c <= ds {
            proof {
                lemma_ratio_bps_bounded((ds - c) as int, ds as int);
            }
            (((ds - c) as u128 * 10000) / ds as u128) as i128
        } else {
            proof {
                lemma_div_le_numerator(((c - ds) as int) * 10000, ds as int);
            }
            -((((c - ds) as u128 * 10000) / ds as u128) as i128)
        }
    }

    /// The length of the current losing streak.
    pub fn consecutive_losses(&self) -> (r: usize)
        ensures
            r == self.consecutive_losses,
    {
        self.consecutive_losses
    }

    /// A read-only snapshot of the risk state.
    pub fn stats(&self) -> (r: RiskStats)
        ensures
            r.current_value_cents == self.current_cents,
            r.day_start_value_cents == self.day_start_cents,
            r.daily_drawdown_bps == spec_drawdown_bps(
                self.day_start_cents as int,
                self.current_cents as int,
            ),
            r.consecutive_losses == self.consecutive_losses,
            r.max_daily_drawdown_bps == self.config.max_daily_drawdown_bps,
            r.max_consecutive_losses == self.config.max_consecutive_losses,
    {
        RiskStats {
            current_value_cents: self.current_cents,
            day_start_value_cents: self.day_start_cents,
            daily_drawdown_bps: self.current_drawdown_bps(),
            consecutive_losses: self.consecutive_losses,
            max_daily_drawdown_bps: self.config.max_daily_drawdown_bps,
            max_consecutive_losses: self.config.max_consecutive_losses,
        }
    }
}

/// True exactly when `sym` names the same instrument as one of `symbols`.
fn group_contains(symbols: &Vec<Symbol>, sym: &Symbol) -> (r: bool)
    ensures
        r == spec_group_contains(symbols@, sym@),
{
    let n = symbols.len();
    let mut i: usize = 0;
    while i < n
        invariant
            n == symbols@.len(),
            0 <= i <= n,
            forall|j: int| 0 <= j < i ==> (#[trigger] symbols@[j])@ != sym@,
        decreases n - i,
    {
        if symbols[i].same_as(sym) {
            return true;
        }
        i += 1;
    }
    false
}

/// The combined value of the open positions whose symbol is in `symbols`.
fn group_sum(symbols: &Vec<Symbol>, positions: &Vec<(Symbol, u64)>) -> (r: u128)
    ensures
        r == spec_group_sum(symbols@, positions@),
        r <= u128::MAX - u64::MAX,
{
    let n = positions.len();
    let mut i: usize = 0;
    let mut sum: u128 = 0;
    proof {
        assert(positions@.skip(0) =~= positions@);
        lemma_group_sum_bound(symbols@, positions@);
        assert(n * (u64::MAX as int) <= u128::MAX - u64::MAX) by (nonlinear_arith)
            requires
                0 <= n <= usize::MAX,
        ;
    }
    while i < n
        invariant
            n == positions@.len(),
            0 <= i <= n,
            sum == spec_group_sum(symbols@, positions@)
                - spec_group_sum(symbols@, positions@.skip(i as int)),
            spec_group_sum(symbols@, positions@) <= n * (u64::MAX as int),
            n * (u64::MAX as int) <= u128::MAX - u64::MAX,
            0 <= spec_group_sum(symbols@, positions@),
        decreases n - i,
    {
        proof {
            lemma_group_sum_bound(symbols@, positions@.skip(i as int));
            lemma_group_sum_bound(symbols@, positions@.skip(i as int + 1));
            assert(positions@.skip(i as int)[0] == positions@[i as int]);
            assert(positions@.skip(i as int).drop_first() =~= positions@.skip(i as int + 1));
        }
        if group_contains_ref(symbols, &positions[i].0) {
            sum = sum + positions[i].1 as u128;
        }
        i += 1;
    }
    proof {
        assert(positions@.skip(n as int) =~= Seq::<(Symbol, u64)>::empty());
    }
    sum
}

/// As [`group_contains`], taking the symbol by reference from a pair.
fn group_contains_ref(symbols: &Vec<Symbol>, sym: &Symbol) -> (r: bool)
    ensures
        r == spec_group_contains(symbols@, sym@),
{
    group_contains(symbols, sym)
}

/// Every group sum is bounded by the number of positions times the largest
/// representable value, and is never negative.
proof fn lemma_group_sum_bound(symbols: Seq<Symbol>, positions: Seq<(Symbol, u64)>)
    ensures
        0 <= spec_group_sum(symbols, positions) <= positions.len() * (u64::MAX as int),
    decreases positions.len(),
{
    if positions.len() == 0 {
    } else {
        lemma_group_sum_bound(symbols, positions.drop_first());
        assert((positions.len() - 1) * (u64::MAX as int) + (u64::MAX as int)
            == positions.len() * (u64::MAX as int)) by (nonlinear_arith);
    }
}

/// True exactly when `sym` names the same instrument as one of `symbols`.
pub open spec fn spec_group_contains_name(symbols: Seq<Symbol>, sym: Seq<char>) -> bool {
    exists|i: int| 0 <= i < symbols.len() && (#[trigger] symbols[i])@ == sym
}

/// As [`spec_group_sum`], over positions keyed by symbol name rather than
/// by symbol value; the replay folds carry names.
pub open spec fn spec_group_sum_by_name(
    symbols: Seq<Symbol>,
    positions: Seq<(Seq<char>, u64)>,
) -> int
    decreases positions.len(),
{
    if positions.len() == 0 {
        0
    } else {
        (if spec_group_contains_name(symbols, positions[0].0) {
            positions[0].1 as int
        } else {
            0
        }) + spec_group_sum_by_name(symbols, positions.drop_first())
    }
}

/// As [`spec_corr_violation`], over name-keyed positions.
pub open spec fn spec_corr_violation_by_name(
    groups: Seq<CorrelationGroup>,
    sym: Seq<char>,
    position_value: u64,
    positions: Seq<(Seq<char>, u64)>,
    current: u64,
    max_bps: u32,
) -> Option<RiskViolation>
    decreases groups.len(),
{
    if groups.len() == 0 {
        None
    } else {
        let exposure = position_value + spec_group_sum_by_name(groups[0].symbols@, positions);
        if spec_group_contains(groups[0].symbols@, sym) && exposure * 10000 > max_bps * current {
            Some(RiskViolation::CorrelationExposure {
                exposure_cents: exposure as u128,
                current_value_cents: current,
                max_allowed_bps: max_bps,
            })
        } else {
            spec_corr_violation_by_name(
                groups.drop_first(),
                sym,
                position_value,
                positions,
                current,
                max_bps,
            )
        }
    }
}

/// The name-keyed position list of a symbol-keyed one.
pub open spec fn spec_pairs_by_name(a: Seq<(Symbol, u64)>) -> Seq<(Seq<char>, u64)> {
    a.map_values(|p: (Symbol, u64)| (p.0@, p.1))
}

/// Pointwise sameness of two (symbol, value) position lists: equal values
/// under symbols naming the same instruments.
pub open spec fn spec_pairs_equiv(a: Seq<(Symbol, u64)>, b: Seq<(Symbol, u64)>) -> bool {
    &&& a.len() == b.len()
    &&& forall|i: int|
        0 <= i < a.len() ==> ((#[trigger] a[i]).0@ == b[i].0@ && a[i].1 == b[i].1)
}

/// Group sums only read symbol names and values, so equivalent position
/// lists produce the same sum.
pub proof fn lemma_group_sum_equiv(symbols: Seq<Symbol>, a: Seq<(Symbol, u64)>, b: Seq<(Symbol, u64)>)
    requires
        spec_pairs_equiv(a, b),
    ensures
        spec_group_sum(symbols, a) == spec_group_sum(symbols, b),
    decreases a.len(),
{
    if a.len() > 0 {
        assert(a[0].0@ == b[0].0@ && a[0].1 == b[0].1);
        assert(spec_pairs_equiv(a.drop_first(), b.drop_first())) by {
            assert(forall|i: int|
                0 <= i < a.drop_first().len() ==> ((#[trigger] a.drop_first()[i]) == a[i + 1]
                    && b.drop_first()[i] == b[i + 1]));
        }
        lemma_group_sum_equiv(symbols, a.drop_first(), b.drop_first());
    }
}

/// The correlation check only reads symbol names and values of the
/// position list.
pub proof fn lemma_corr_violation_equiv(
    groups: Seq<CorrelationGroup>,
    sym: Seq<char>,
    position_value: u64,
    a: Seq<(Symbol, u64)>,
    b: Seq<(Symbol, u64)>,
    current: u64,
    max_bps: u32,
)
    requires
        spec_pairs_equiv(a, b),
    ensures
        spec_corr_violation(groups, sym, position_value, a, current, max_bps)
            == spec_corr_violation(groups, sym, position_value, b, current, max_bps),
    decreases groups.len(),
{
    if groups.len() > 0 {
        lemma_group_sum_equiv(groups[0].symbols@, a, b);
        lemma_corr_violation_equiv(
            groups.drop_first(),
            sym,
            position_value,
            a,
            b,
            current,
            max_bps,
        );
    }
}

/// The whole trade check only reads symbol names and values of the
/// position list.
pub proof fn lemma_check_trade_pairs_equiv(
    m: RiskManager,
    sym: Seq<char>,
    position_value: u64,
    risk_amount: u64,
    a: Seq<(Symbol, u64)>,
    b: Seq<(Symbol, u64)>,
    max_positions: usize,
    cash: u64,
)
    requires
        spec_pairs_equiv(a, b),
    ensures
        m.spec_check_trade(sym, position_value, risk_amount, a, max_positions, cash)
            == m.spec_check_trade(sym, position_value, risk_amount, b, max_positions, cash),
{
    lemma_corr_violation_equiv(
        m.correlation_groups@,
        sym,
        position_value,
        a,
        b,
        m.current_cents,
        m.config.max_correlation_exposure_bps,
    );
}

/// A name-keyed group sum agrees with the symbol-keyed one over the same
/// positions.
pub proof fn lemma_group_sum_by_name(symbols: Seq<Symbol>, a: Seq<(Symbol, u64)>)
    ensures
        spec_group_sum(symbols, a) == spec_group_sum_by_name(symbols, spec_pairs_by_name(a)),
    decreases a.len(),
{
    if a.len() > 0 {
        assert(spec_pairs_by_name(a)[0] == (a[0].0@, a[0].1));
        assert(spec_pairs_by_name(a).drop_first() =~= spec_pairs_by_name(a.drop_first()));
        lemma_group_sum_by_name(symbols, a.drop_first());
    }
}

/// The name-keyed correlation check agrees with the symbol-keyed one.
pub proof fn lemma_corr_violation_by_name(
    groups: Seq<CorrelationGroup>,
    sym: Seq<char>,
    position_value: u64,
    a: Seq<(Symbol, u64)>,
    current: u64,
    max_bps: u32,
)
    ensures
        spec_corr_violation(groups, sym, position_value, a, current, max_bps)
            == spec_corr_violation_by_name(
            groups,
            sym,
            position_value,
            spec_pairs_by_name(a),
            current,
            max_bps,
        ),
    decreases groups.len(),
{
    if groups.len() > 0 {
        lemma_group_sum_by_name(groups[0].symbols@, a);
        lemma_corr_violation_by_name(groups.drop_first(), sym, position_value, a, current, max_bps);
    }
}

/// The name-keyed trade check agrees with the symbol-keyed one.
pub proof fn lemma_check_trade_by_name(
    m: RiskManager,
    sym: Seq<char>,
    position_value: u64,
    risk_amount: u64,
    a: Seq<(Symbol, u64)>,
    max_positions: usize,
    cash: u64,
)
    ensures
        m.spec_check_trade(sym, position_value, risk_amount, a, max_positions, cash)
            == m.spec_check_trade_by_name(
            sym,
            position_value,
            risk_amount,
            spec_pairs_by_name(a),
            max_positions,
            cash,
        ),
{
    lemma_corr_violation_by_name(
        m.correlation_groups@,
        sym,
        position_value,
        a,
        m.current_cents,
        m.config.max_correlation_exposure_bps,
    );
}

/// For every configuration and manager state, `check_trade` never approves
/// a trade while the current portfolio value sits at or below the
/// emergency-stop floor.
pub proof fn lemma_emergency_stop_gates_approval(
    m: RiskManager,
    sym: Seq<char>,
    position_value: u64,
    risk_amount: u64,
    positions: Seq<(Symbol, u64)>,
    max_positions: usize,
    cash: u64,
)
    requires
        m.current_cents <= m.config.emergency_stop_cents,
    ensures
        m.spec_check_trade(sym, position_value, risk_amount, positions, max_positions, cash)
            != RiskCheckResult::Approved,
{
}

/// The checks are independent AND-gates: a trade is approved only when
/// every single check passes, and the first failing check in the fixed
/// priority order is the one reported.
pub proof fn lemma_approval_passes_every_check(
    m: RiskManager,
    sym: Seq<char>,
    position_value: u64,
    risk_amount: u64,
    positions: Seq<(Symbol, u64)>,
    max_positions: usize,
    cash: u64,
)
    requires
        m.spec_check_trade(sym, position_value, risk_amount, positions, max_positions, cash)
            == RiskCheckResult::Approved,
    ensures
        m.current_cents > m.config.emergency_stop_cents,
        spec_drawdown_bps(m.day_start_cents as int, m.current_cents as int)
            < m.config.max_daily_drawdown_bps,
        m.consecutive_losses < m.config.max_consecutive_losses,
        risk_amount * 10000 <= m.config.max_risk_per_trade_bps * m.current_cents,
        positions.len() < max_positions,
        cash >= position_value,
        spec_corr_violation(
            m.correlation_groups@,
            sym,
            position_value,
            positions,
            m.current_cents,
            m.config.max_correlation_exposure_bps,
        ) is None,
{
}

/// The consecutive-loss counter after replaying `pnls` through
/// [`RiskManager::record_trade`], starting from a counter of `c0`.
/// Each step is exactly the step that `record_trade` ensures.
pub open spec fn spec_replay_losses(c0: int, pnls: Seq<i64>) -> int
    decreases pnls.len(),
{
    if pnls.len() == 0 {
        c0
    } else {
        let prev = spec_replay_losses(c0, pnls.drop_last());
        if pnls.last() < 0 {
            if prev >= usize::MAX {
                usize::MAX as int
            } else {
                prev + 1
            }
        } else {
            0
        }
    }
}

/// The length of the trailing run of strictly negative results in `pnls`,
/// uninterrupted by a non-negative one.
pub open spec fn spec_trailing_losses(pnls: Seq<i64>) -> int
    decreases pnls.len(),
{
    if pnls.len() == 0 {
        0
    } else if pnls.last() >= 0 {
        0
    } else {
        1 + spec_trailing_losses(pnls.drop_last())
    }
}

/// The trailing run is never longer than the whole sequence.
pub proof fn lemma_trailing_losses_le_len(pnls: Seq<i64>)
    ensures
        0 <= spec_trailing_losses(pnls) <= pnls.len(),
    decreases pnls.len(),
{
    if pnls.len() > 0 {
        lemma_trailing_losses_le_len(pnls.drop_last());
    }
}

/// After any sequence of recorded trade results, starting from a cleared
/// counter, the consecutive-loss counter equals the length of the current
/// trailing run of strictly negative results: a loss lengthens the run and
/// any non-negative result ends it.
pub proof fn lemma_loss_streak(pnls: Seq<i64>)
    requires
        pnls.len() <= usize::MAX,
    ensures
        spec_replay_losses(0, pnls) == spec_trailing_losses(pnls),
    decreases pnls.len(),
{
    if pnls.len() > 0 {
        lemma_loss_streak(pnls.drop_last());
        lemma_trailing_losses_le_len(pnls.drop_last());
    }
}

/// A read-only snapshot of the risk manager's state.
#[derive(Debug, Clone, Copy, PartialEq, Eq, Structural)]
pub struct RiskStats {
    pub current_value_cents: u64,
    pub day_start_value_cents: u64,
    /// Positive for a loss, negative for a gain.
    pub daily_drawdown_bps: i128,
    pub consecutive_losses: usize,
    pub max_daily_drawdown_bps: u32,
    pub max_consecutive_losses: usize,
}

impl RiskStats {
    /// True exactly when both the drawdown and the loss streak are inside
    /// their limits.
    pub fn is_healthy(&self) -> (r: bool)
        ensures
            r == (self.daily_drawdown_bps < self.max_daily_drawdown_bps
                && self.consecutive_losses < self.max_consecutive_losses),
    {
        self.daily_drawdown_bps < self.max_daily_drawdown_bps as i128
            && self.consecutive_losses < self.max_consecutive_losses
    }
}

} // verus!
