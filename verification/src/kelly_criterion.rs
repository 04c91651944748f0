//! Kelly-criterion position sizing.
//!
//! The Kelly fraction `(p*b - q) / b` is computed over integer statistics:
//! rates are carried in basis points, the win/loss ratio `b` in thousandths,
//! and every division rounds toward zero. The configured `kelly_fraction`
//! then scales the raw fraction down (half Kelly by default).

use vstd::prelude::*;

use crate::math::{lemma_div_le_numerator, lemma_ratio_bps_bounded};
use crate::types::price::Price;
use crate::types::signal::Confidence;

verus! {

/// Sizing limits and Kelly parameters, in basis points where applicable.
#[derive(Debug, Clone, Copy, PartialEq, Eq, Structural)]
pub struct KellyConfig {
    /// Multiplier applied to the raw Kelly fraction, in basis points of one
    /// (5000 means half Kelly). Values above 10000 count as 10000.
    pub kelly_fraction_bps: u32,
    /// Smallest win rate at which Kelly is trusted, in basis points.
    pub min_win_rate_bps: u32,
    /// Largest position as basis points of the portfolio.
    pub max_position_bps: u32,
    /// Smallest position as basis points of the portfolio.
    pub min_position_bps: u32,
    /// Number of recorded trades required before Kelly is used.
    pub min_trades_for_kelly: usize,
    /// Position size used while the history is too short, in basis points.
    pub default_position_bps: u32,
}

impl Default for KellyConfig {
    /// Half Kelly, 40% minimum win rate, positions between 0.5% and 10%,
    /// twenty trades of history, 2% default size.
    fn default() -> (r: KellyConfig)
        ensures
            r.kelly_fraction_bps == 5000,
            r.min_win_rate_bps == 4000,
            r.max_position_bps == 1000,
            r.min_position_bps == 50,
            r.min_trades_for_kelly == 20,
            r.default_position_bps == 200,
    {
        KellyConfig {
            kelly_fraction_bps: 5000,
            min_win_rate_bps: 4000,
            max_position_bps: 1000,
            min_position_bps: 50,
            min_trades_for_kelly: 20,
            default_position_bps: 200,
        }
    }
}

/// Running trade statistics feeding the Kelly formula: monotonically
/// updated by `record_trade`, never rolled back.
#[derive(Debug, Clone, Copy, PartialEq, Eq, Structural)]
pub struct TradingStats {
    /// Number of recorded trades, wins, losses and breakevens together.
    pub total_trades: usize,
    /// Number of strictly profitable trades.
    pub wins: usize,
    /// Number of strictly losing trades.
    pub losses: usize,
    /// Sum of all winning results, in cents.
    pub total_win_cents: u64,
    /// Sum of the magnitudes of all losing results, in cents.
    pub total_loss_cents: u64,
}

impl TradingStats {
    /// The invariant `record_trade` maintains: wins and losses never exceed
    /// the trade count, and every win or loss contributed at least one cent.
    pub open spec fn wf(self) -> bool {
        &&& self.wins + self.losses <= self.total_trades
        &&& self.wins <= self.total_win_cents
        &&& self.losses <= self.total_loss_cents
    }

    /// True when the counters are too close to their representable limits
    /// for another trade to be recorded; the statistics then freeze.
    pub open spec fn spec_frozen(self) -> bool {
        self.total_trades >= usize::MAX || self.total_win_cents >= u64::MAX / 2
            || self.total_loss_cents >= u64::MAX / 2
    }

    /// Empty statistics.
    pub fn new() -> (r: TradingStats)
        ensures
            r.total_trades == 0,
            r.wins == 0,
            r.losses == 0,
            r.total_win_cents == 0,
            r.total_loss_cents == 0,
            r.wf(),
    {
        TradingStats { total_trades: 0, wins: 0, losses: 0, total_win_cents: 0, total_loss_cents: 0 }
    }

    /// Records one realized result: a positive result counts as a win, a
    /// negative one as a loss, zero as a breakeven. Once the counters reach
    /// their representable limits the statistics freeze.
    pub fn record_trade(&mut self, pnl_cents: i64)
        requires
            old(self).wf(),
        ensures
            final(self).wf(),
            old(self).spec_frozen() ==> *final(self) == *old(self),
            !old(self).spec_frozen() ==> {
                &&& final(self).total_trades == old(self).total_trades + 1
                &&& final(self).wins == old(self).wins + if pnl_cents > 0 { 1int } else { 0 }
                &&& final(self).losses == old(self).losses + if pnl_cents < 0 { 1int } else { 0 }
                &&& final(self).total_win_cents == old(self).total_win_cents + if pnl_cents > 0 {
                    pnl_cents as int
                } else {
                    0
                }
                &&& final(self).total_loss_cents == old(self).total_loss_cents + if pnl_cents < 0 {
                    -(pnl_cents as int)
                } else {
                    0
                }
            },
    {
        if self.total_trades >= usize::MAX || self.total_win_cents >= u64::MAX / 2
            || self.total_loss_cents >= u64::MAX / 2 {
            return;
        }
        self.total_trades = self.total_trades + 1;
        if pnl_cents > 0 {
            self.wins = self.wins + 1;
            self.total_win_cents = self.total_win_cents + (pnl_cents as u64);
        } else if pnl_cents < 0 {
            self.losses = self.losses + 1;
            let magnitude = (-(pnl_cents as i128)) as u64;
            self.total_loss_cents = self.total_loss_cents + magnitude;
        }
    }

    /// The share of recorded trades that won, in basis points; `None`
    /// before the first trade.
    pub fn win_rate(&self) -> (r: Option<u32>)
        requires
            self.wf(),
        ensures
            self.total_trades == 0 ==> r is None,
            self.total_trades > 0 ==> r == Some(
                (self.wins * 10000 / (self.total_trades as int)) as u32,
            ),
    {
        if self.total_trades == 0 {
            return None;
        }
        proof {
            lemma_ratio_bps_bounded(self.wins as int, self.total_trades as int);
        }
        Some(((self.wins as u128 * 10000) / (self.total_trades as u128)) as u32)
    }

    /// The average winning result in cents; `None` before the first win.
    pub fn avg_win(&self) -> (r: Option<u64>)
        requires
            self.wf(),
        ensures
            self.wins == 0 ==> r is None,
            self.wins > 0 ==> r == Some(
                (self.total_win_cents as int / (self.wins as int)) as u64,
            ),
            r matches Some(v) ==> v >= 1,
    {
        if self.wins == 0 {
            return None;
        }
        proof {
            vstd::arithmetic::div_mod::lemma_div_is_ordered_by_denominator(
                self.total_win_cents as int,
                1,
                self.wins as int,
            );
            vstd::arithmetic::div_mod::lemma_div_non_zero(
                self.total_win_cents as int,
                self.wins as int,
            );
        }
        Some(self.total_win_cents / (self.wins as u64))
    }

    /// The average losing magnitude in cents; `None` before the first loss.
    pub fn avg_loss(&self) -> (r: Option<u64>)
        requires
            self.wf(),
        ensures
            self.losses == 0 ==> r is None,
            self.losses > 0 ==> r == Some(
                (self.total_loss_cents as int / (self.losses as int)) as u64,
            ),
            r matches Some(v) ==> v >= 1,
    {
        if self.losses == 0 {
            return None;
        }
        proof {
            vstd::arithmetic::div_mod::lemma_div_is_ordered_by_denominator(
                self.total_loss_cents as int,
                1,
                self.losses as int,
            );
            vstd::arithmetic::div_mod::lemma_div_non_zero(
                self.total_loss_cents as int,
                self.losses as int,
            );
        }
        Some(self.total_loss_cents / (self.losses as u64))
    }

    /// The ratio of the average win to the average loss, in thousandths
    /// (`b` in the Kelly formula); `None` without both a win and a loss.
    pub fn win_loss_ratio(&self) -> (r: Option<u64>)
        requires
            self.wf(),
        ensures
            r == spec_win_loss_ratio_milli(*self),
    {
        let aw = match self.avg_win() {
            Some(v) => v,
            None => { return None; },
        };
        let al = match self.avg_loss() {
            Some(v) => v,
            None => { return None; },
        };
        proof {
            lemma_div_le_numerator((aw as int) * 1000, al as int);
            assert(aw * 1000 <= u64::MAX * 1000) by (nonlinear_arith)
                requires
                    aw <= u64::MAX,
            ;
        }
        Some(((aw as u128 * 1000) / (al as u128)) as u64)
    }

    /// True exactly when the history is long enough for Kelly and holds at
    /// least one win and one loss.
    pub fn has_sufficient_data(&self, min_trades: usize) -> (r: bool)
        ensures
            r == (self.total_trades >= min_trades && self.wins > 0 && self.losses > 0),
    {
        self.total_trades >= min_trades && self.wins > 0 && self.losses > 0
    }
}

/// The win/loss ratio in thousandths, or `None` without both a win and a
/// loss on record.
pub open spec fn spec_win_loss_ratio_milli(s: TradingStats) -> Option<u64> {
    if s.wins == 0 || s.losses == 0 {
        None
    } else {
        let aw = s.total_win_cents as int / (s.wins as int);
        let al = s.total_loss_cents as int / (s.losses as int);
        Some((aw * 1000 / al) as u64)
    }
}

/// The scaled Kelly percentage in basis points, or `None` when the history
/// is insufficient, the win rate is below the configured floor, or the
/// scaled Kelly fraction comes out non-positive.
pub open spec fn spec_kelly_bps(cfg: KellyConfig, s: TradingStats) -> Option<u64> {
    if !(s.total_trades >= cfg.min_trades_for_kelly && s.wins > 0 && s.losses > 0) {
        None
    } else if s.wins * 10000 < cfg.min_win_rate_bps * s.total_trades {
        None
    } else {
        let p_bps = s.wins * 10000 / (s.total_trades as int);
        let q_bps = 10000 - p_bps;
        let b_milli = spec_win_loss_ratio_milli(s)->Some_0 as int;
        if b_milli == 0 {
            None
        } else {
            let raw_num = p_bps * b_milli - q_bps * 1000;
            if raw_num <= 0 {
                None
            } else {
                let raw_bps = raw_num / b_milli;
                let fraction = if cfg.kelly_fraction_bps > 10000 {
                    10000int
                } else {
                    cfg.kelly_fraction_bps as int
                };
                let scaled = raw_bps * fraction / 10000;
                if scaled <= 0 {
                    None
                } else {
                    Some(scaled as u64)
                }
            }
        }
    }
}

/// The Kelly calculator: the trade statistics plus the configuration.
#[derive(Debug, Clone, Copy, PartialEq, Eq, Structural)]
pub struct KellyCriterion {
    /// The sizing configuration.
    pub config: KellyConfig,
    /// The running statistics (see [`TradingStats::wf`]).
    pub stats: TradingStats,
}

/// Which rule sized a position.
#[derive(Debug, Clone, Copy, PartialEq, Eq, Structural)]
pub enum SizingMethod {
    /// Kelly had enough history and was used.
    Kelly,
    /// The fixed default percentage was used.
    Fixed,
}

/// A recommended position, with the inputs that produced it.
#[derive(Debug, Clone, Copy, PartialEq, Eq, Structural)]
pub struct PositionSummary {
    /// Shares to buy.
    pub quantity: u64,
    /// Position value in cents.
    pub position_value_cents: u64,
    /// Position as basis points of the portfolio.
    pub position_bps: u128,
    /// Which rule sized it.
    pub sizing_method: SizingMethod,
    /// The scaled Kelly percentage, if available.
    pub kelly_bps: Option<u64>,
    /// Trades on record.
    pub trades_completed: usize,
    /// Win rate in basis points, if any trade is on record.
    pub win_rate_bps: Option<u32>,
}

impl KellyCriterion {
    /// The calculator's invariant: its statistics are well formed.
    pub open spec fn wf(self) -> bool {
        self.stats.wf()
    }

    /// A calculator with the default configuration and no history.
    pub fn new() -> (r: KellyCriterion)
        ensures
            r.config == (KellyConfig {
                kelly_fraction_bps: 5000,
                min_win_rate_bps: 4000,
                max_position_bps: 1000,
                min_position_bps: 50,
                min_trades_for_kelly: 20,
                default_position_bps: 200,
            }),
            r.stats == (TradingStats {
                total_trades: 0,
                wins: 0,
                losses: 0,
                total_win_cents: 0,
                total_loss_cents: 0,
            }),
            r.wf(),
    {
        KellyCriterion { config: KellyConfig::default(), stats: TradingStats::new() }
    }

    /// A calculator with a custom configuration and no history.
    pub fn with_config(config: KellyConfig) -> (r: KellyCriterion)
        ensures
            r.config == config,
            r.stats == (TradingStats {
                total_trades: 0,
                wins: 0,
                losses: 0,
                total_win_cents: 0,
                total_loss_cents: 0,
            }),
            r.wf(),
    {
        KellyCriterion { config, stats: TradingStats::new() }
    }

    /// Records one realized result into the statistics.
    pub fn record_trade(&mut self, pnl_cents: i64)
        requires
            old(self).wf(),
        ensures
            final(self).wf(),
            final(self).config == old(self).config,
            old(self).stats.spec_frozen() ==> final(self).stats == old(self).stats,
            !old(self).stats.spec_frozen() ==> {
                &&& final(self).stats.total_trades == old(self).stats.total_trades + 1
                &&& final(self).stats.wins == old(self).stats.wins + if pnl_cents > 0 {
                    1int
                } else {
                    0
                }
                &&& final(self).stats.losses == old(self).stats.losses + if pnl_cents < 0 {
                    1int
                } else {
                    0
                }
                &&& final(self).stats.total_win_cents == old(self).stats.total_win_cents
                    + if pnl_cents > 0 { pnl_cents as int } else { 0 }
                &&& final(self).stats.total_loss_cents == old(self).stats.total_loss_cents
                    + if pnl_cents < 0 { -(pnl_cents as int) } else { 0 }
            },
    {
        self.stats.record_trade(pnl_cents);
    }

    /// The running statistics.
    pub fn stats(&self) -> (r: &TradingStats)
        ensures
            r == self.stats,
    {
        &self.stats
    }

    /// The scaled Kelly percentage in basis points. `None` whenever the
    /// trade count is below the configured minimum, a win or a loss is
    /// missing, the win rate is below its floor, or the computed Kelly
    /// fraction is not positive.
    pub fn kelly_bps(&self) -> (r: Option<u64>)
        requires
            self.wf(),
        ensures
            r == spec_kelly_bps(self.config, self.stats),
            self.stats.total_trades < self.config.min_trades_for_kelly ==> r is None,
    {
        if !self.stats.has_sufficient_data(self.config.min_trades_for_kelly) {
            return None;
        }
        proof {
            assert(self.stats.wins * 10000 <= usize::MAX * 10000) by (nonlinear_arith)
                requires
                    self.stats.wins <= usize::MAX,
            ;
            assert(self.config.min_win_rate_bps * self.stats.total_trades
                <= u32::MAX * (usize::MAX as int)) by (nonlinear_arith)
                requires
                    self.config.min_win_rate_bps <= u32::MAX,
                    self.stats.total_trades <= usize::MAX,
            ;
        }
        if (self.stats.wins as u128) * 10000
            < (self.config.min_win_rate_bps as u128) * (self.stats.total_trades as u128) {
            return None;
        }
        proof {
            lemma_ratio_bps_bounded(self.stats.wins as int, self.stats.total_trades as int);
        }
        let p_bps: u64 = ((self.stats.wins as u128 * 10000) / (self.stats.total_trades as u128))
            as u64;
        let q_bps: u64 = 10000 - p_bps;
        let b_milli: u64 = match self.stats.win_loss_ratio() {
            Some(v) => v,
            None => { return None; },
        };
        if b_milli == 0 {
            return None;
        }
        proof {
            assert(p_bps * b_milli <= 10000 * (u64::MAX as int)) by (nonlinear_arith)
                requires
                    p_bps <= 10000,
                    b_milli <= u64::MAX,
            ;
        }
        let pb: u128 = (p_bps as u128) * (b_milli as u128);
        let qk: u128 = (q_bps as u128) * 1000;
        if pb <= qk {
            return None;
        }
        let raw_num: u128 = pb - qk;
        proof {
            lemma_div_le_numerator(raw_num as int, b_milli as int);
        }
        let raw_bps: u128 = raw_num / (b_milli as u128);
        let fraction: u64 = if self.config.kelly_fraction_bps > 10000 {
            10000
        } else {
            self.config.kelly_fraction_bps as u64
        };
        proof {
            assert(raw_bps * fraction <= raw_num * 10000) by (nonlinear_arith)
                requires
                    0 <= raw_bps <= raw_num,
                    0 <= fraction <= 10000,
            ;
        }
        let scaled: u128 = raw_bps * (fraction as u128) / 10000;
        if scaled == 0 {
            return None;
        }
        proof {
            lemma_div_le_numerator((raw_bps * fraction) as int, 10000);
            lemma_div_le_numerator(raw_num as int, b_milli as int);
            assert(raw_bps <= 10000 * (u64::MAX as int));
        }
        Some(scaled as u64)
    }

    /// The recommended position value in cents: the Kelly percentage when
    /// available, else the default, scaled by the signal confidence when
    /// one is given, clamped between the configured floor and cap, and
    /// applied to the portfolio value. Saturates at the largest
    /// representable amount.
    pub fn position_size(&self, portfolio_cents: u64, confidence: Option<Confidence>) -> (r: u64)
        requires
            self.wf(),
        ensures
            r == spec_position_size(
                self.config,
                self.stats,
                portfolio_cents as int,
                match confidence {
                    Some(c) => c.spec_bps() as int,
                    None => 10000,
                },
            ),
    {
        let base_bps: u64 = match self.kelly_bps() {
            Some(k) => k,
            None => self.config.default_position_bps as u64,
        };
        let conf_bps: u64 = match confidence {
            Some(c) => c.value() as u64,
            None => 10000,
        };
        proof {
            assert(base_bps * conf_bps <= (u64::MAX as int) * 10000) by (nonlinear_arith)
                requires
                    base_bps <= u64::MAX,
                    conf_bps <= 10000,
            ;
            lemma_div_le_numerator((base_bps * conf_bps) as int, 10000);
        }
        let adjusted_bps: u64 = ((base_bps as u128 * conf_bps as u128) / 10000) as u64;
        let floored: u64 = if adjusted_bps < self.config.min_position_bps as u64 {
            self.config.min_position_bps as u64
        } else {
            adjusted_bps
        };
        let capped: u64 = if floored > self.config.max_position_bps as u64 {
            self.config.max_position_bps as u64
        } else {
            floored
        };
        proof {
            assert(portfolio_cents * capped <= (u64::MAX as int) * (u64::MAX as int))
                by (nonlinear_arith)
                requires
                    portfolio_cents <= u64::MAX,
                    capped <= u64::MAX,
            ;
        }
        let size: u128 = (portfolio_cents as u128) * (capped as u128) / 10000;
        if size > u64::MAX as u128 {
            u64::MAX
        } else {
            size as u64
        }
    }

    /// The recommended share count at the given price: the position value
    /// divided by the price, rounded down.
    pub fn calculate_quantity(
        &self,
        portfolio_cents: u64,
        current_price: Price,
        confidence: Option<Confidence>,
    ) -> (r: u64)
        requires
            self.wf(),
        ensures
            r == spec_position_size(
                self.config,
                self.stats,
                portfolio_cents as int,
                match confidence {
                    Some(c) => c.spec_bps() as int,
                    None => 10000,
                },
            ) / (current_price.spec_cents() as int),
    {
        let size = self.position_size(portfolio_cents, confidence);
        size / current_price.value()
    }

    /// The full sizing recommendation, with the method and statistics that
    /// produced it.
    pub fn position_summary(
        &self,
        portfolio_cents: u64,
        current_price: Price,
        confidence: Option<Confidence>,
    ) -> (r: PositionSummary)
        requires
            self.wf(),
        ensures
            ({
                let size = spec_position_size(
                    self.config,
                    self.stats,
                    portfolio_cents as int,
                    match confidence {
                        Some(c) => c.spec_bps() as int,
                        None => 10000,
                    },
                );
                &&& r.position_value_cents == size
                &&& r.quantity == size / (current_price.spec_cents() as int)
                &&& r.position_bps == (if portfolio_cents == 0 {
                    0int
                } else {
                    size * 10000 / (portfolio_cents as int)
                })
                &&& r.sizing_method == (if spec_kelly_bps(self.config, self.stats) is Some {
                    SizingMethod::Kelly
                } else {
                    SizingMethod::Fixed
                })
                &&& r.kelly_bps == spec_kelly_bps(self.config, self.stats)
                &&& r.trades_completed == self.stats.total_trades
                &&& (self.stats.total_trades == 0 ==> r.win_rate_bps is None)
                &&& (self.stats.total_trades > 0 ==> r.win_rate_bps == Some(
                    (self.stats.wins * 10000 / (self.stats.total_trades as int)) as u32,
                ))
            }),
    {
        let position_value_cents = self.position_size(portfolio_cents, confidence);
        let quantity = position_value_cents / current_price.value();
        let position_bps: u128 = if portfolio_cents == 0 {
            0
        } else {
            (position_value_cents as u128 * 10000) / (portfolio_cents as u128)
        };
        let kelly = self.kelly_bps();
        let sizing_method = match kelly {
            Some(_) => SizingMethod::Kelly,
            None => SizingMethod::Fixed,
        };
        PositionSummary {
            quantity,
            position_value_cents,
            position_bps,
            sizing_method,
            kelly_bps: kelly,
            trades_completed: self.stats.total_trades,
            win_rate_bps: self.stats.win_rate(),
        }
    }
}

/// The position value `position_size` returns, in cents: the base
/// percentage scaled by confidence, clamped, applied to the portfolio, and
/// saturated at the largest representable amount.
pub open spec fn spec_position_size(
    cfg: KellyConfig,
    s: TradingStats,
    portfolio_cents: int,
    confidence_bps: int,
) -> int {
    let base_bps = match spec_kelly_bps(cfg, s) {
        Some(k) => k as int,
        None => cfg.default_position_bps as int,
    };
    let adjusted_bps = base_bps * confidence_bps / 10000;
    let floored = if adjusted_bps < cfg.min_position_bps {
        cfg.min_position_bps as int
    } else {
        adjusted_bps
    };
    let capped = if floored > cfg.max_position_bps {
        cfg.max_position_bps as int
    } else {
        floored
    };
    let size = portfolio_cents * capped / 10000;
    if size > u64::MAX {
        u64::MAX as int
    } else {
        size
    }
}

} // verus!
