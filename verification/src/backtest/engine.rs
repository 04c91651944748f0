//! The replay engine: drives the whole pipeline over aligned historical
//! series, one synchronized time step at a time, producing an equity
//! curve and a closed-trade ledger.
//!
//! The replay is strictly sequential: later risk and sizing decisions
//! depend on the cash and position state produced by earlier steps. Alpha
//! models are external collaborators, so the raw signals of each step are
//! handed in by the caller.

use vstd::prelude::*;

use crate::backtest::metrics::{spec_max_drawdown_bps, spec_period_return_bps, PerformanceMetrics};
use crate::backtest::trade::{BacktestTrade, ExitReason};
use crate::risk_manager::{RiskCheckResult, RiskManager, RiskManagerConfig};
use crate::signal_aggregator::{AggregationStrategy, SignalAggregator};
use crate::types::market_data::{MarketData, MarketSnapshot};
use crate::types::price::{Price, Quantity, MAX_SHARES};
use crate::types::signal::{Signal, SignalAction};
use crate::types::Symbol;

verus! {

/// Why a replay could not run at all. Per-step problems never abort a
/// replay; they only skip the offending signal or symbol.
#[derive(Debug, Clone, Copy, PartialEq, Eq, Structural)]
pub enum BacktestError {
    /// No historical series was provided.
    NoHistoricalData,
    /// Fewer than two aligned time steps are available.
    TooFewTimeSteps,
}

/// The immutable replay configuration, supplied whole at construction.
#[derive(Debug, Clone, Copy, PartialEq, Eq, Structural)]
pub struct BacktestConfig {
    /// Starting capital in cents.
    pub initial_capital_cents: u64,
    /// Fixed commission per trade, in cents.
    pub commission_cents: u64,
    /// Slippage as basis points of the price, applied against the trader.
    pub slippage_bps: u32,
    /// Default position size as basis points of capital.
    pub default_position_size_bps: u32,
    /// Scale the position size by the signal's confidence.
    pub use_confidence_sizing: bool,
    /// The risk limits the replay trades under.
    pub risk_config: RiskManagerConfig,
    /// How the signals of each step are aggregated.
    pub aggregation_strategy: AggregationStrategy,
}

impl Default for BacktestConfig {
    /// $10,000 of capital, $1 commission, 5 basis points of slippage, 10%
    /// default positions scaled by confidence, default risk limits,
    /// weighted-average aggregation.
    fn default() -> (r: BacktestConfig)
        ensures
            r.initial_capital_cents == 1_000_000,
            r.commission_cents == 100,
            r.slippage_bps == 5,
            r.default_position_size_bps == 1000,
            r.use_confidence_sizing,
            r.aggregation_strategy == AggregationStrategy::WeightedAverage,
            r.risk_config == (RiskManagerConfig {
                max_risk_per_trade_bps: 50,
                max_daily_drawdown_bps: 500,
                max_correlation_exposure_bps: 5000,
                max_consecutive_losses: 3,
                emergency_stop_cents: 500_000,
            }),
    {
        BacktestConfig {
            initial_capital_cents: 1_000_000,
            commission_cents: 100,
            slippage_bps: 5,
            default_position_size_bps: 1000,
            use_confidence_sizing: true,
            risk_config: RiskManagerConfig::default(),
            aggregation_strategy: AggregationStrategy::WeightedAverage,
        }
    }
}

/// What a finished replay hands back.
#[derive(Debug)]
pub struct BacktestResult {
    /// Risk-adjusted performance over the curve and the ledger.
    pub metrics: PerformanceMetrics,
    /// Every trade executed, all closed.
    pub trades: Vec<BacktestTrade>,
    /// One portfolio value per time step, after the starting value.
    pub equity_curve: Vec<u64>,
    /// Cash left at the end, in cents.
    pub final_capital_cents: u64,
    /// Raw signals seen.
    pub total_signals: usize,
    /// Signals the risk checks or capital constraints turned away.
    pub rejected_signals: usize,
}

/// The price actually paid after slippage: entries pay more, exits
/// receive less. When the adjusted price would leave the representable
/// range, the unadjusted price stands.
pub open spec fn spec_slipped_cents(price: int, slippage_bps: int, is_exit: bool) -> int {
    let amount = price * slippage_bps / 10000;
    if is_exit {
        if price - amount >= 1 {
            price - amount
        } else {
            price
        }
    } else {
        if price + amount <= i64::MAX {
            price + amount
        } else {
            price
        }
    }
}

/// The position value a step allots to a new signal: the default
/// percentage of capital, optionally scaled by confidence into the range
/// of half to full size.
pub open spec fn spec_backtest_position_cents(cfg: BacktestConfig, capital: int, conf_bps: int) -> int {
    let scaled_bps = if cfg.use_confidence_sizing {
        cfg.default_position_size_bps * (5000 + conf_bps / 2) / 10000
    } else {
        cfg.default_position_size_bps as int
    };
    let value = capital * scaled_bps / 10000;
    if value > u64::MAX {
        u64::MAX as int
    } else {
        value
    }
}

/// The length of the shortest historical series: the replay is truncated
/// to this many aligned time steps.
pub open spec fn spec_min_series_len(h: Seq<(Symbol, Vec<MarketData>)>) -> int
    decreases h.len(),
{
    if h.len() == 0 {
        0
    } else if h.len() == 1 {
        h[0].1@.len() as int
    } else {
        let rest = spec_min_series_len(h.drop_last());
        if h.last().1@.len() < rest {
            h.last().1@.len() as int
        } else {
            rest
        }
    }
}

/// True when a signal proposes an entry: neither a hold nor a bare close.
pub open spec fn spec_is_entry_signal(v: crate::types::signal::SignalView) -> bool {
    v.action != SignalAction::Hold && v.action != SignalAction::Close
}

/// How many entry signals carry no target price; a pre-priced replay must
/// turn each of them away.
pub open spec fn spec_count_untargeted(sigs: Seq<crate::types::signal::SignalView>) -> int
    decreases sigs.len(),
{
    if sigs.len() == 0 {
        0
    } else {
        spec_count_untargeted(sigs.drop_last()) + if spec_is_entry_signal(sigs.last())
            && sigs.last().target_price is None {
            1int
        } else {
            0
        }
    }
}

/// How many signals propose an entry at all; only those can be rejected.
pub open spec fn spec_count_entry_signals(sigs: Seq<crate::types::signal::SignalView>) -> int
    decreases sigs.len(),
{
    if sigs.len() == 0 {
        0
    } else {
        spec_count_entry_signals(sigs.drop_last()) + if spec_is_entry_signal(sigs.last()) {
            1int
        } else {
            0
        }
    }
}

/// True when the trade was opened by one of the given signals: an entry
/// signal whose symbol, action and confidence the trade carries, priced
/// from that signal's target price with entry slippage applied, under the
/// configured commission.
pub open spec fn spec_entry_from_signal(
    t: BacktestTrade,
    sigs: Seq<crate::types::signal::SignalView>,
    slippage_bps: int,
    commission_cents: u64,
) -> bool {
    exists|j: int|
        0 <= j < sigs.len() && {
            let v = #[trigger] sigs[j];
            match v.target_price {
                Some(base) => {
                    &&& spec_is_entry_signal(v)
                    &&& t.symbol@ == v.symbol
                    &&& t.action == v.action
                    &&& t.entry_price.spec_cents() == spec_slipped_cents(
                        base.spec_cents() as int,
                        slippage_bps,
                        false,
                    )
                    &&& t.entry_confidence_bps == v.confidence_bps
                    &&& t.commission_cents == commission_cents
                },
                None => false,
            }
        }
}

/// One open trade of the pre-priced replay, as the replay fold tracks it:
/// the instrument's name, the slippage-adjusted entry price, and the
/// (positive) share count.
pub struct ReplayOpen {
    pub symbol: Seq<char>,
    pub entry_cents: int,
    pub qty: int,
}

/// The running state of the pre-priced replay: cash, the open trades in
/// opening order, how many trades were ever opened, and how many signals
/// were turned away.
pub struct ReplayState {
    pub capital: int,
    pub open: Seq<ReplayOpen>,
    pub opened: int,
    pub rejected: int,
}

/// The index of the first open trade on `sym`, if one exists.
pub open spec fn spec_find_open(open: Seq<ReplayOpen>, sym: Seq<char>) -> Option<int>
    decreases open.len(),
{
    if open.len() == 0 {
        None
    } else if open[0].symbol == sym {
        Some(0)
    } else {
        match spec_find_open(open.drop_first(), sym) {
            Some(j) => Some(j + 1),
            None => None,
        }
    }
}

/// The first-match characterization of [`spec_find_open`].
pub proof fn lemma_find_open_char(open: Seq<ReplayOpen>, sym: Seq<char>)
    ensures
        match spec_find_open(open, sym) {
            Some(j) => 0 <= j < open.len() && open[j].symbol == sym && (forall|k: int|
                0 <= k < j ==> (#[trigger] open[k]).symbol != sym),
            None => forall|k: int| 0 <= k < open.len() ==> (#[trigger] open[k]).symbol != sym,
        },
    decreases open.len(),
{
    if open.len() > 0 && open[0].symbol != sym {
        lemma_find_open_char(open.drop_first(), sym);
        assert(forall|k: int|
            0 <= k < open.drop_first().len() ==> #[trigger] open.drop_first()[k] == open[k + 1]);
        match spec_find_open(open.drop_first(), sym) {
            Some(j) => {
                assert(open[j + 1].symbol == sym);
                assert forall|k: int| 0 <= k < j + 1 implies (#[trigger] open[k]).symbol
                    != sym by {
                    if k >= 1 {
                        assert(open.drop_first()[k - 1] == open[k]);
                        assert(open.drop_first()[k - 1].symbol != sym);
                    }
                }
            },
            None => {
                assert forall|k: int| 0 <= k < open.len() implies (#[trigger] open[k]).symbol
                    != sym by {
                    if k >= 1 {
                        assert(open.drop_first()[k - 1] == open[k]);
                    }
                }
            },
        }
    }
}

/// The name-keyed (symbol, entry value) pairs of the fold's open trades,
/// as the risk manager's correlation check sees them.
pub open spec fn spec_open_pairs(open: Seq<ReplayOpen>) -> Seq<(Seq<char>, u64)> {
    open.map_values(
        |r: ReplayOpen| (r.symbol, crate::math::sat_u64(r.entry_cents * r.qty) as u64),
    )
}

/// The reversal part of one replay signal: an open trade on the
/// signal's symbol closes at the slippage-adjusted target price (or its
/// entry price without a target), crediting the proceeds less the
/// commission.
pub open spec fn spec_replay_close(
    cfg: BacktestConfig,
    st: ReplayState,
    v: crate::types::signal::SignalView,
) -> ReplayState {
    match spec_find_open(st.open, v.symbol) {
        Some(j) => {
            let rec = st.open[j];
            let exit_base = match v.target_price {
                Some(p) => p.spec_cents() as int,
                None => rec.entry_cents,
            };
            let exit = spec_slipped_cents(exit_base, cfg.slippage_bps as int, true);
            ReplayState {
                capital: crate::math::sat_u64(st.capital + exit * rec.qty - cfg.commission_cents),
                open: st.open.remove(j),
                ..st
            }
        },
        None => st,
    }
}

/// The entry part of one replay signal: without a target price it is
/// turned away; with one, the sized and risk-checked entry either opens
/// (debiting its cost), is turned away (risk-rejected or unaffordable),
/// or is silently skipped when it buys less than a dollar or no whole
/// share.
pub open spec fn spec_replay_entry(
    cfg: BacktestConfig,
    rm: RiskManager,
    st1: ReplayState,
    v: crate::types::signal::SignalView,
) -> ReplayState {
    match v.target_price {
        None => ReplayState { rejected: st1.rejected + 1, ..st1 },
        Some(base) => {
            let value = spec_backtest_position_cents(cfg, st1.capital, v.confidence_bps as int);
            let risk = match v.stop_loss {
                Some(stop) => {
                    let gap = if base.spec_cents() >= stop.spec_cents() {
                        base.spec_cents() - stop.spec_cents()
                    } else {
                        stop.spec_cents() - base.spec_cents()
                    };
                    let est = value / (base.spec_cents() as int);
                    if gap * est > u64::MAX {
                        u64::MAX as int
                    } else {
                        gap * est
                    }
                },
                None => value / 100,
            };
            let gated = (RiskManager { current_cents: st1.capital as u64, ..rm });
            let check = gated.spec_check_trade_by_name(
                v.symbol,
                value as u64,
                risk as u64,
                spec_open_pairs(st1.open),
                10,
                st1.capital as u64,
            );
            if check != RiskCheckResult::Approved {
                ReplayState { rejected: st1.rejected + 1, ..st1 }
            } else if value >= 100 {
                let entry_adj = spec_slipped_cents(
                    base.spec_cents() as int,
                    cfg.slippage_bps as int,
                    false,
                );
                let sh0 = value / entry_adj;
                let shares = if sh0 > MAX_SHARES {
                    MAX_SHARES as int
                } else {
                    sh0
                };
                if shares >= 1 {
                    let cost = entry_adj * shares + cfg.commission_cents;
                    if cost > st1.capital {
                        ReplayState { rejected: st1.rejected + 1, ..st1 }
                    } else {
                        ReplayState {
                            capital: st1.capital - cost,
                            open: st1.open.push(
                                ReplayOpen { symbol: v.symbol, entry_cents: entry_adj, qty: shares },
                            ),
                            opened: st1.opened + 1,
                            ..st1
                        }
                    }
                } else {
                    st1
                }
            } else {
                st1
            }
        },
    }
}

/// One signal of the pre-priced replay, applied to the running state: a
/// hold changes nothing; any other signal first reverses an open trade
/// on its symbol, then — unless it is a bare close — attempts an entry.
pub open spec fn spec_replay_step(
    cfg: BacktestConfig,
    rm: RiskManager,
    st: ReplayState,
    v: crate::types::signal::SignalView,
) -> ReplayState {
    if v.action == SignalAction::Hold {
        st
    } else {
        let st1 = spec_replay_close(cfg, st, v);
        if v.action == SignalAction::Close {
            st1
        } else {
            spec_replay_entry(cfg, rm, st1, v)
        }
    }
}

/// The pre-priced replay's state after the whole signal stream, from
/// fresh capital.
pub open spec fn spec_replay_fold(
    cfg: BacktestConfig,
    rm: RiskManager,
    sigs: Seq<crate::types::signal::SignalView>,
) -> ReplayState
    decreases sigs.len(),
{
    if sigs.len() == 0 {
        ReplayState {
            capital: cfg.initial_capital_cents as int,
            open: Seq::empty(),
            opened: 0,
            rejected: 0,
        }
    } else {
        spec_replay_step(cfg, rm, spec_replay_fold(cfg, rm, sigs.drop_last()), sigs.last())
    }
}

/// The combined entry value of the fold's open trades, in cents.
pub open spec fn spec_rec_value_total(open: Seq<ReplayOpen>) -> int
    decreases open.len(),
{
    if open.len() == 0 {
        0
    } else {
        spec_rec_value_total(open.drop_last()) + open.last().entry_cents * open.last().qty
    }
}

/// The equity mark of a replay state: cash plus the entry value of its
/// open trades, clamped into the representable range.
pub open spec fn spec_replay_equity(st: ReplayState) -> int {
    crate::math::sat_u64(st.capital + spec_rec_value_total(st.open))
}

/// Corresponding trade and fold-record lists carry the same entry value.
pub proof fn lemma_rec_value_corr(ts: Seq<BacktestTrade>, recs: Seq<ReplayOpen>)
    requires
        ts.len() == recs.len(),
        forall|k: int|
            0 <= k < ts.len() ==> {
                let t = #[trigger] ts[k];
                &&& t.entry_price.spec_cents() == recs[k].entry_cents
                &&& t.quantity.spec_value() == recs[k].qty
                &&& recs[k].qty >= 1
            },
    ensures
        spec_open_value_total(ts) == spec_rec_value_total(recs),
    decreases ts.len(),
{
    if ts.len() > 0 {
        assert(forall|k: int|
            0 <= k < ts.drop_last().len() ==> #[trigger] ts.drop_last()[k] == ts[k]);
        assert(forall|k: int|
            0 <= k < recs.drop_last().len() ==> #[trigger] recs.drop_last()[k] == recs[k]);
        lemma_rec_value_corr(ts.drop_last(), recs.drop_last());
        assert(ts[ts.len() - 1].quantity.spec_value() == recs[recs.len() - 1].qty);
    }
}

/// The cash left after force-closing the remaining open trades in order,
/// each at its slippage-adjusted entry price less the commission.
pub open spec fn spec_final_capital(cfg: BacktestConfig, open: Seq<ReplayOpen>, capital: int) -> int
    decreases open.len(),
{
    if open.len() == 0 {
        capital
    } else {
        spec_final_capital(
            cfg,
            open.drop_first(),
            crate::math::sat_u64(
                capital + spec_slipped_cents(open[0].entry_cents, cfg.slippage_bps as int, true)
                    * open[0].qty - cfg.commission_cents,
            ),
        )
    }
}

/// The index of the first historical series for `sym`, if one exists.
pub open spec fn spec_series_for(h: Seq<(Symbol, Vec<MarketData>)>, sym: Seq<char>) -> Option<int>
    decreases h.len(),
{
    if h.len() == 0 {
        None
    } else if h[0].0@ == sym {
        Some(0)
    } else {
        match spec_series_for(h.drop_first(), sym) {
            Some(j) => Some(j + 1),
            None => None,
        }
    }
}

/// The first-match characterization of [`spec_series_for`].
pub proof fn lemma_series_for_char(h: Seq<(Symbol, Vec<MarketData>)>, sym: Seq<char>)
    ensures
        match spec_series_for(h, sym) {
            Some(j) => 0 <= j < h.len() && h[j].0@ == sym && (forall|k: int|
                0 <= k < j ==> (#[trigger] h[k]).0@ != sym),
            None => forall|k: int| 0 <= k < h.len() ==> (#[trigger] h[k]).0@ != sym,
        },
    decreases h.len(),
{
    if h.len() > 0 && h[0].0@ != sym {
        lemma_series_for_char(h.drop_first(), sym);
        assert(forall|k: int|
            0 <= k < h.drop_first().len() ==> #[trigger] h.drop_first()[k] == h[k + 1]);
        match spec_series_for(h.drop_first(), sym) {
            Some(j) => {
                assert(h[j + 1].0@ == sym);
                assert forall|k: int| 0 <= k < j + 1 implies (#[trigger] h[k]).0@ != sym by {
                    if k >= 1 {
                        assert(h.drop_first()[k - 1] == h[k]);
                    }
                }
            },
            None => {
                assert forall|k: int| 0 <= k < h.len() implies (#[trigger] h[k]).0@ != sym by {
                    if k >= 1 {
                        assert(h.drop_first()[k - 1] == h[k]);
                    }
                }
            },
        }
    }
}

/// The price an end-of-data force-close pays for `sym`: the
/// slippage-adjusted mid of the last point of its first series, or the
/// slippage-adjusted entry price when no non-empty series exists.
pub open spec fn spec_eod_exit_cents(
    cfg: BacktestConfig,
    h: Seq<(Symbol, Vec<MarketData>)>,
    sym: Seq<char>,
    entry_cents: int,
) -> int {
    let base = match spec_series_for(h, sym) {
        Some(i) => if h[i].1@.len() > 0 {
            let q = h[i].1@.last().quote;
            ((q.bid.spec_cents() + q.ask.spec_cents()) / 2) as int
        } else {
            entry_cents
        },
        None => entry_cents,
    };
    spec_slipped_cents(base, cfg.slippage_bps as int, true)
}

/// The combined entry value of a list of open trades, in cents: entry
/// price times share magnitude, summed.
pub open spec fn spec_open_value_total(ts: Seq<BacktestTrade>) -> int
    decreases ts.len(),
{
    if ts.len() == 0 {
        0
    } else {
        spec_open_value_total(ts.drop_last()) + ts.last().entry_price.spec_cents() * (
        if ts.last().quantity.spec_value() >= 0 {
            ts.last().quantity.spec_value() as int
        } else {
            -(ts.last().quantity.spec_value() as int)
        })
    }
}

/// Entry values are never negative.
pub proof fn lemma_open_value_total_nonneg(ts: Seq<BacktestTrade>)
    ensures
        0 <= spec_open_value_total(ts),
    decreases ts.len(),
{
    if ts.len() > 0 {
        lemma_open_value_total_nonneg(ts.drop_last());
        let e = ts.last().entry_price.spec_cents() as int;
        let m = if ts.last().quantity.spec_value() >= 0 {
            ts.last().quantity.spec_value() as int
        } else {
            -(ts.last().quantity.spec_value() as int)
        };
        assert(e * m >= 0) by (nonlinear_arith)
            requires
                e >= 0,
                m >= 0,
        ;
    }
}

/// The mid price of the first entry for `sym` in a list of market-data
/// items, if any.
pub open spec fn spec_items_price(items: Seq<MarketData>, sym: Seq<char>) -> Option<u64>
    decreases items.len(),
{
    if items.len() == 0 {
        None
    } else if items[0].symbol@ == sym {
        Some(((items[0].quote.bid.spec_cents() + items[0].quote.ask.spec_cents()) / 2) as u64)
    } else {
        spec_items_price(items.drop_first(), sym)
    }
}

/// The mid price the snapshot holds for `sym`, from its first matching
/// entry, if any.
pub open spec fn spec_snapshot_price(snap: MarketSnapshot, sym: Seq<char>) -> Option<u64> {
    spec_items_price(snap.spec_items(), sym)
}

/// The combined marked value of the open trades the snapshot covers:
/// each covered trade counts at the snapshot's mid price for its symbol
/// times its share magnitude; uncovered trades count nothing.
pub open spec fn spec_marked_value_total(ts: Seq<BacktestTrade>, snap: MarketSnapshot) -> int
    decreases ts.len(),
{
    if ts.len() == 0 {
        0
    } else {
        spec_marked_value_total(ts.drop_last(), snap) + match spec_snapshot_price(
            snap,
            ts.last().symbol@,
        ) {
            Some(p) => p * (if ts.last().quantity.spec_value() >= 0 {
                ts.last().quantity.spec_value() as int
            } else {
                -(ts.last().quantity.spec_value() as int)
            }),
            None => 0int,
        }
    }
}

/// Marked values are never negative.
pub proof fn lemma_marked_value_total_nonneg(ts: Seq<BacktestTrade>, snap: MarketSnapshot)
    ensures
        0 <= spec_marked_value_total(ts, snap),
    decreases ts.len(),
{
    if ts.len() > 0 {
        lemma_marked_value_total_nonneg(ts.drop_last(), snap);
        match spec_snapshot_price(snap, ts.last().symbol@) {
            Some(p) => {
                let m = if ts.last().quantity.spec_value() >= 0 {
                    ts.last().quantity.spec_value() as int
                } else {
                    -(ts.last().quantity.spec_value() as int)
                };
                assert(p * m >= 0) by (nonlinear_arith)
                    requires
                        p >= 0,
                        m >= 0,
                ;
            },
            None => {},
        }
    }
}

/// When `items[i]` is the first entry for `sym`, the items price is its
/// mid.
pub proof fn lemma_items_price_at(items: Seq<MarketData>, sym: Seq<char>, i: int)
    requires
        0 <= i < items.len(),
        items[i].symbol@ == sym,
        forall|k: int| 0 <= k < i ==> (#[trigger] items[k]).symbol@ != sym,
    ensures
        spec_items_price(items, sym) == Some(
            ((items[i].quote.bid.spec_cents() + items[i].quote.ask.spec_cents()) / 2) as u64,
        ),
    decreases i,
{
    if i > 0 {
        assert(items[0].symbol@ != sym);
        assert(forall|k: int|
            0 <= k < items.drop_first().len() ==> #[trigger] items.drop_first()[k] == items[k + 1]);
        lemma_items_price_at(items.drop_first(), sym, i - 1);
    }
}

/// When no entry matches `sym`, the items price is `None`.
pub proof fn lemma_items_price_none(items: Seq<MarketData>, sym: Seq<char>)
    requires
        forall|k: int| 0 <= k < items.len() ==> (#[trigger] items[k]).symbol@ != sym,
    ensures
        spec_items_price(items, sym) is None,
    decreases items.len(),
{
    if items.len() > 0 {
        assert(forall|k: int|
            0 <= k < items.drop_first().len() ==> #[trigger] items.drop_first()[k] == items[k + 1]);
        lemma_items_price_none(items.drop_first(), sym);
    }
}

/// The close reasons a replay can attach: an in-step reversal, stop or
/// target, or the end-of-data force-close.
pub open spec fn spec_replay_close_reason(reason: ExitReason) -> bool {
    ||| reason == ExitReason::SignalReverse
    ||| reason == ExitReason::StopLoss
    ||| reason == ExitReason::TakeProfit
    ||| reason == ExitReason::EndOfData
}

/// Whether an open trade exits at this step: an opposing aggregated
/// signal reverses it; else a loss beyond 2% stops it out; else a gain
/// beyond 4% takes profit. Checked in that order.
pub open spec fn spec_should_exit(
    action: SignalAction,
    entry: int,
    current: int,
    symbol: Seq<char>,
    signals: Seq<crate::types::signal::SignalView>,
) -> Option<ExitReason> {
    if exists|i: int|
        0 <= i < signals.len() && (#[trigger] signals[i]).symbol == symbol && signals[i].action
            != action {
        Some(ExitReason::SignalReverse)
    } else if (action == SignalAction::Buy && (entry - current) * 10000 > 200 * entry) || (action
        == SignalAction::Sell && (current - entry) * 10000 > 200 * entry) {
        Some(ExitReason::StopLoss)
    } else if (action == SignalAction::Buy && (current - entry) * 10000 > 400 * entry) || (action
        == SignalAction::Sell && (entry - current) * 10000 > 400 * entry) {
        Some(ExitReason::TakeProfit)
    } else {
        None
    }
}

/// Replays historical data through aggregation, risk checks, sizing and
/// execution.
#[derive(Debug)]
pub struct Backtester {
    /// The immutable configuration.
    pub config: BacktestConfig,
    /// The aggregator for each step's raw signals.
    pub aggregator: SignalAggregator,
    /// The risk gate the replay trades under.
    pub risk_manager: RiskManager,
}

impl Backtester {
    /// A replay engine for one configuration.
    pub fn new(config: BacktestConfig) -> (r: Backtester)
        ensures
            r.config == config,
            r.aggregator.strategy == config.aggregation_strategy,
            r.aggregator.min_confidence_bps == 5000,
            r.risk_manager.config == config.risk_config,
            r.risk_manager.day_start_cents == config.initial_capital_cents,
            r.risk_manager.current_cents == config.initial_capital_cents,
            r.risk_manager.consecutive_losses == 0,
    {
        let aggregator = SignalAggregator::new(config.aggregation_strategy);
        let risk_manager = RiskManager::new(config.risk_config, config.initial_capital_cents);
        Backtester { config, aggregator, risk_manager }
    }

    /// The price actually paid after slippage.
    pub fn apply_slippage(&self, price: Price, is_exit: bool) -> (r: Price)
        ensures
            r.spec_cents() == spec_slipped_cents(
                price.spec_cents() as int,
                self.config.slippage_bps as int,
                is_exit,
            ),
    {
        let p = price.value();
        proof {
            crate::math::lemma_div_le_numerator(
                (p as int) * (self.config.slippage_bps as int),
                10000,
            );
            assert(p * self.config.slippage_bps <= (u64::MAX as int) * (u32::MAX as int))
                by (nonlinear_arith)
                requires
                    p <= u64::MAX,
                    self.config.slippage_bps <= u32::MAX,
            ;
        }
        let amount: u128 = (p as u128) * (self.config.slippage_bps as u128) / 10000;
        if is_exit {
            if p as u128 >= amount + 1 {
                Price::from_cents(p - (amount as u64))
            } else {
                price
            }
        } else {
            let raised: u128 = p as u128 + amount;
            if raised <= i64::MAX as u128 {
                Price::from_cents(raised as u64)
            } else {
                price
            }
        }
    }

    /// The position value in cents a step allots to `signal`.
    pub fn calculate_position_size(&self, capital_cents: u64, signal: &Signal) -> (r: u64)
        ensures
            r == spec_backtest_position_cents(
                self.config,
                capital_cents as int,
                signal.confidence.spec_bps() as int,
            ),
    {
        let scaled_bps: u64 = if self.config.use_confidence_sizing {
            let conf = signal.confidence.value();
            proof {
                crate::math::lemma_div_le_numerator(
                    (self.config.default_position_size_bps as int) * (5000 + (conf as int) / 2),
                    10000,
                );
                assert(self.config.default_position_size_bps * (5000 + (conf as int) / 2)
                    <= (u32::MAX as int) * 10000) by (nonlinear_arith)
                    requires
                        self.config.default_position_size_bps <= u32::MAX,
                        0 <= conf <= 10000,
                ;
            }
            ((self.config.default_position_size_bps as u128 * (5000 + (conf as u128) / 2))
                / 10000) as u64
        } else {
            self.config.default_position_size_bps as u64
        };
        proof {
            assert(capital_cents * scaled_bps <= (u64::MAX as int) * (u64::MAX as int))
                by (nonlinear_arith)
                requires
                    capital_cents <= u64::MAX,
                    scaled_bps <= u64::MAX,
            ;
        }
        let value: u128 = (capital_cents as u128) * (scaled_bps as u128) / 10000;
        if value > u64::MAX as u128 {
            u64::MAX
        } else {
            value as u64
        }
    }

    /// Whether `trade` should exit at this step, given the latest mid
    /// price and the step's aggregated signals.
    pub fn should_exit(
        &self,
        trade: &BacktestTrade,
        market_data: &MarketData,
        aggregated: &Vec<Signal>,
    ) -> (r: Option<ExitReason>)
        ensures
            r == spec_should_exit(
                trade.action,
                trade.entry_price.spec_cents() as int,
                ((market_data.quote.bid.spec_cents() + market_data.quote.ask.spec_cents())
                    / 2) as int,
                trade.symbol@,
                aggregated.deep_view(),
            ),
    {
        let ghost sigs = aggregated.deep_view();
        let n = aggregated.len();
        let mut i: usize = 0;
        while i < n
            invariant
                sigs == aggregated.deep_view(),
                n == sigs.len(),
                0 <= i <= n,
                forall|j: int|
                    0 <= j < i ==> !((#[trigger] sigs[j]).symbol == trade.symbol@ && sigs[j].action
                        != trade.action),
            decreases n - i,
        {
            if aggregated[i].symbol.same_as(&trade.symbol) && !action_eq(
                aggregated[i].action,
                trade.action,
            ) {
                proof {
                    assert(sigs[i as int] == aggregated@[i as int].deep_view());
                    assert(sigs[i as int].symbol == trade.symbol@);
                    assert(sigs[i as int].action != trade.action);
                }
                return Some(ExitReason::SignalReverse);
            }
            i += 1;
        }
        let current = market_data.quote.mid().value();
        let entry = trade.entry_price.value();
        proof {
            assert(forall|j: int|
                0 <= j < sigs.len() ==> !((#[trigger] sigs[j]).symbol == trade.symbol@
                    && sigs[j].action != trade.action));
            assert((entry - current) * 10000 <= (u64::MAX as int) * 10000) by (nonlinear_arith)
                requires
                    -(u64::MAX as int) <= entry - current <= u64::MAX,
            ;
            assert(-((u64::MAX as int) * 10000) <= (entry - current) * 10000) by (nonlinear_arith)
                requires
                    -(u64::MAX as int) <= entry - current <= u64::MAX,
            ;
            assert(200 * entry <= 200 * (u64::MAX as int)) by (nonlinear_arith)
                requires
                    entry <= u64::MAX,
            ;
        }
        let diff_scaled: i128 = ((entry as i128) - (current as i128)) * 10000;
        let is_buy = action_eq(trade.action, SignalAction::Buy);
        let is_sell = action_eq(trade.action, SignalAction::Sell);
        if (is_buy && diff_scaled > 200 * (entry as i128)) || (is_sell && -diff_scaled > 200 * (
        entry as i128)) {
            return Some(ExitReason::StopLoss);
        }
        if (is_buy && -diff_scaled > 400 * (entry as i128)) || (is_sell && diff_scaled > 400 * (
        entry as i128)) {
            return Some(ExitReason::TakeProfit);
        }
        None
    }
}

impl Backtester {
    /// Replays a pre-generated, already-priced signal stream: one signal
    /// per time step, entry prices sourced from the signal's target
    /// price with entry slippage applied. An arriving signal first closes
    /// any open trade on its symbol (a signal reversal), then opens a new
    /// position when the risk checks, the capital and a whole share count
    /// allow; an entry signal without a target price is always turned
    /// away, so the rejection count is bounded below by those and above
    /// by the entry signals. At the end every open trade is force-closed
    /// with the end-of-data reason.
    pub fn run_with_signals(&mut self, signals: Vec<Signal>) -> (r: Result<
        BacktestResult,
        BacktestError,
    >)
        ensures
            r matches Ok(res) && {
                let st = spec_replay_fold(
                    old(self).config,
                    old(self).risk_manager,
                    signals.deep_view(),
                );
                &&& res.total_signals == signals@.len()
                &&& res.rejected_signals == st.rejected
                &&& res.trades@.len() == st.opened
                &&& res.final_capital_cents == spec_final_capital(
                    old(self).config,
                    st.open,
                    st.capital,
                )
                &&& res.rejected_signals <= spec_count_entry_signals(signals.deep_view())
                &&& res.rejected_signals >= spec_count_untargeted(signals.deep_view())
                &&& res.trades@.len() <= signals@.len()
                &&& res.equity_curve@.len() == signals@.len() + 1
                &&& res.equity_curve@[0] == old(self).config.initial_capital_cents
                &&& (forall|i: int|
                    0 <= i < signals@.len() ==> #[trigger] res.equity_curve@[i + 1]
                        == spec_replay_equity(
                        spec_replay_fold(
                            old(self).config,
                            old(self).risk_manager,
                            signals.deep_view().take(i + 1),
                        ),
                    ))
                &&& (forall|k: int|
                    0 <= k < res.trades@.len() ==> {
                        &&& (#[trigger] res.trades@[k]).exit_price is Some
                        &&& (res.trades@[k].exit_reason matches Some(reason) && (reason
                            == ExitReason::SignalReverse || reason == ExitReason::EndOfData))
                        &&& spec_entry_from_signal(
                            res.trades@[k],
                            signals.deep_view(),
                            old(self).config.slippage_bps as int,
                            old(self).config.commission_cents,
                        )
                    })
                &&& res.metrics.trading_days == signals@.len()
                &&& res.metrics.max_drawdown_bps == spec_max_drawdown_bps(res.equity_curve@)
                &&& res.metrics.total_return_bps == spec_period_return_bps(
                    old(self).config.initial_capital_cents as int,
                    res.equity_curve@.last() as int,
                )
            },
    {
        let total_signals = signals.len();
        let ghost sigs = signals.deep_view();
        let ghost cfg0 = self.config;
        let ghost rm0 = self.risk_manager;
        let mut capital: u64 = self.config.initial_capital_cents;
        let mut equity_curve: Vec<u64> = Vec::new();
        equity_curve.push(capital);
        let mut open_trades: Vec<BacktestTrade> = Vec::new();
        let mut closed_trades: Vec<BacktestTrade> = Vec::new();
        let mut rejected_signals: usize = 0;
        let n = signals.len();
        let mut idx: usize = 0;
        proof {
            assert(sigs.take(0) =~= Seq::<crate::types::signal::SignalView>::empty());
        }
        while idx < n
            invariant
                sigs == signals.deep_view(),
                n == sigs.len(),
                n == signals@.len(),
                0 <= idx <= n,
                equity_curve@.len() == idx + 1,
                equity_curve@[0] == self.config.initial_capital_cents,
                rejected_signals <= idx,
                spec_count_untargeted(sigs.take(idx as int)) <= rejected_signals,
                rejected_signals <= spec_count_entry_signals(sigs.take(idx as int)),
                closed_trades@.len() + open_trades@.len() <= idx,
                forall|k: int|
                    0 <= k < closed_trades@.len() ==> {
                        &&& (#[trigger] closed_trades@[k]).exit_price is Some
                        &&& (closed_trades@[k].exit_reason matches Some(reason) && (reason
                            == ExitReason::SignalReverse || reason == ExitReason::EndOfData))
                        &&& spec_entry_from_signal(
                            closed_trades@[k],
                            sigs,
                            self.config.slippage_bps as int,
                            self.config.commission_cents,
                        )
                    },
                forall|k: int|
                    0 <= k < open_trades@.len() ==> spec_entry_from_signal(
                        #[trigger] open_trades@[k],
                        sigs,
                        self.config.slippage_bps as int,
                        self.config.commission_cents,
                    ),
                self.config == old(self).config,
                cfg0 == old(self).config,
                rm0 == old(self).risk_manager,
                self.risk_manager.config == rm0.config,
                self.risk_manager.day_start_cents == rm0.day_start_cents,
                self.risk_manager.consecutive_losses == rm0.consecutive_losses,
                self.risk_manager.correlation_groups == rm0.correlation_groups,
                forall|i: int|
                    0 <= i < idx ==> #[trigger] equity_curve@[i + 1] == spec_replay_equity(
                        spec_replay_fold(cfg0, rm0, sigs.take(i + 1)),
                    ),
                ({
                    let st = spec_replay_fold(cfg0, rm0, sigs.take(idx as int));
                    &&& capital == st.capital
                    &&& rejected_signals == st.rejected
                    &&& open_trades@.len() == st.open.len()
                    &&& closed_trades@.len() + st.open.len() == st.opened
                    &&& forall|k: int|
                        0 <= k < st.open.len() ==> {
                            let t = #[trigger] open_trades@[k];
                            &&& t.symbol@ == st.open[k].symbol
                            &&& t.entry_price.spec_cents() == st.open[k].entry_cents
                            &&& t.quantity.spec_value() == st.open[k].qty
                            &&& st.open[k].qty >= 1
                        }
                }),
            decreases n - idx,
        {
            proof {
                assert(sigs.take(idx as int + 1).drop_last() =~= sigs.take(idx as int));
                assert(sigs.take(idx as int + 1).last() == sigs[idx as int]);
                assert(signals@[idx as int].deep_view() == sigs[idx as int]);
            }
            let ghost st_pre = spec_replay_fold(cfg0, rm0, sigs.take(idx as int));
            let ghost v = sigs[idx as int];
            let signal = &signals[idx];
            let current_time: u64 = step_time(idx);
            let is_hold = action_eq(signal.action, SignalAction::Hold);
            let is_close = action_eq(signal.action, SignalAction::Close);
            if !is_hold {
                // A signal on a symbol with an open trade reverses it.
                let existing = find_trade(&open_trades, &signal.symbol);
                proof {
                    lemma_find_open_char(st_pre.open, v.symbol);
                    match existing {
                        Some(pos) => {
                            assert(st_pre.open[pos as int].symbol == v.symbol);
                            match spec_find_open(st_pre.open, v.symbol) {
                                Some(j) => {
                                    if j < pos {
                                        assert(open_trades@[j].symbol@ != v.symbol);
                                    }
                                    if pos < j {
                                        assert(st_pre.open[pos as int].symbol != v.symbol);
                                    }
                                    assert(j == pos);
                                },
                                None => {
                                    assert(st_pre.open[pos as int].symbol != v.symbol);
                                },
                            }
                        },
                        None => {
                            match spec_find_open(st_pre.open, v.symbol) {
                                Some(j) => {
                                    assert(open_trades@[j].symbol@ != v.symbol);
                                    assert(st_pre.open[j].symbol == v.symbol);
                                },
                                None => {},
                            }
                        },
                    }
                }
                let ghost pre_open_view = open_trades@;
                match existing {
                    Some(pos) => {
                        let mut trade = open_trades.remove(pos);
                        let exit_base: Price = match signal.target_price {
                            Some(p) => p,
                            None => trade.entry_price,
                        };
                        let exit_price = self.apply_slippage(exit_base, true);
                        let exit_slippage: u64 = price_gap(exit_price, trade.entry_price) / 100;
                        trade.close(
                            exit_price,
                            current_time,
                            ExitReason::SignalReverse,
                            self.config.commission_cents,
                            exit_slippage,
                        );
                        capital = credit_exit(
                            capital,
                            exit_price,
                            &trade.quantity,
                            self.config.commission_cents,
                        );
                        closed_trades.push(trade);
                        proof {
                            let st1 = spec_replay_close(cfg0, st_pre, v);
                            st_pre.open.remove_ensures(pos as int);
                            pre_open_view.remove_ensures(pos as int);
                            assert(spec_find_open(st_pre.open, v.symbol) == Some(pos as int));
                            assert(trade.entry_price.spec_cents()
                                == st_pre.open[pos as int].entry_cents);
                            assert(capital == st1.capital);
                            assert(open_trades@.len() == st1.open.len());
                            assert forall|k: int| 0 <= k < st1.open.len() implies {
                                let t = #[trigger] open_trades@[k];
                                &&& t.symbol@ == st1.open[k].symbol
                                &&& t.entry_price.spec_cents() == st1.open[k].entry_cents
                                &&& t.quantity.spec_value() == st1.open[k].qty
                                &&& st1.open[k].qty >= 1
                            } by {
                                if k < pos {
                                    assert(open_trades@[k] == pre_open_view[k]);
                                    assert(st1.open[k] == st_pre.open[k]);
                                } else {
                                    assert(open_trades@[k] == pre_open_view[k + 1]);
                                    assert(st1.open[k] == st_pre.open[k + 1]);
                                }
                            }
                            assert(closed_trades@.len() + st1.open.len() == st1.opened);
                            assert(rejected_signals == st1.rejected);
                        }
                    },
                    None => {
                        proof {
                            assert(spec_find_open(st_pre.open, v.symbol) is None);
                            assert(spec_replay_close(cfg0, st_pre, v) == st_pre);
                        }
                    },
                }
                let ghost st1 = spec_replay_close(cfg0, st_pre, v);
                if !is_close {
                    match signal.target_price {
                        None => {
                            rejected_signals = rejected_signals + 1;
                        },
                        Some(entry_base) => {
                            let position_value = self.calculate_position_size(capital, signal);
                            let risk_amount: u64 = match signal.stop_loss {
                                Some(stop) => {
                                    let gap = price_gap(entry_base, stop);
                                    let shares_est = position_value / entry_base.value();
                                    proof {
                                        crate::order_manager::lemma_pnl_bounds(
                                            gap as int,
                                            0,
                                            0,
                                        );
                                        assert(gap * shares_est <= (u64::MAX as int) * (
                                        u64::MAX as int)) by (nonlinear_arith)
                                            requires
                                                gap <= u64::MAX,
                                                shares_est <= u64::MAX,
                                        ;
                                    }
                                    let product: u128 = (gap as u128) * (shares_est as u128);
                                    if product > u64::MAX as u128 {
                                        u64::MAX
                                    } else {
                                        product as u64
                                    }
                                },
                                None => position_value / 100,
                            };
                            let pairs = trade_pairs(&open_trades);
                            self.risk_manager.update_portfolio_value(capital);
                            let check = self.risk_manager.check_trade(
                                &signal.symbol,
                                position_value,
                                risk_amount,
                                &pairs,
                                10,
                                capital,
                            );
                            proof {
                                crate::risk_manager::lemma_check_trade_by_name(
                                    self.risk_manager,
                                    signal.symbol@,
                                    position_value,
                                    risk_amount,
                                    pairs@,
                                    10,
                                    capital,
                                );
                                assert(crate::risk_manager::spec_pairs_by_name(pairs@)
                                    =~= spec_open_pairs(st1.open)) by {
                                    assert(forall|k: int|
                                        0 <= k < pairs@.len()
                                            ==> #[trigger] crate::risk_manager::spec_pairs_by_name(
                                            pairs@,
                                        )[k] == (pairs@[k].0@, pairs@[k].1));
                                    assert(forall|k: int|
                                        0 <= k < st1.open.len() ==> #[trigger] spec_open_pairs(
                                            st1.open,
                                        )[k] == (
                                        st1.open[k].symbol,
                                        crate::math::sat_u64(
                                            st1.open[k].entry_cents * st1.open[k].qty,
                                        ) as u64,
                                        ));
                                }
                                assert(self.risk_manager == (RiskManager {
                                    current_cents: capital,
                                    ..rm0
                                }));
                            }
                            let approved = match check {
                                RiskCheckResult::Approved => true,
                                RiskCheckResult::Rejected(_) => false,
                            };
                            if !approved {
                                rejected_signals = rejected_signals + 1;
                            } else if position_value >= 100 {
                                let entry_adj = self.apply_slippage(entry_base, false);
                                let shares: u64 = {
                                    let s = position_value / entry_adj.value();
                                    if s > MAX_SHARES {
                                        MAX_SHARES
                                    } else {
                                        s
                                    }
                                };
                                if shares >= 1 {
                                    let cost = trade_cost(
                                        entry_adj,
                                        shares,
                                        self.config.commission_cents,
                                    );
                                    if cost > capital as u128 {
                                        rejected_signals = rejected_signals + 1;
                                    } else {
                                        let slip = price_gap(entry_adj, entry_base);
                                        let trade = BacktestTrade::new(
                                            signal.symbol.clone(),
                                            signal.action,
                                            entry_adj,
                                            Quantity::buy(shares),
                                            current_time,
                                            self.config.commission_cents,
                                            slip,
                                            signal.confidence.value(),
                                        );
                                        capital = capital - (cost as u64);
                                        open_trades.push(trade);
                                        proof {
                                            let t = open_trades@.last();
                                            assert(spec_entry_from_signal(
                                                t,
                                                sigs,
                                                self.config.slippage_bps as int,
                                                self.config.commission_cents,
                                            )) by {
                                                assert(sigs[idx as int]
                                                    == signals@[idx as int].deep_view());
                                                assert(spec_is_entry_signal(sigs[idx as int]));
                                                assert(t.symbol@ == sigs[idx as int].symbol);
                                            }
                                        }
                                    }
                                }
                            }
                        },
                    }
                }
            }
            proof {
                let stn = spec_replay_fold(cfg0, rm0, sigs.take(idx as int + 1));
                assert(open_trades@.len() == stn.open.len());
                assert(forall|k: int|
                    0 <= k < stn.open.len() ==> {
                        let t = #[trigger] open_trades@[k];
                        &&& t.entry_price.spec_cents() == stn.open[k].entry_cents
                        &&& t.quantity.spec_value() == stn.open[k].qty
                        &&& stn.open[k].qty >= 1
                    });
                lemma_rec_value_corr(open_trades@, stn.open);
            }
            let equity = equity_mark(capital, &open_trades);
            equity_curve.push(equity);
            idx += 1;
        }
        proof {
            assert(sigs.take(n as int) =~= sigs);
        }
        let ghost stf = spec_replay_fold(cfg0, rm0, sigs);
        let ghost mut c: int = 0;
        proof {
            assert(stf.open.skip(0) =~= stf.open);
        }
        // Force-close whatever is still open at its entry price.
        let final_time: u64 = step_time(n);
        while open_trades.len() > 0
            invariant
                sigs == signals.deep_view(),
                cfg0 == old(self).config,
                rm0 == old(self).risk_manager,
                stf == spec_replay_fold(cfg0, rm0, sigs),
                0 <= c <= stf.open.len(),
                open_trades@.len() == stf.open.len() - c,
                forall|k: int|
                    0 <= k < open_trades@.len() ==> {
                        let t = #[trigger] open_trades@[k];
                        &&& t.symbol@ == stf.open[k + c].symbol
                        &&& t.entry_price.spec_cents() == stf.open[k + c].entry_cents
                        &&& t.quantity.spec_value() == stf.open[k + c].qty
                        &&& stf.open[k + c].qty >= 1
                    },
                spec_final_capital(cfg0, stf.open.skip(c), capital as int) == spec_final_capital(
                    cfg0,
                    stf.open,
                    stf.capital,
                ),
                closed_trades@.len() + open_trades@.len() == stf.opened,
                rejected_signals == stf.rejected,
                closed_trades@.len() + open_trades@.len() <= n,
                forall|k: int|
                    0 <= k < closed_trades@.len() ==> {
                        &&& (#[trigger] closed_trades@[k]).exit_price is Some
                        &&& (closed_trades@[k].exit_reason matches Some(reason) && (reason
                            == ExitReason::SignalReverse || reason == ExitReason::EndOfData))
                        &&& spec_entry_from_signal(
                            closed_trades@[k],
                            sigs,
                            self.config.slippage_bps as int,
                            self.config.commission_cents,
                        )
                    },
                forall|k: int|
                    0 <= k < open_trades@.len() ==> spec_entry_from_signal(
                        #[trigger] open_trades@[k],
                        sigs,
                        self.config.slippage_bps as int,
                        self.config.commission_cents,
                    ),
                self.config == old(self).config,
            decreases open_trades@.len(),
        {
            proof {
                assert(stf.open.skip(c)[0] == stf.open[c]);
                assert(stf.open.skip(c).drop_first() =~= stf.open.skip(c + 1));
            }
            let ghost pre_open_view = open_trades@;
            let mut trade = open_trades.remove(0);
            proof {
                pre_open_view.remove_ensures(0);
            }
            let exit_price = self.apply_slippage(trade.entry_price, true);
            trade.close(
                exit_price,
                final_time,
                ExitReason::EndOfData,
                self.config.commission_cents,
                0,
            );
            capital = credit_exit(
                capital,
                exit_price,
                &trade.quantity,
                self.config.commission_cents,
            );
            closed_trades.push(trade);
            proof {
                c = c + 1;
            }
        }
        proof {
            assert(stf.open.skip(c) =~= Seq::<ReplayOpen>::empty());
        }
        let metrics = PerformanceMetrics::calculate(
            &equity_curve,
            &closed_trades,
            self.config.initial_capital_cents,
            total_signals,
        );
        Ok(
            BacktestResult {
                metrics,
                trades: closed_trades,
                equity_curve,
                final_capital_cents: capital,
                total_signals,
                rejected_signals,
            },
        )
    }

    /// Replays aligned historical series, one synchronized step per index
    /// across all tracked symbols (truncated to the shortest series, with
    /// one equity mark per replayed step). The caller supplies each
    /// step's raw alpha signals in `step_signals`; steps beyond its
    /// length see no signals. Fails exactly when no historical series
    /// exists or fewer than two aligned steps are available; every other
    /// per-step problem only skips the offending signal or symbol.
    pub fn run(
        &mut self,
        historical_data: &Vec<(Symbol, Vec<MarketData>)>,
        symbols: &Vec<Symbol>,
        step_signals: &Vec<Vec<Signal>>,
    ) -> (r: Result<BacktestResult, BacktestError>)
        ensures
            historical_data@.len() == 0 <==> r == Err::<BacktestResult, BacktestError>(
                BacktestError::NoHistoricalData,
            ),
            historical_data@.len() > 0 ==> ((spec_min_series_len(historical_data@) < 2) <==> r
                == Err::<BacktestResult, BacktestError>(BacktestError::TooFewTimeSteps)),
            (historical_data@.len() > 0 && spec_min_series_len(historical_data@) >= 2) ==> r is Ok,
            match r {
                Err(e) => e == BacktestError::NoHistoricalData || e
                    == BacktestError::TooFewTimeSteps,
                Ok(res) => {
                    &&& res.rejected_signals <= res.total_signals
                    &&& res.equity_curve@.len() == spec_min_series_len(historical_data@) + 1
                    &&& res.equity_curve@[0] == old(self).config.initial_capital_cents
                    &&& res.metrics.trading_days == spec_min_series_len(historical_data@)
                    &&& (forall|k: int|
                        0 <= k < res.trades@.len() ==> {
                            &&& (#[trigger] res.trades@[k]).exit_price is Some
                            &&& (res.trades@[k].exit_reason matches Some(reason)
                                && spec_replay_close_reason(reason))
                            &&& res.trades@[k].commission_cents == old(
                                self,
                            ).config.commission_cents
                            &&& res.trades@[k].quantity.spec_value() >= 1
                            &&& (res.trades@[k].exit_reason == Some(ExitReason::EndOfData)
                                ==> (res.trades@[k].exit_price matches Some(xp)
                                && xp.spec_cents() == spec_eod_exit_cents(
                                old(self).config,
                                historical_data@,
                                res.trades@[k].symbol@,
                                res.trades@[k].entry_price.spec_cents() as int,
                            )))
                        })
                    &&& res.metrics.max_drawdown_bps == spec_max_drawdown_bps(res.equity_curve@)
                    &&& res.metrics.total_return_bps == spec_period_return_bps(
                        old(self).config.initial_capital_cents as int,
                        res.equity_curve@.last() as int,
                    )
                },
            },
    {
        if historical_data.len() == 0 {
            return Err(BacktestError::NoHistoricalData);
        }
        let mut min_points: usize = historical_data[0].1.len();
        let mut h: usize = 1;
        proof {
            assert(historical_data@.take(1).len() == 1);
            assert(historical_data@.take(1)[0] == historical_data@[0]);
        }
        while h < historical_data.len()
            invariant
                1 <= h <= historical_data@.len(),
                min_points == spec_min_series_len(historical_data@.take(h as int)),
            decreases historical_data@.len() - h,
        {
            proof {
                assert(historical_data@.take(h as int + 1).drop_last() =~= historical_data@.take(
                    h as int,
                ));
                assert(historical_data@.take(h as int + 1).last() == historical_data@[h as int]);
            }
            if historical_data[h].1.len() < min_points {
                min_points = historical_data[h].1.len();
            }
            h += 1;
        }
        proof {
            assert(historical_data@.take(historical_data@.len() as int) =~= historical_data@);
        }
        if min_points < 2 {
            return Err(BacktestError::TooFewTimeSteps);
        }

        let mut capital: u64 = self.config.initial_capital_cents;
        let mut equity_curve: Vec<u64> = Vec::new();
        equity_curve.push(capital);
        let mut open_trades: Vec<BacktestTrade> = Vec::new();
        let mut closed_trades: Vec<BacktestTrade> = Vec::new();
        let mut total_signals: usize = 0;
        let mut rejected_signals: usize = 0;

        let mut i: usize = 0;
        while i < min_points
            invariant
                2 <= min_points,
                0 <= i <= min_points,
                equity_curve@.len() == i + 1,
                equity_curve@[0] == self.config.initial_capital_cents,
                rejected_signals <= total_signals,
                forall|k: int|
                    0 <= k < closed_trades@.len() ==> {
                        &&& (#[trigger] closed_trades@[k]).exit_price is Some
                        &&& (closed_trades@[k].exit_reason matches Some(reason)
                            && spec_replay_close_reason(reason))
                        &&& closed_trades@[k].exit_reason != Some(ExitReason::EndOfData)
                        &&& closed_trades@[k].commission_cents == self.config.commission_cents
                        &&& closed_trades@[k].quantity.spec_value() >= 1
                    },
                forall|k: int|
                    0 <= k < open_trades@.len() ==> ((#[trigger] open_trades@[k]).commission_cents
                        == self.config.commission_cents && open_trades@[k].quantity.spec_value()
                        >= 1),
                self.config == old(self).config,
            decreases min_points - i,
        {
            let current_time: u64 = step_time(i);

            // Step 1: the point-in-time snapshot across tracked symbols.
            let mut snapshot = MarketSnapshot::new();
            let mut s: usize = 0;
            while s < symbols.len()
                invariant
                    snapshot.wf(),
                decreases symbols@.len() - s,
            {
                let sym = &symbols[s];
                match find_series(historical_data, sym) {
                    Some(series_idx) => {
                        let series = &historical_data[series_idx].1;
                        if i < series.len() {
                            let data = clone_market_data(&series[i]);
                            snapshot.insert(data);
                        }
                    },
                    None => {},
                }
                s += 1;
            }

            // Step 2: this step's raw alpha signals.
            let mut raw: Vec<Signal> = Vec::new();
            if i < step_signals.len() {
                let step = &step_signals[i];
                let mut t: usize = 0;
                while t < step.len()
                    decreases step@.len() - t,
                {
                    raw.push(step[t].clone());
                    t += 1;
                }
            }
            if total_signals <= usize::MAX - raw.len() {
                total_signals = total_signals + raw.len();
            } else {
                total_signals = usize::MAX;
            }

            // Step 3: aggregate.
            let aggregated = self.aggregator.aggregate(raw);

            // Step 4: exits for open trades.
            let mut kept: Vec<BacktestTrade> = Vec::new();
            while open_trades.len() > 0
                invariant
                    forall|k: int|
                        0 <= k < closed_trades@.len() ==> {
                            &&& (#[trigger] closed_trades@[k]).exit_price is Some
                            &&& (closed_trades@[k].exit_reason matches Some(reason)
                                && spec_replay_close_reason(reason))
                            &&& closed_trades@[k].exit_reason != Some(ExitReason::EndOfData)
                            &&& closed_trades@[k].commission_cents
                                == self.config.commission_cents
                            &&& closed_trades@[k].quantity.spec_value() >= 1
                        },
                    forall|k: int|
                        0 <= k < open_trades@.len()
                            ==> ((#[trigger] open_trades@[k]).commission_cents
                            == self.config.commission_cents
                            && open_trades@[k].quantity.spec_value() >= 1),
                    forall|k: int|
                        0 <= k < kept@.len() ==> ((#[trigger] kept@[k]).commission_cents
                            == self.config.commission_cents && kept@[k].quantity.spec_value()
                            >= 1),
                    self.config == old(self).config,
                decreases open_trades@.len(),
            {
                let trade = open_trades.remove(0);
                let data = snapshot_entry(&snapshot, &trade.symbol);
                match data {
                    Some(d_idx) => {
                        let exit = {
                            let d = snapshot.get_at(d_idx);
                            self.should_exit(&trade, d, &aggregated)
                        };
                        match exit {
                            Some(reason) => {
                                let mid = snapshot.get_at(d_idx).quote.mid();
                                let exit_price = self.apply_slippage(mid, true);
                                let exit_slippage = price_gap(exit_price, mid);
                                let mut trade = trade;
                                trade.close(
                                    exit_price,
                                    current_time,
                                    reason,
                                    self.config.commission_cents,
                                    exit_slippage,
                                );
                                capital = credit_exit(
                                    capital,
                                    exit_price,
                                    &trade.quantity,
                                    self.config.commission_cents,
                                );
                                closed_trades.push(trade);
                            },
                            None => {
                                kept.push(trade);
                            },
                        }
                    },
                    None => {
                        kept.push(trade);
                    },
                }
            }
            open_trades = kept;

            // Step 5: entries for still-unheld aggregated signals.
            let mut a: usize = 0;
            while a < aggregated.len()
                invariant
                    rejected_signals <= total_signals,
                    forall|k: int|
                        0 <= k < open_trades@.len()
                            ==> ((#[trigger] open_trades@[k]).commission_cents
                            == self.config.commission_cents
                            && open_trades@[k].quantity.spec_value() >= 1),
                    self.config == old(self).config,
                decreases aggregated@.len() - a,
            {
                let signal = &aggregated[a];
                let is_hold = action_eq(signal.action, SignalAction::Hold);
                let held = match find_trade(&open_trades, &signal.symbol) {
                    Some(_) => true,
                    None => false,
                };
                if !is_hold && !held {
                    match snapshot_entry(&snapshot, &signal.symbol) {
                        None => {},
                        Some(d_idx) => {
                            let mid = snapshot.get_at(d_idx).quote.mid();
                            proof {
                                crate::math::lemma_div_le_numerator(
                                    (capital as int) * (self.config.default_position_size_bps
                                        as int),
                                    10000,
                                );
                                assert(capital * self.config.default_position_size_bps
                                    <= (u64::MAX as int) * (u32::MAX as int)) by (nonlinear_arith)
                                    requires
                                        capital <= u64::MAX,
                                        self.config.default_position_size_bps <= u32::MAX,
                                ;
                            }
                            let check_value_128: u128 = (capital as u128)
                                * (self.config.default_position_size_bps as u128) / 10000;
                            let check_value: u64 = if check_value_128 > u64::MAX as u128 {
                                u64::MAX
                            } else {
                                check_value_128 as u64
                            };
                            let pairs = trade_pairs(&open_trades);
                            self.risk_manager.update_portfolio_value(capital);
                            let check = self.risk_manager.check_trade(
                                &signal.symbol,
                                check_value,
                                check_value / 100,
                                &pairs,
                                10,
                                capital,
                            );
                            let approved = match check {
                                RiskCheckResult::Approved => true,
                                RiskCheckResult::Rejected(_) => false,
                            };
                            if !approved {
                                if rejected_signals < usize::MAX {
                                    rejected_signals = rejected_signals + 1;
                                }
                            } else {
                                let size = self.calculate_position_size(capital, signal);
                                if size >= 100 {
                                    let entry_adj = self.apply_slippage(mid, false);
                                    let shares: u64 = {
                                        let sh = size / entry_adj.value();
                                        if sh > MAX_SHARES {
                                            MAX_SHARES
                                        } else {
                                            sh
                                        }
                                    };
                                    if shares >= 1 {
                                        let cost = trade_cost(
                                            entry_adj,
                                            shares,
                                            self.config.commission_cents,
                                        );
                                        if cost > capital as u128 {
                                            if rejected_signals < usize::MAX {
                                                rejected_signals = rejected_signals + 1;
                                            }
                                        } else {
                                            let slip = price_gap(entry_adj, mid);
                                            let trade = BacktestTrade::new(
                                                signal.symbol.clone(),
                                                signal.action,
                                                entry_adj,
                                                Quantity::buy(shares),
                                                current_time,
                                                self.config.commission_cents,
                                                slip,
                                                signal.confidence.value(),
                                            );
                                            capital = capital - (cost as u64);
                                            open_trades.push(trade);
                                        }
                                    }
                                }
                            }
                        },
                    }
                }
                if rejected_signals > total_signals {
                    rejected_signals = total_signals;
                }
                a += 1;
            }

            // Step 6: one equity mark per step, at the snapshot's prices.
            let equity = equity_mark_snapshot(capital, &open_trades, &snapshot);
            equity_curve.push(equity);
            i += 1;
        }

        // Force-close everything still open at the last available price.
        let final_time: u64 = step_time(min_points);
        while open_trades.len() > 0
            invariant
                forall|k: int|
                    0 <= k < closed_trades@.len() ==> {
                        &&& (#[trigger] closed_trades@[k]).exit_price is Some
                        &&& (closed_trades@[k].exit_reason matches Some(reason)
                            && spec_replay_close_reason(reason))
                        &&& closed_trades@[k].commission_cents == self.config.commission_cents
                        &&& closed_trades@[k].quantity.spec_value() >= 1
                        &&& (closed_trades@[k].exit_reason == Some(ExitReason::EndOfData)
                            ==> (closed_trades@[k].exit_price matches Some(xp)
                            && xp.spec_cents() == spec_eod_exit_cents(
                            old(self).config,
                            historical_data@,
                            closed_trades@[k].symbol@,
                            closed_trades@[k].entry_price.spec_cents() as int,
                        )))
                    },
                forall|k: int|
                    0 <= k < open_trades@.len() ==> ((#[trigger] open_trades@[k]).commission_cents
                        == self.config.commission_cents && open_trades@[k].quantity.spec_value()
                        >= 1),
                self.config == old(self).config,
            decreases open_trades@.len(),
        {
            let mut trade = open_trades.remove(0);
            let found = find_series(historical_data, &trade.symbol);
            proof {
                lemma_series_for_char(historical_data@, trade.symbol@);
                match found {
                    Some(series_idx) => {
                        match spec_series_for(historical_data@, trade.symbol@) {
                            Some(j) => {
                                if j < series_idx {
                                    assert(historical_data@[j].0@ != trade.symbol@);
                                }
                                if series_idx < j {
                                    assert(historical_data@[series_idx as int].0@
                                        != trade.symbol@);
                                }
                                assert(j == series_idx);
                            },
                            None => {
                                assert(historical_data@[series_idx as int].0@ != trade.symbol@);
                            },
                        }
                    },
                    None => {
                        match spec_series_for(historical_data@, trade.symbol@) {
                            Some(j) => {
                                assert(historical_data@[j].0@ != trade.symbol@);
                                assert(historical_data@[j].0@ == trade.symbol@);
                            },
                            None => {},
                        }
                    },
                }
            }
            let exit_base: Price = match found {
                Some(series_idx) => {
                    let series = &historical_data[series_idx].1;
                    if series.len() > 0 {
                        series[series.len() - 1].quote.mid()
                    } else {
                        trade.entry_price
                    }
                },
                None => trade.entry_price,
            };
            let exit_price = self.apply_slippage(exit_base, true);
            trade.close(
                exit_price,
                final_time,
                ExitReason::EndOfData,
                self.config.commission_cents,
                0,
            );
            capital = credit_exit(
                capital,
                exit_price,
                &trade.quantity,
                self.config.commission_cents,
            );
            closed_trades.push(trade);
        }

        let metrics = PerformanceMetrics::calculate(
            &equity_curve,
            &closed_trades,
            self.config.initial_capital_cents,
            min_points,
        );
        Ok(
            BacktestResult {
                metrics,
                trades: closed_trades,
                equity_curve,
                final_capital_cents: capital,
                total_signals,
                rejected_signals,
            },
        )
    }
}

/// The wall-clock stand-in for a step index: one day per step, clamped
/// into the representable range.
fn step_time(idx: usize) -> u64 {
    if (idx as u64) > u64::MAX / 86400 {
        u64::MAX
    } else {
        (idx as u64) * 86400
    }
}

/// The index of the first open trade on `sym`, if one exists.
fn find_trade(trades: &Vec<BacktestTrade>, sym: &Symbol) -> (r: Option<usize>)
    ensures
        match r {
            Some(i) => i < trades@.len() && trades@[i as int].symbol@ == sym@ && (forall|j: int|
                0 <= j < i ==> (#[trigger] trades@[j]).symbol@ != sym@),
            None => forall|j: int| 0 <= j < trades@.len() ==> (#[trigger] trades@[j]).symbol@ != sym@,
        },
{
    let n = trades.len();
    let mut i: usize = 0;
    while i < n
        invariant
            n == trades@.len(),
            0 <= i <= n,
            forall|j: int| 0 <= j < i ==> (#[trigger] trades@[j]).symbol@ != sym@,
        decreases n - i,
    {
        if trades[i].symbol.same_as(sym) {
            return Some(i);
        }
        i += 1;
    }
    None
}

/// The index of the first series for `sym`, if one exists.
fn find_series(historical: &Vec<(Symbol, Vec<MarketData>)>, sym: &Symbol) -> (r: Option<usize>)
    ensures
        match r {
            Some(i) => i < historical@.len() && historical@[i as int].0@ == sym@ && (forall|j: int|
                0 <= j < i ==> (#[trigger] historical@[j]).0@ != sym@),
            None => forall|j: int|
                0 <= j < historical@.len() ==> (#[trigger] historical@[j]).0@ != sym@,
        },
{
    let n = historical.len();
    let mut i: usize = 0;
    while i < n
        invariant
            n == historical@.len(),
            0 <= i <= n,
            forall|j: int| 0 <= j < i ==> (#[trigger] historical@[j]).0@ != sym@,
        decreases n - i,
    {
        if historical[i].0.same_as(sym) {
            return Some(i);
        }
        i += 1;
    }
    None
}

/// The index of the first snapshot entry for `sym`, if one exists.
fn snapshot_entry(snapshot: &MarketSnapshot, sym: &Symbol) -> (r: Option<usize>)
    ensures
        match r {
            Some(i) => i < snapshot.spec_items().len() && snapshot.spec_items()[i as int].symbol@
                == sym@ && (forall|j: int|
                0 <= j < i ==> (#[trigger] snapshot.spec_items()[j]).symbol@ != sym@),
            None => !snapshot.spec_contains(sym@) && (forall|j: int|
                0 <= j < snapshot.spec_items().len()
                    ==> (#[trigger] snapshot.spec_items()[j]).symbol@ != sym@),
        },
{
    let n = snapshot.len();
    let mut i: usize = 0;
    while i < n
        invariant
            n == snapshot.spec_items().len(),
            0 <= i <= n,
            forall|j: int|
                0 <= j < i ==> (#[trigger] snapshot.spec_items()[j]).symbol@ != sym@,
        decreases n - i,
    {
        if snapshot.get_at(i).symbol.same_as(sym) {
            return Some(i);
        }
        i += 1;
    }
    None
}

/// A full copy of one market-data entry.
fn clone_market_data(d: &MarketData) -> (r: MarketData)
    ensures
        r.symbol@ == d.symbol@,
        r.quote == d.quote,
        r.last_price == d.last_price,
{
    d.clone()
}

/// The absolute gap between two prices, in cents.
fn price_gap(a: Price, b: Price) -> (r: u64)
    ensures
        r == if a.spec_cents() >= b.spec_cents() {
            a.spec_cents() - b.spec_cents()
        } else {
            b.spec_cents() - a.spec_cents()
        },
{
    let av = a.value();
    let bv = b.value();
    if av >= bv {
        av - bv
    } else {
        bv - av
    }
}

/// The cash needed to open `shares` at `price` plus the commission.
fn trade_cost(price: Price, shares: u64, commission_cents: u64) -> (r: u128)
    requires
        shares <= MAX_SHARES,
    ensures
        r == price.spec_cents() * shares + commission_cents,
{
    let p = price.value();
    proof {
        crate::order_manager::lemma_pnl_bounds(p as int, 0, shares as int);
    }
    (p as u128) * (shares as u128) + commission_cents as u128
}

/// Credits the proceeds of an exit, net of the exit commission, clamping
/// into the representable range.
fn credit_exit(capital: u64, exit_price: Price, quantity: &Quantity, commission_cents: u64) -> (r:
    u64)
    ensures
        r == crate::math::sat_u64(
            capital + exit_price.spec_cents() * (if quantity.spec_value() >= 0 {
                quantity.spec_value() as int
            } else {
                -(quantity.spec_value() as int)
            }) - commission_cents,
        ),
{
    let p = exit_price.value();
    let q = quantity.abs();
    proof {
        crate::order_manager::lemma_pnl_bounds(p as int, 0, q as int);
    }
    let proceeds: i128 = (p as i128) * (q as i128);
    let total: i128 = capital as i128 + proceeds - commission_cents as i128;
    if total < 0 {
        0
    } else if total > u64::MAX as i128 {
        u64::MAX
    } else {
        total as u64
    }
}

/// Cash plus the entry-value of the open trades, clamped into the
/// representable range.
fn equity_mark(capital: u64, open_trades: &Vec<BacktestTrade>) -> (r: u64)
    ensures
        r == crate::math::sat_u64(capital + spec_open_value_total(open_trades@)),
{
    let n = open_trades.len();
    let mut sum: u128 = 0;
    let mut i: usize = 0;
    proof {
        assert(open_trades@.take(0) =~= Seq::<BacktestTrade>::empty());
    }
    while i < n
        invariant
            n == open_trades@.len(),
            0 <= i <= n,
            sum <= u64::MAX as u128 + 1,
            spec_open_value_total(open_trades@.take(i as int)) <= u64::MAX ==> sum
                == spec_open_value_total(open_trades@.take(i as int)),
            spec_open_value_total(open_trades@.take(i as int)) > u64::MAX ==> sum == u64::MAX
                as u128 + 1,
        decreases n - i,
    {
        proof {
            assert(open_trades@.take(i as int + 1).drop_last() =~= open_trades@.take(i as int));
            assert(open_trades@.take(i as int + 1).last() == open_trades@[i as int]);
            lemma_open_value_total_nonneg(open_trades@.take(i as int));
        }
        let t = &open_trades[i];
        let p = t.entry_price.value();
        let q = t.quantity.abs();
        proof {
            assert(p * q <= (u64::MAX as int) * (MAX_SHARES as int)) by (nonlinear_arith)
                requires
                    0 <= p <= u64::MAX,
                    0 <= q <= MAX_SHARES,
            ;
            assert(p * q >= 0) by (nonlinear_arith)
                requires
                    p >= 0,
                    q >= 0,
            ;
        }
        sum = sum + (p as u128) * (q as u128);
        if sum > u64::MAX as u128 {
            sum = u64::MAX as u128 + 1;
        }
        i += 1;
    }
    proof {
        assert(open_trades@.take(n as int) =~= open_trades@);
        lemma_open_value_total_nonneg(open_trades@);
    }
    let total: u128 = capital as u128 + sum;
    if total > u64::MAX as u128 {
        u64::MAX
    } else {
        total as u64
    }
}

/// Cash plus the marked value of the open trades whose symbol the
/// snapshot covers, clamped into the representable range.
fn equity_mark_snapshot(
    capital: u64,
    open_trades: &Vec<BacktestTrade>,
    snapshot: &MarketSnapshot,
) -> (r: u64)
    ensures
        r == crate::math::sat_u64(capital + spec_marked_value_total(open_trades@, *snapshot)),
{
    let n = open_trades.len();
    let mut sum: u128 = 0;
    let mut i: usize = 0;
    proof {
        assert(open_trades@.take(0) =~= Seq::<BacktestTrade>::empty());
    }
    while i < n
        invariant
            n == open_trades@.len(),
            0 <= i <= n,
            sum <= u64::MAX as u128 + 1,
            spec_marked_value_total(open_trades@.take(i as int), *snapshot) <= u64::MAX ==> sum
                == spec_marked_value_total(open_trades@.take(i as int), *snapshot),
            spec_marked_value_total(open_trades@.take(i as int), *snapshot) > u64::MAX ==> sum
                == u64::MAX as u128 + 1,
        decreases n - i,
    {
        proof {
            assert(open_trades@.take(i as int + 1).drop_last() =~= open_trades@.take(i as int));
            assert(open_trades@.take(i as int + 1).last() == open_trades@[i as int]);
            lemma_marked_value_total_nonneg(open_trades@.take(i as int), *snapshot);
        }
        let t = &open_trades[i];
        let q = t.quantity.abs();
        let price_opt: Option<u64> = match snapshot_entry(snapshot, &t.symbol) {
            Some(d_idx) => {
                proof {
                    lemma_items_price_at(snapshot.spec_items(), t.symbol@, d_idx as int);
                }
                Some(snapshot.get_at(d_idx).quote.mid().value())
            },
            None => {
                proof {
                    lemma_items_price_none(snapshot.spec_items(), t.symbol@);
                }
                None
            },
        };
        match price_opt {
            Some(p) => {
                proof {
                    assert(p * q <= (u64::MAX as int) * (MAX_SHARES as int)) by (nonlinear_arith)
                        requires
                            0 <= p <= u64::MAX,
                            0 <= q <= MAX_SHARES,
                    ;
                    assert(p * q >= 0) by (nonlinear_arith)
                        requires
                            p >= 0,
                            q >= 0,
                    ;
                }
                sum = sum + (p as u128) * (q as u128);
                if sum > u64::MAX as u128 {
                    sum = u64::MAX as u128 + 1;
                }
            },
            None => {},
        }
        i += 1;
    }
    proof {
        assert(open_trades@.take(n as int) =~= open_trades@);
        lemma_marked_value_total_nonneg(open_trades@, *snapshot);
    }
    let total: u128 = capital as u128 + sum;
    if total > u64::MAX as u128 {
        u64::MAX
    } else {
        total as u64
    }
}

/// The open trades as (symbol, entry value) pairs for the risk manager's
/// correlation check, each value saturated at the representable cap.
fn trade_pairs(open_trades: &Vec<BacktestTrade>) -> (r: Vec<(Symbol, u64)>)
    ensures
        r@.len() == open_trades@.len(),
        forall|k: int|
            0 <= k < r@.len() ==> ((#[trigger] r@[k]).0@ == open_trades@[k].symbol@ && r@[k].1
                == crate::math::sat_u64(
                open_trades@[k].entry_price.spec_cents() * (if open_trades@[k].quantity.spec_value()
                    >= 0 {
                    open_trades@[k].quantity.spec_value() as int
                } else {
                    -(open_trades@[k].quantity.spec_value() as int)
                }),
            )),
{
    let n = open_trades.len();
    let mut pairs: Vec<(Symbol, u64)> = Vec::new();
    let mut i: usize = 0;
    while i < n
        invariant
            n == open_trades@.len(),
            0 <= i <= n,
            pairs@.len() == i,
            forall|k: int|
                0 <= k < i ==> ((#[trigger] pairs@[k]).0@ == open_trades@[k].symbol@ && pairs@[k].1
                    == crate::math::sat_u64(
                    open_trades@[k].entry_price.spec_cents() * (
                    if open_trades@[k].quantity.spec_value() >= 0 {
                        open_trades@[k].quantity.spec_value() as int
                    } else {
                        -(open_trades@[k].quantity.spec_value() as int)
                    }),
                )),
        decreases n - i,
    {
        let t = &open_trades[i];
        let p = t.entry_price.value();
        let q = t.quantity.abs();
        proof {
            crate::order_manager::lemma_pnl_bounds(p as int, 0, q as int);
        }
        let product: u128 = (p as u128) * (q as u128);
        let value: u64 = if product > u64::MAX as u128 {
            u64::MAX
        } else {
            product as u64
        };
        pairs.push((t.symbol.clone(), value));
        i += 1;
    }
    pairs
}

/// True exactly when the two actions are the same.
fn action_eq(a: SignalAction, b: SignalAction) -> (r: bool)
    ensures
        r == (a == b),
{
    match (a, b) {
        (SignalAction::Buy, SignalAction::Buy) => true,
        (SignalAction::Sell, SignalAction::Sell) => true,
        (SignalAction::Close, SignalAction::Close) => true,
        (SignalAction::Hold, SignalAction::Hold) => true,
        _ => false,
    }
}

} // verus!
