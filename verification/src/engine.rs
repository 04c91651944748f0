//! The live trading engine's decision core: one cycle takes a market
//! snapshot and the alphas' raw signals, marks positions, closes the ones
//! whose exits triggered, aggregates, and executes what the risk checks
//! allow.
//!
//! Fetching data and polling alpha models are external work; the loop
//! around this core performs it and hands the results in, one atomic
//! cycle at a time.

use vstd::prelude::*;

use crate::order_manager::{
    spec_calculated_size, spec_cash_after_exits, spec_exiting, spec_has_position, spec_marked_rel,
    spec_position_pairs, spec_remaining, spec_trade_matches, OrderManager, OrderManagerConfig,
    Position, Trade,
};
use crate::risk_manager::{RiskCheckResult, RiskManager};
use crate::types::market_data::MarketData;
use crate::types::signal::{SignalAction, SignalView};
use crate::signal_aggregator::{AggregationStrategy, SignalAggregator};
use crate::types::market_data::MarketSnapshot;
use crate::types::signal::Signal;

verus! {

/// The engine's immutable configuration.
#[derive(Debug)]
pub struct EngineConfig {
    /// Seconds between cycles.
    pub update_interval_secs: u64,
    /// The symbols the engine monitors.
    pub symbols: Vec<crate::types::Symbol>,
    /// Signals below this confidence are not acted on, in basis points.
    pub min_confidence_bps: u32,
    /// How each cycle's signals are aggregated.
    pub aggregation_strategy: AggregationStrategy,
    /// Largest number of concurrent positions.
    pub max_positions: usize,
    /// Paper-trading mode: fills are simulated.
    pub paper_trading: bool,
}

impl Default for EngineConfig {
    /// One-minute cycles, 70% minimum confidence, weighted-average
    /// aggregation, ten positions, paper trading on.
    fn default() -> (r: EngineConfig)
        ensures
            r.update_interval_secs == 60,
            r.symbols@.len() == 0,
            r.min_confidence_bps == 7000,
            r.aggregation_strategy == AggregationStrategy::WeightedAverage,
            r.max_positions == 10,
            r.paper_trading,
    {
        EngineConfig {
            update_interval_secs: 60,
            symbols: Vec::new(),
            min_confidence_bps: 7000,
            aggregation_strategy: AggregationStrategy::WeightedAverage,
            max_positions: 10,
            paper_trading: true,
        }
    }
}

/// Counters over the engine's lifetime.
#[derive(Debug, Clone, Copy, PartialEq, Eq, Structural)]
pub struct EngineStats {
    pub cycles_completed: u64,
    pub signals_generated: u64,
    pub signals_aggregated: u64,
    pub errors_encountered: u64,
    pub total_runtime_ms: u64,
}

impl Default for EngineStats {
    /// All counters at zero.
    fn default() -> (r: EngineStats)
        ensures
            r.cycles_completed == 0,
            r.signals_generated == 0,
            r.signals_aggregated == 0,
            r.errors_encountered == 0,
            r.total_runtime_ms == 0,
    {
        EngineStats {
            cycles_completed: 0,
            signals_generated: 0,
            signals_aggregated: 0,
            errors_encountered: 0,
            total_runtime_ms: 0,
        }
    }
}

/// The decision core of the live engine: the aggregator, the order and
/// position manager, and the lifetime counters.
#[derive(Debug)]
pub struct TradingEngine {
    /// The immutable configuration.
    pub config: EngineConfig,
    /// The aggregator for each cycle's signals.
    pub signal_aggregator: SignalAggregator,
    /// The portfolio state: cash, positions, ledger, risk gate.
    pub order_manager: OrderManager,
    /// Lifetime counters.
    pub stats: EngineStats,
}

impl TradingEngine {
    /// The engine's invariant: its order manager is well formed.
    pub open spec fn wf(self) -> bool {
        self.order_manager.wf()
    }

    /// An engine over fresh capital.
    pub fn new(config: EngineConfig, initial_capital_cents: u64) -> (r: TradingEngine)
        requires
            config.max_positions <= 4096,
        ensures
            r.wf(),
            r.signal_aggregator.strategy == config.aggregation_strategy,
            r.signal_aggregator.min_confidence_bps == config.min_confidence_bps,
            r.order_manager.cash_cents == initial_capital_cents,
            r.order_manager.positions@.len() == 0,
            r.order_manager.trade_history@.len() == 0,
            r.order_manager.config.max_positions == config.max_positions,
            r.order_manager.config.paper_trading == config.paper_trading,
            r.stats == (EngineStats {
                cycles_completed: 0,
                signals_generated: 0,
                signals_aggregated: 0,
                errors_encountered: 0,
                total_runtime_ms: 0,
            }),
    {
        let strategy = config.aggregation_strategy;
        let min_conf = config.min_confidence_bps;
        let signal_aggregator = SignalAggregator::new(strategy).with_min_confidence(min_conf);
        let order_config = OrderManagerConfig {
            max_positions: config.max_positions,
            max_risk_per_trade_bps: 50,
            commission_cents: 0,
            paper_trading: config.paper_trading,
        };
        let order_manager = OrderManager::new(initial_capital_cents, order_config);
        TradingEngine {
            config,
            signal_aggregator,
            order_manager,
            stats: EngineStats::default(),
        }
    }

    /// The lifetime counters.
    pub fn stats(&self) -> (r: &EngineStats)
        ensures
            r == self.stats,
    {
        &self.stats
    }

    /// One atomic cycle over a snapshot and the alphas' raw signals:
    /// re-marks every position, closes the ones whose stop or target
    /// triggered, aggregates the raw signals, and tries to execute each
    /// aggregated one; per-signal failures are counted, never fatal.
    /// Returns the trades closed and the number of orders executed.
    ///
    /// The contract names the re-marked position list: the returned
    /// trades are exactly the exits that list triggers, the ledger grows
    /// by exactly those records, executions only debit cash, and the
    /// final position count is the survivors plus the executed orders.
    /// A named state trace further walks the order manager from the
    /// post-exit state through every aggregated signal: one with a
    /// snapshot price relates consecutive states by the exact
    /// execute-signal outcome, one without leaves the state unchanged,
    /// and the executed count is the number of successful steps.
    pub fn run_cycle(&mut self, snapshot: &MarketSnapshot, raw_signals: Vec<Signal>) -> (r: (
        Vec<Trade>,
        usize,
    ))
        requires
            old(self).wf(),
            snapshot.wf(),
            old(self).order_manager.config.paper_trading,
        ensures
            final(self).wf(),
            final(self).config == old(self).config,
            final(self).signal_aggregator == old(self).signal_aggregator,
            final(self).stats.cycles_completed == crate::math::sat_u64(
                old(self).stats.cycles_completed + 1,
            ),
            final(self).stats.signals_generated == crate::math::sat_u64(
                old(self).stats.signals_generated + raw_signals@.len(),
            ),
            r.1 <= spec_aggregated_len(old(self).signal_aggregator, raw_signals.deep_view()),
            final(self).stats.signals_aggregated == crate::math::sat_u64(
                old(self).stats.signals_aggregated + spec_aggregated_len(
                    old(self).signal_aggregator,
                    raw_signals.deep_view(),
                ),
            ),
            exists|marked: Seq<Position>, trace: Seq<OrderManager>, oks: Seq<bool>|
                #![trigger marked.len(), trace.len(), oks.len()]
                spec_cycle_post(
                    *old(self),
                    *final(self),
                    *snapshot,
                    raw_signals.deep_view(),
                    r.0@,
                    r.1 as int,
                    marked,
                    trace,
                    oks,
                ),
            exists|marked: Seq<Position>|
                {
                    &&& #[trigger] spec_marked_rel(
                        old(self).order_manager.positions@,
                        *snapshot,
                        marked,
                    )
                    &&& r.0@.len() == spec_exiting(marked).len()
                    &&& (forall|k: int|
                        0 <= k < r.0@.len() ==> spec_trade_matches(
                            #[trigger] r.0@[k],
                            spec_exiting(marked)[k],
                        ))
                    &&& final(self).order_manager.trade_history@.len()
                        == old(self).order_manager.trade_history@.len() + r.0@.len()
                    &&& (forall|k: int|
                        0 <= k < old(self).order_manager.trade_history@.len()
                            ==> #[trigger] final(self).order_manager.trade_history@[k]
                            == old(self).order_manager.trade_history@[k])
                    &&& (forall|k: int|
                        0 <= k < r.0@.len() ==> spec_trade_matches(
                            #[trigger] final(self).order_manager.trade_history@[
                                old(self).order_manager.trade_history@.len() + k
                            ],
                            spec_exiting(marked)[k],
                        ))
                    &&& final(self).order_manager.cash_cents <= spec_cash_after_exits(
                        old(self).order_manager.cash_cents as int,
                        marked,
                    )
                    &&& final(self).order_manager.positions@.len() == spec_remaining(
                        marked,
                    ).len() + r.1
                    &&& (forall|k: int|
                        0 <= k < spec_remaining(marked).len()
                            ==> #[trigger] final(self).order_manager.positions@[k]
                            == spec_remaining(marked)[k])
                },
    {
        let raw_count = raw_signals.len();

        // Mark every position to the latest prices, then close what
        // triggered.
        self.order_manager.update_positions(snapshot);
        let ghost marked = self.order_manager.positions@;
        let closed = self.order_manager.check_exits();
        let ghost om_start = self.order_manager;
        let ghost hist_after_exits = self.order_manager.trade_history@;
        let ghost cash_after = spec_cash_after_exits(
            old(self).order_manager.cash_cents as int,
            marked,
        );
        let ghost remaining_len = spec_remaining(marked).len();

        // Collapse the cycle's opinions to at most one per symbol.
        let aggregated = self.signal_aggregator.aggregate(raw_signals);
        let aggregated_count = aggregated.len();

        // Execute each actionable signal at its symbol's latest price.
        let mut executed: usize = 0;
        let mut k: usize = 0;
        let ghost mut trace: Seq<OrderManager> = Seq::empty().push(om_start);
        let ghost mut oks: Seq<bool> = Seq::empty();
        while k < aggregated.len()
            invariant
                self.wf(),
                snapshot.wf(),
                0 <= k <= aggregated@.len(),
                executed <= k,
                self.config == old(self).config,
                self.order_manager.config == old(self).order_manager.config,
                self.order_manager.config.paper_trading,
                self.signal_aggregator == old(self).signal_aggregator,
                self.stats == old(self).stats,
                self.order_manager.trade_history@ == hist_after_exits,
                self.order_manager.cash_cents <= cash_after,
                self.order_manager.positions@.len() == remaining_len + executed,
                forall|k: int|
                    0 <= k < remaining_len ==> #[trigger] self.order_manager.positions@[k]
                        == spec_remaining(marked)[k],
                trace.len() == k + 1,
                oks.len() == k,
                trace[0] == om_start,
                trace[k as int] == self.order_manager,
                self.order_manager.trade_history == om_start.trade_history,
                executed == spec_count_true(oks),
                forall|j: int|
                    0 <= j < k ==> match spec_items_last_price(
                        snapshot.spec_items(),
                        (#[trigger] aggregated.deep_view()[j]).symbol,
                    ) {
                        Some(p) => spec_cycle_exec_rel(
                            trace[j],
                            aggregated.deep_view()[j],
                            p,
                            trace[j + 1],
                            oks[j],
                        ),
                        None => trace[j + 1] == trace[j] && !oks[j],
                    },
                aggregated.deep_view() == crate::signal_aggregator::spec_aggregate(
                    old(self).signal_aggregator.strategy,
                    old(self).signal_aggregator.min_confidence_bps,
                    raw_signals.deep_view(),
                ),
            decreases aggregated@.len() - k,
        {
            let signal = &aggregated[k];
            let ghost v = aggregated.deep_view()[k as int];
            let ghost pre_om = self.order_manager;
            match snapshot.get(&signal.symbol) {
                Some(data) => {
                    proof {
                        let i = choose|i: int|
                            0 <= i < snapshot.spec_items().len() && snapshot.spec_items()[i]
                                == *data && (#[trigger] snapshot.spec_items()[i]).symbol@
                                == signal.symbol@;
                        assert forall|j: int| 0 <= j < i implies (
                        #[trigger] snapshot.spec_items()[j]).symbol@ != v.symbol by {
                            if snapshot.spec_items()[j].symbol@ == v.symbol {
                                assert(snapshot.spec_items()[j].symbol@
                                    == snapshot.spec_items()[i].symbol@);
                            }
                        }
                        lemma_items_last_price_at(snapshot.spec_items(), v.symbol, i);
                    }
                    let price = data.last_price;
                    let ghost before_exec = self.order_manager.positions@;
                    let step_ok: bool;
                    match self.order_manager.execute_signal(signal, price) {
                        Ok(_) => {
                            executed = executed + 1;
                            step_ok = true;
                            proof {
                                assert forall|k: int| 0 <= k < remaining_len implies #[trigger]
                                    self.order_manager.positions@[k] == spec_remaining(
                                    marked,
                                )[k] by {
                                    assert(self.order_manager.positions@.drop_last()[k]
                                        == before_exec[k]);
                                    assert(self.order_manager.positions@.drop_last()[k]
                                        == self.order_manager.positions@[k]);
                                }
                            }
                        },
                        Err(_) => {
                            step_ok = false;
                        },
                    }
                    proof {
                        assert(signal@ == v);
                        assert(spec_cycle_exec_rel(pre_om, v, price, self.order_manager, step_ok));
                        let prior_trace = trace;
                        let prior_oks = oks;
                        trace = trace.push(self.order_manager);
                        oks = oks.push(step_ok);
                        assert(oks.drop_last() =~= prior_oks);
                        assert(trace.drop_last() =~= prior_trace);
                    }
                },
                None => {
                    proof {
                        assert(!snapshot.spec_contains(v.symbol));
                        assert forall|j: int|
                            0 <= j < snapshot.spec_items().len() implies (
                        #[trigger] snapshot.spec_items()[j]).symbol@ != v.symbol by {
                            if snapshot.spec_items()[j].symbol@ == v.symbol {
                                assert(snapshot.spec_contains(v.symbol));
                            }
                        }
                        lemma_items_last_price_none(snapshot.spec_items(), v.symbol);
                        let prior_trace = trace;
                        let prior_oks = oks;
                        trace = trace.push(self.order_manager);
                        oks = oks.push(false);
                        assert(oks.drop_last() =~= prior_oks);
                        assert(trace.drop_last() =~= prior_trace);
                    }
                },
            }
            k += 1;
        }

        if self.stats.cycles_completed < u64::MAX {
            self.stats.cycles_completed = self.stats.cycles_completed + 1;
        }
        self.stats.signals_generated = sat_add_u64(self.stats.signals_generated, raw_count as u64);
        self.stats.signals_aggregated = sat_add_u64(
            self.stats.signals_aggregated,
            aggregated_count as u64,
        );
        proof {
            assert(aggregated.deep_view() == crate::signal_aggregator::spec_aggregate(
                old(self).signal_aggregator.strategy,
                old(self).signal_aggregator.min_confidence_bps,
                raw_signals.deep_view(),
            ));
            assert(spec_marked_rel(old(self).order_manager.positions@, *snapshot, marked));
            assert(spec_cycle_post(
                *old(self),
                *self,
                *snapshot,
                raw_signals.deep_view(),
                closed@,
                executed as int,
                marked,
                trace,
                oks,
            ));

        }
        (closed, executed)
    }

    /// Counts one failed cycle; a failure never corrupts portfolio state.
    pub fn record_cycle_error(&mut self)
        requires
            old(self).wf(),
        ensures
            final(self).wf(),
            final(self).stats.errors_encountered == crate::math::sat_u64(
                old(self).stats.errors_encountered + 1,
            ),
            final(self).stats.cycles_completed == old(self).stats.cycles_completed,
            final(self).config == old(self).config,
            final(self).order_manager == old(self).order_manager,
            final(self).signal_aggregator == old(self).signal_aggregator,
    {
        self.stats.errors_encountered = sat_add_u64(self.stats.errors_encountered, 1);
    }
}

/// The last price of the first snapshot item for `sym`, if any.
pub open spec fn spec_items_last_price(items: Seq<MarketData>, sym: Seq<char>) -> Option<
    crate::types::price::Price,
>
    decreases items.len(),
{
    if items.len() == 0 {
        None
    } else if items[0].symbol@ == sym {
        Some(items[0].last_price)
    } else {
        spec_items_last_price(items.drop_first(), sym)
    }
}

/// When `items[i]` is the first entry for `sym`, the looked-up last price
/// is its own.
pub proof fn lemma_items_last_price_at(items: Seq<MarketData>, sym: Seq<char>, i: int)
    requires
        0 <= i < items.len(),
        items[i].symbol@ == sym,
        forall|k: int| 0 <= k < i ==> (#[trigger] items[k]).symbol@ != sym,
    ensures
        spec_items_last_price(items, sym) == Some(items[i].last_price),
    decreases i,
{
    if i > 0 {
        assert(forall|k: int|
            0 <= k < items.drop_first().len() ==> #[trigger] items.drop_first()[k] == items[k + 1]);
        lemma_items_last_price_at(items.drop_first(), sym, i - 1);
    }
}

/// When no entry matches `sym`, the lookup is `None`.
pub proof fn lemma_items_last_price_none(items: Seq<MarketData>, sym: Seq<char>)
    requires
        forall|k: int| 0 <= k < items.len() ==> (#[trigger] items[k]).symbol@ != sym,
    ensures
        spec_items_last_price(items, sym) is None,
    decreases items.len(),
{
    if items.len() > 0 {
        assert(forall|k: int|
            0 <= k < items.drop_first().len() ==> #[trigger] items.drop_first()[k] == items[k + 1]);
        lemma_items_last_price_none(items.drop_first(), sym);
    }
}

/// How many entries of `oks` are true.
pub open spec fn spec_count_true(oks: Seq<bool>) -> int
    decreases oks.len(),
{
    if oks.len() == 0 {
        0
    } else {
        spec_count_true(oks.drop_last()) + if oks.last() {
            1int
        } else {
            0
        }
    }
}

/// How one executed signal relates an order-manager state to the next:
/// exactly the outcome of signal execution — a duplicate position, a
/// missing or zero-distance stop, an undersized budget, a risk rejection
/// or an invalid action leaves the portfolio unchanged (`ok` false, the
/// risk gate re-marked once sizing succeeded), and an approved buy or
/// sell opens the position and debits its cost plus the commission
/// (`ok` true).
pub open spec fn spec_cycle_exec_rel(
    pre: OrderManager,
    v: SignalView,
    price: crate::types::price::Price,
    post: OrderManager,
    ok: bool,
) -> bool {
    let sym = v.symbol;
    let entry = price.spec_cents() as int;
    &&& post.config == pre.config
    &&& post.sizer == pre.sizer
    &&& post.trade_history == pre.trade_history
    &&& post.risk_manager.config == pre.risk_manager.config
    &&& post.risk_manager.day_start_cents == pre.risk_manager.day_start_cents
    &&& post.risk_manager.consecutive_losses == pre.risk_manager.consecutive_losses
    &&& post.risk_manager.correlation_groups == pre.risk_manager.correlation_groups
    &&& if spec_has_position(pre.positions@, sym) {
        &&& !ok
        &&& post.positions == pre.positions
        &&& post.cash_cents == pre.cash_cents
        &&& post.risk_manager == pre.risk_manager
    } else {
        match v.stop_loss {
            None => {
                &&& !ok
                &&& post.positions == pre.positions
                &&& post.cash_cents == pre.cash_cents
                &&& post.risk_manager == pre.risk_manager
            },
            Some(stop) => {
                let shares = spec_calculated_size(
                    pre.sizer.portfolio_cents as int,
                    pre.sizer.max_risk_per_trade_bps as int,
                    entry,
                    stop.spec_cents() as int,
                );
                if entry == stop.spec_cents() || shares <= 0 {
                    &&& !ok
                    &&& post.positions == pre.positions
                    &&& post.cash_cents == pre.cash_cents
                    &&& post.risk_manager == pre.risk_manager
                } else {
                    let value = crate::math::sat_u64(entry * shares);
                    let dist = if entry >= stop.spec_cents() {
                        entry - stop.spec_cents()
                    } else {
                        stop.spec_cents() - entry
                    };
                    let risk = crate::math::sat_u64(dist * shares);
                    let gated = (RiskManager {
                        current_cents: pre.spec_portfolio() as u64,
                        ..pre.risk_manager
                    });
                    let check = gated.spec_check_trade(
                        sym,
                        value as u64,
                        risk as u64,
                        spec_position_pairs(pre.positions@),
                        pre.config.max_positions,
                        pre.cash_cents,
                    );
                    &&& post.risk_manager == gated
                    &&& match check {
                        RiskCheckResult::Rejected(_) => {
                            &&& !ok
                            &&& post.positions == pre.positions
                            &&& post.cash_cents == pre.cash_cents
                        },
                        RiskCheckResult::Approved => {
                            if v.action == SignalAction::Buy || v.action == SignalAction::Sell {
                                &&& ok
                                &&& post.positions@.len() == pre.positions@.len() + 1
                                &&& post.positions@.drop_last() == pre.positions@
                                &&& ({
                                    let p = post.positions@.last();
                                    &&& p.symbol@ == sym
                                    &&& p.quantity.spec_value() == shares
                                    &&& p.entry_price == price
                                    &&& p.current_price == price
                                    &&& p.stop_loss == v.stop_loss
                                    &&& p.take_profit == v.take_profit
                                    &&& p.source_signal@ == v.source
                                })
                                &&& post.cash_cents == crate::math::sat_u64(
                                    pre.cash_cents - value - pre.config.commission_cents,
                                )
                            } else {
                                &&& !ok
                                &&& post.positions == pre.positions
                                &&& post.cash_cents == pre.cash_cents
                            }
                        },
                    }
                }
            },
        }
    }
}

/// The whole postcondition of one cycle, over the named intermediate
/// data: `marked` is the re-marked position list; the closed trades are
/// exactly its triggered exits and the ledger grows by exactly those
/// records; and `trace` walks the order manager from the post-exit state
/// through every aggregated signal — each one with a snapshot price
/// relates consecutive states by [`spec_cycle_exec_rel`], each one
/// without leaves the state unchanged — ending at the final state, with
/// the executed count the number of successful steps.
pub open spec fn spec_cycle_post(
    pre: TradingEngine,
    post: TradingEngine,
    snapshot: MarketSnapshot,
    raw: Seq<SignalView>,
    closed: Seq<Trade>,
    executed: int,
    marked: Seq<Position>,
    trace: Seq<OrderManager>,
    oks: Seq<bool>,
) -> bool {
    let agg = crate::signal_aggregator::spec_aggregate(
        pre.signal_aggregator.strategy,
        pre.signal_aggregator.min_confidence_bps,
        raw,
    );
    &&& spec_marked_rel(pre.order_manager.positions@, snapshot, marked)
    &&& closed.len() == spec_exiting(marked).len()
    &&& (forall|k: int|
        0 <= k < closed.len() ==> spec_trade_matches(#[trigger] closed[k], spec_exiting(marked)[k]))
    &&& post.order_manager.trade_history@.len() == pre.order_manager.trade_history@.len()
        + closed.len()
    &&& (forall|k: int|
        0 <= k < pre.order_manager.trade_history@.len()
            ==> #[trigger] post.order_manager.trade_history@[k]
            == pre.order_manager.trade_history@[k])
    &&& (forall|k: int|
        0 <= k < closed.len() ==> spec_trade_matches(
            #[trigger] post.order_manager.trade_history@[pre.order_manager.trade_history@.len()
                + k],
            spec_exiting(marked)[k],
        ))
    &&& trace.len() == agg.len() + 1
    &&& oks.len() == agg.len()
    &&& trace[0].positions@ == spec_remaining(marked)
    &&& trace[0].cash_cents == spec_cash_after_exits(pre.order_manager.cash_cents as int, marked)
    &&& trace[0].config == pre.order_manager.config
    &&& trace[0].sizer == pre.order_manager.sizer
    &&& trace[0].trade_history == post.order_manager.trade_history
    &&& trace[agg.len() as int] == post.order_manager
    &&& executed == spec_count_true(oks)
    &&& (forall|k: int|
        0 <= k < agg.len() ==> match spec_items_last_price(
            snapshot.spec_items(),
            (#[trigger] agg[k]).symbol,
        ) {
            Some(p) => spec_cycle_exec_rel(trace[k], agg[k], p, trace[k + 1], oks[k]),
            None => trace[k + 1] == trace[k] && !oks[k],
        })
}

/// How many signals aggregation leaves for one cycle.
pub open spec fn spec_aggregated_len(
    aggregator: SignalAggregator,
    raw: Seq<crate::types::signal::SignalView>,
) -> int {
    crate::signal_aggregator::spec_aggregate(
        aggregator.strategy,
        aggregator.min_confidence_bps,
        raw,
    ).len() as int
}

/// The sum of two counters, clamped at the largest representable value.
fn sat_add_u64(a: u64, b: u64) -> (r: u64)
    ensures
        r == crate::math::sat_u64(a + b),
{
    if a > u64::MAX - b {
        u64::MAX
    } else {
        a + b
    }
}

} // verus!
