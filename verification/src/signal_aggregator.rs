//! Signal aggregation: collapses the signals of possibly-disagreeing alpha
//! models into at most one actionable signal per instrument.
//!
//! Signals are grouped by symbol in first-seen order and one configured
//! strategy decides each group. A group contributes no output when its
//! resulting confidence falls below the configured minimum. Aggregation is
//! purely functional over its input.

use vstd::prelude::*;

use crate::math::lemma_div_le_numerator;
use crate::types::signal::{Confidence, Signal, SignalAction, SignalView};
use crate::types::Symbol;

verus! {

/// How a group of signals for one symbol is collapsed.
#[derive(Debug, Clone, Copy, PartialEq, Eq, Structural)]
pub enum AggregationStrategy {
    /// Take the single most confident signal (first seen wins ties).
    HighestConfidence,
    /// Average confidence per action and take the best-scoring action.
    WeightedAverage,
    /// Require every signal to agree on one action.
    Unanimous,
    /// Take the action supported by the most signals.
    MajorityVote,
}

/// The signals of `sigs` whose symbol is `sym`, in order.
pub open spec fn spec_filter_symbol(sigs: Seq<SignalView>, sym: Seq<char>) -> Seq<SignalView>
    decreases sigs.len(),
{
    if sigs.len() == 0 {
        Seq::empty()
    } else {
        let rest = spec_filter_symbol(sigs.drop_last(), sym);
        if sigs.last().symbol == sym {
            rest.push(sigs.last())
        } else {
            rest
        }
    }
}

/// The distinct symbols of `sigs` in first-seen order.
pub open spec fn spec_distinct_symbols(sigs: Seq<SignalView>) -> Seq<Seq<char>>
    decreases sigs.len(),
{
    if sigs.len() == 0 {
        Seq::empty()
    } else {
        let rest = spec_distinct_symbols(sigs.drop_last());
        if rest.contains(sigs.last().symbol) {
            rest
        } else {
            rest.push(sigs.last().symbol)
        }
    }
}

/// The distinct actions of `group` in first-seen order.
pub open spec fn spec_distinct_actions(group: Seq<SignalView>) -> Seq<SignalAction>
    decreases group.len(),
{
    if group.len() == 0 {
        Seq::empty()
    } else {
        let rest = spec_distinct_actions(group.drop_last());
        if rest.contains(group.last().action) {
            rest
        } else {
            rest.push(group.last().action)
        }
    }
}

/// How many signals of `group` propose `action`.
pub open spec fn spec_count_action(group: Seq<SignalView>, action: SignalAction) -> int
    decreases group.len(),
{
    if group.len() == 0 {
        0
    } else {
        spec_count_action(group.drop_last(), action) + if group.last().action == action {
            1int
        } else {
            0
        }
    }
}

/// The combined confidence of the signals of `group` proposing `action`,
/// in basis points.
pub open spec fn spec_sum_conf_action(group: Seq<SignalView>, action: SignalAction) -> int
    decreases group.len(),
{
    if group.len() == 0 {
        0
    } else {
        spec_sum_conf_action(group.drop_last(), action) + if group.last().action == action {
            group.last().confidence_bps as int
        } else {
            0
        }
    }
}

/// The average confidence of the signals of `group` proposing `action`,
/// rounded down; zero when none does.
pub open spec fn spec_avg_conf_action(group: Seq<SignalView>, action: SignalAction) -> int {
    if spec_count_action(group, action) == 0 {
        0
    } else {
        spec_sum_conf_action(group, action) / spec_count_action(group, action)
    }
}

/// The index of the most confident signal of `group`; the earliest wins a
/// tie.
pub open spec fn spec_best_conf_idx(group: Seq<SignalView>) -> int
    decreases group.len(),
{
    if group.len() <= 1 {
        0
    } else {
        let best = spec_best_conf_idx(group.drop_last());
        if group.last().confidence_bps > group[best].confidence_bps {
            group.len() - 1
        } else {
            best
        }
    }
}

/// The first signal of `group` proposing `action`.
pub open spec fn spec_first_with_action(group: Seq<SignalView>, action: SignalAction) -> SignalView
    decreases group.len(),
{
    if group.len() == 0 {
        group[0]
    } else if group[0].action == action {
        group[0]
    } else {
        spec_first_with_action(group.drop_first(), action)
    }
}

/// The qualifying action with the highest average confidence, considering
/// the actions of `acts` in order: an action qualifies when its average
/// reaches `min_bps`, and an earlier action wins a tie.
pub open spec fn spec_best_avg_action(
    acts: Seq<SignalAction>,
    group: Seq<SignalView>,
    min_bps: u32,
) -> Option<SignalAction>
    decreases acts.len(),
{
    if acts.len() == 0 {
        None
    } else {
        let rest = spec_best_avg_action(acts.drop_last(), group, min_bps);
        let a = acts.last();
        let avg = spec_avg_conf_action(group, a);
        if avg >= min_bps {
            match rest {
                None => Some(a),
                Some(b) => if avg > spec_avg_conf_action(group, b) {
                    Some(a)
                } else {
                    rest
                },
            }
        } else {
            rest
        }
    }
}

/// The action supported by the most signals, considering the actions of
/// `acts` in order; an earlier action wins a tie.
pub open spec fn spec_best_count_action(
    acts: Seq<SignalAction>,
    group: Seq<SignalView>,
) -> Option<SignalAction>
    decreases acts.len(),
{
    if acts.len() == 0 {
        None
    } else {
        let rest = spec_best_count_action(acts.drop_last(), group);
        let a = acts.last();
        match rest {
            None => Some(a),
            Some(b) => if spec_count_action(group, a) > spec_count_action(group, b) {
                Some(a)
            } else {
                rest
            },
        }
    }
}

/// What one strategy decides for one symbol's group of signals: the output
/// signal's view, or `None` when the group contributes nothing. A
/// synthesized signal carries the descriptive fields of its base signal
/// (the first of the winning action) under the averaged confidence.
pub open spec fn spec_group_decision(
    strategy: AggregationStrategy,
    min_bps: u32,
    group: Seq<SignalView>,
) -> Option<SignalView>
    recommends
        group.len() > 0,
{
    match strategy {
        AggregationStrategy::HighestConfidence => {
            let best = group[spec_best_conf_idx(group)];
            if best.confidence_bps >= min_bps {
                Some(best)
            } else {
                None
            }
        },
        AggregationStrategy::WeightedAverage => {
            match spec_best_avg_action(spec_distinct_actions(group), group, min_bps) {
                None => None,
                Some(a) => Some(SignalView {
                    confidence_bps: spec_avg_conf_action(group, a) as u32,
                    ..spec_first_with_action(group, a)
                }),
            }
        },
        AggregationStrategy::Unanimous => {
            if forall|i: int|
                0 <= i < group.len() ==> (#[trigger] group[i]).action == group[0].action {
                let avg = spec_avg_conf_action(group, group[0].action);
                if avg >= min_bps {
                    Some(SignalView { confidence_bps: avg as u32, ..group[0] })
                } else {
                    None
                }
            } else {
                None
            }
        },
        AggregationStrategy::MajorityVote => {
            match spec_best_count_action(spec_distinct_actions(group), group) {
                None => None,
                Some(a) => {
                    let avg = spec_avg_conf_action(group, a);
                    if avg >= min_bps {
                        Some(SignalView {
                            confidence_bps: avg as u32,
                            ..spec_first_with_action(group, a)
                        })
                    } else {
                        None
                    }
                },
            }
        },
    }
}

/// The aggregated output for the symbols of `syms`, in order: each
/// symbol's group decision, when it produces one.
pub open spec fn spec_collect(
    syms: Seq<Seq<char>>,
    sigs: Seq<SignalView>,
    strategy: AggregationStrategy,
    min_bps: u32,
) -> Seq<SignalView>
    decreases syms.len(),
{
    if syms.len() == 0 {
        Seq::empty()
    } else {
        let head: Seq<SignalView> = match spec_group_decision(
            strategy,
            min_bps,
            spec_filter_symbol(sigs, syms[0]),
        ) {
            Some(v) => seq![v],
            None => Seq::empty(),
        };
        head + spec_collect(syms.drop_first(), sigs, strategy, min_bps)
    }
}

/// What `aggregate` returns: one decided signal per distinct input symbol
/// that produces one, in first-seen symbol order.
pub open spec fn spec_aggregate(
    strategy: AggregationStrategy,
    min_bps: u32,
    sigs: Seq<SignalView>,
) -> Seq<SignalView> {
    spec_collect(spec_distinct_symbols(sigs), sigs, strategy, min_bps)
}

/// Aggregates the signals of several alpha models, one strategy for all
/// symbols.
#[derive(Debug, Clone, Copy, PartialEq, Eq, Structural)]
pub struct SignalAggregator {
    /// The configured strategy.
    pub strategy: AggregationStrategy,
    /// Groups whose resulting confidence falls below this contribute no
    /// output, in basis points.
    pub min_confidence_bps: u32,
}

impl SignalAggregator {
    /// An aggregator with the given strategy and a 50% minimum confidence.
    pub fn new(strategy: AggregationStrategy) -> (r: SignalAggregator)
        ensures
            r.strategy == strategy,
            r.min_confidence_bps == 5000,
    {
        SignalAggregator { strategy, min_confidence_bps: 5000 }
    }

    /// The same aggregator with another minimum confidence, in basis
    /// points.
    pub fn with_min_confidence(self, min_confidence_bps: u32) -> (r: SignalAggregator)
        ensures
            r.strategy == self.strategy,
            r.min_confidence_bps == min_confidence_bps,
    {
        SignalAggregator { min_confidence_bps, ..self }
    }

    /// Groups `signals` by symbol in first-seen order and applies the
    /// configured strategy to each group; returns at most one signal per
    /// symbol.
    pub fn aggregate(&self, signals: Vec<Signal>) -> (r: Vec<Signal>)
        ensures
            r.deep_view() == spec_aggregate(
                self.strategy,
                self.min_confidence_bps,
                signals.deep_view(),
            ),
    {
        let ghost all = signals.deep_view();
        let n = signals.len();
        let mut order: Vec<Symbol> = Vec::new();
        let mut groups: Vec<Vec<Signal>> = Vec::new();
        let mut i: usize = 0;
        proof {
            assert(all.take(0) =~= Seq::<SignalView>::empty());
        }
        while i < n
            invariant
                all == signals.deep_view(),
                n == all.len(),
                0 <= i <= n,
                order@.len() == groups@.len(),
                order@.map_values(|s: Symbol| s@) =~= spec_distinct_symbols(all.take(i as int)),
                forall|k: int|
                    0 <= k < groups@.len() ==> (#[trigger] groups@[k]).deep_view()
                        == spec_filter_symbol(all.take(i as int), order@[k]@),
            decreases n - i,
        {
            proof {
                assert(all.take(i as int + 1).drop_last() =~= all.take(i as int));
                assert(all.take(i as int + 1).last() == all[i as int]);
                assert(signals@[i as int].deep_view() == all[i as int]);
            }
            let mut k: usize = 0;
            let mut scan: usize = 0;
            let m = order.len();
            let mut found: bool = false;
            while scan < m
                invariant
                    m == order@.len(),
                    0 <= scan <= m,
                    !found ==> forall|j: int| 0 <= j < scan ==> (#[trigger] order@[j])@
                        != signals@[i as int]@.symbol,
                    found ==> k < scan && order@[k as int]@ == signals@[i as int]@.symbol,
                    i < n,
                    all == signals.deep_view(),
                    n == all.len(),
                decreases m - scan,
            {
                if !found && order[scan].same_as(&signals[i].symbol) {
                    found = true;
                    k = scan;
                }
                scan += 1;
            }
            let ghost prev = all.take(i as int);
            let ghost cur = all.take(i as int + 1);
            let ghost sym = all[i as int].symbol;
            if found {
                proof {
                    assert(order@.map_values(|s: Symbol| s@)[k as int] == sym);
                    assert(spec_distinct_symbols(prev)[k as int] == sym);
                    assert(spec_distinct_symbols(prev).contains(sym));
                    assert(spec_distinct_symbols(cur) =~= spec_distinct_symbols(prev));
                    lemma_distinct_symbols_no_dup(prev);
                }
                let sig = signals[i].clone();
                let group = &mut groups[k];
                group.push(sig);
                proof {
                    assert(groups@[k as int].deep_view() =~= spec_filter_symbol(cur, sym));
                    assert forall|j: int|
                        0 <= j < groups@.len() && j != k implies (#[trigger] groups@[j]).deep_view()
                            =~= spec_filter_symbol(cur, order@[j]@) by {
                        assert(order@[j]@ == spec_distinct_symbols(prev)[j]);
                        assert(order@[j]@ != sym);
                        assert(groups@[j].deep_view() == spec_filter_symbol(prev, order@[j]@));
                    }
                }
            } else {
                proof {
                    if spec_distinct_symbols(prev).contains(sym) {
                        lemma_distinct_symbols_membership(prev, sym);
                        let j = choose|j: int|
                            0 <= j < spec_distinct_symbols(prev).len()
                                && spec_distinct_symbols(prev)[j] == sym;
                        assert(order@.map_values(|s: Symbol| s@)[j] == sym);
                        assert(order@[j]@ == sym);
                    }
                    assert(!spec_distinct_symbols(prev).contains(sym));
                }
                order.push(signals[i].symbol.clone());
                let mut group: Vec<Signal> = Vec::new();
                group.push(signals[i].clone());
                groups.push(group);
                proof {
                    assert(order@.map_values(|s: Symbol| s@) =~= spec_distinct_symbols(cur));
                    lemma_absent_symbol_filter_empty(prev, sym);
                    assert(groups@[groups@.len() - 1].deep_view() =~= spec_filter_symbol(cur, sym));
                    assert(forall|j: int|
                        0 <= j < groups@.len() - 1 ==> (#[trigger] groups@[j]).deep_view()
                            =~= spec_filter_symbol(cur, order@[j]@));
                }
            }
            i += 1;
        }
        proof {
            assert(all.take(n as int) =~= all);
        }

        let ghost syms = spec_distinct_symbols(all);
        let mut out: Vec<Signal> = Vec::new();
        let mut k: usize = 0;
        let total = order.len();
        proof {
            assert(syms.skip(0) =~= syms);
        }
        while k < total
            invariant
                total == order@.len(),
                order@.len() == groups@.len(),
                0 <= k <= total,
                syms == spec_distinct_symbols(all),
                order@.map_values(|s: Symbol| s@) =~= syms,
                forall|j: int|
                    0 <= j < groups@.len() ==> (#[trigger] groups@[j]).deep_view()
                        == spec_filter_symbol(all, order@[j]@),
                spec_aggregate(self.strategy, self.min_confidence_bps, all) =~= out.deep_view()
                    + spec_collect(syms.skip(k as int), all, self.strategy, self.min_confidence_bps),
            decreases total - k,
        {
            proof {
                assert(syms.skip(k as int)[0] == syms[k as int]);
                assert(syms.skip(k as int).drop_first() =~= syms.skip(k as int + 1));
                assert(order@[k as int]@ == syms[k as int]);
                lemma_distinct_symbols_nonempty_groups(all, syms[k as int]);
            }
            let decided: Option<Signal> = match self.strategy {
                AggregationStrategy::HighestConfidence => highest_confidence(
                    &groups[k],
                    self.min_confidence_bps,
                ),
                AggregationStrategy::WeightedAverage => weighted_average(
                    &groups[k],
                    self.min_confidence_bps,
                ),
                AggregationStrategy::Unanimous => unanimous(&groups[k], self.min_confidence_bps),
                AggregationStrategy::MajorityVote => majority_vote(
                    &groups[k],
                    self.min_confidence_bps,
                ),
            };
            match decided {
                Some(sig) => {
                    out.push(sig);
                },
                None => {},
            }
            k += 1;
        }
        proof {
            assert(syms.skip(total as int) =~= Seq::<Seq<char>>::empty());
            assert(out.deep_view() =~= spec_aggregate(self.strategy, self.min_confidence_bps, all));
        }
        out
    }
}

/// Every signal a symbol's group holds carries that symbol.
proof fn lemma_filter_symbol_members(sigs: Seq<SignalView>, sym: Seq<char>)
    ensures
        forall|k: int|
            0 <= k < spec_filter_symbol(sigs, sym).len() ==> (#[trigger] spec_filter_symbol(
                sigs,
                sym,
            )[k]).symbol == sym,
    decreases sigs.len(),
{
    if sigs.len() > 0 {
        lemma_filter_symbol_members(sigs.drop_last(), sym);
    }
}

/// The most confident signal's index lies within the group.
proof fn lemma_best_conf_idx_in_range(g: Seq<SignalView>)
    requires
        g.len() > 0,
    ensures
        0 <= spec_best_conf_idx(g) < g.len(),
    decreases g.len(),
{
    if g.len() > 1 {
        lemma_best_conf_idx_in_range(g.drop_last());
    }
}

/// When some signal of the group proposes `action`, the first such signal
/// is one of the group's.
proof fn lemma_first_with_action_member(g: Seq<SignalView>, action: SignalAction)
    requires
        exists|j: int| 0 <= j < g.len() && (#[trigger] g[j]).action == action,
    ensures
        exists|j: int| 0 <= j < g.len() && spec_first_with_action(g, action) == #[trigger] g[j],
    decreases g.len(),
{
    let w = choose|j: int| 0 <= j < g.len() && (#[trigger] g[j]).action == action;
    if g[0].action == action {
        assert(spec_first_with_action(g, action) == g[0]);
    } else {
        assert(w >= 1);
        assert(g.drop_first()[w - 1] == g[w]);
        lemma_first_with_action_member(g.drop_first(), action);
        let k = choose|k: int|
            0 <= k < g.drop_first().len() && spec_first_with_action(g.drop_first(), action)
                == #[trigger] g.drop_first()[k];
        assert(g.drop_first()[k] == g[k + 1]);
    }
}

/// A group whose signals all carry one symbol decides, if anything, a
/// signal carrying that symbol.
proof fn lemma_decision_keeps_symbol(
    strategy: AggregationStrategy,
    min_bps: u32,
    g: Seq<SignalView>,
    sym: Seq<char>,
)
    requires
        g.len() > 0,
        forall|k: int| 0 <= k < g.len() ==> (#[trigger] g[k]).symbol == sym,
    ensures
        spec_group_decision(strategy, min_bps, g) matches Some(v) ==> v.symbol == sym,
{
    match strategy {
        AggregationStrategy::HighestConfidence => {
            lemma_best_conf_idx_in_range(g);
        },
        AggregationStrategy::WeightedAverage => {
            match spec_best_avg_action(spec_distinct_actions(g), g, min_bps) {
                Some(a) => {
                    lemma_best_avg_in_acts(spec_distinct_actions(g), g, min_bps);
                    lemma_distinct_action_counts(g, a);
                    lemma_count_positive_has_first(g, a);
                    lemma_first_with_action_member(g, a);
                },
                None => {},
            }
        },
        AggregationStrategy::Unanimous => {},
        AggregationStrategy::MajorityVote => {
            match spec_best_count_action(spec_distinct_actions(g), g) {
                Some(a) => {
                    lemma_best_count_in_acts(spec_distinct_actions(g), g);
                    lemma_distinct_action_counts(g, a);
                    lemma_count_positive_has_first(g, a);
                    lemma_first_with_action_member(g, a);
                },
                None => {},
            }
        },
    }
}

/// Every collected output signal carries one of the listed symbols, each
/// listed symbol contributes at most one output, and outputs of distinct
/// listed symbols stay distinct.
proof fn lemma_collect_symbols_distinct(
    syms: Seq<Seq<char>>,
    sigs: Seq<SignalView>,
    strategy: AggregationStrategy,
    min_bps: u32,
)
    requires
        forall|i: int, j: int|
            0 <= i < j < syms.len() ==> #[trigger] syms[i] != #[trigger] syms[j],
        forall|i: int|
            0 <= i < syms.len() ==> spec_filter_symbol(sigs, #[trigger] syms[i]).len() > 0,
    ensures
        ({
            let out = spec_collect(syms, sigs, strategy, min_bps);
            &&& forall|k: int|
                0 <= k < out.len() ==> exists|j: int|
                    0 <= j < syms.len() && (#[trigger] out[k]).symbol == syms[j]
            &&& forall|a: int, b: int|
                0 <= a < b < out.len() ==> (#[trigger] out[a]).symbol != (#[trigger] out[b]).symbol
        }),
    decreases syms.len(),
{
    if syms.len() > 0 {
        let tail = syms.drop_first();
        assert(forall|i: int, j: int|
            0 <= i < j < tail.len() ==> #[trigger] tail[i] != #[trigger] tail[j]) by {
            assert(forall|i: int| 0 <= i < tail.len() ==> #[trigger] tail[i] == syms[i + 1]);
        }
        assert(forall|i: int|
            0 <= i < tail.len() ==> spec_filter_symbol(sigs, #[trigger] tail[i]).len() > 0) by {
            assert(forall|i: int| 0 <= i < tail.len() ==> #[trigger] tail[i] == syms[i + 1]);
        }
        lemma_collect_symbols_distinct(tail, sigs, strategy, min_bps);
        let g = spec_filter_symbol(sigs, syms[0]);
        lemma_filter_symbol_members(sigs, syms[0]);
        lemma_decision_keeps_symbol(strategy, min_bps, g, syms[0]);
        let rest = spec_collect(tail, sigs, strategy, min_bps);
        let out = spec_collect(syms, sigs, strategy, min_bps);
        match spec_group_decision(strategy, min_bps, g) {
            Some(v) => {
                assert(out =~= seq![v] + rest);
                assert forall|k: int|
                    0 <= k < out.len() implies exists|j: int|
                        0 <= j < syms.len() && (#[trigger] out[k]).symbol == syms[j] by {
                    if k == 0 {
                        assert(out[0].symbol == syms[0]);
                    } else {
                        let j = choose|j: int|
                            0 <= j < tail.len() && (#[trigger] rest[k - 1]).symbol == tail[j];
                        assert(out[k].symbol == syms[j + 1]);
                    }
                }
                assert forall|a: int, b: int|
                    0 <= a < b < out.len() implies (#[trigger] out[a]).symbol != (#[trigger] out[
                    b]).symbol by {
                    if a == 0 {
                        let j = choose|j: int|
                            0 <= j < tail.len() && (#[trigger] rest[b - 1]).symbol == tail[j];
                        assert(out[b].symbol == syms[j + 1]);
                        assert(syms[0] != syms[j + 1]);
                    } else {
                        assert(rest[a - 1].symbol != rest[b - 1].symbol);
                    }
                }
            },
            None => {
                assert(out =~= rest);
            },
        }
    }
}

/// Aggregation leaves at most one signal per symbol: the symbols of the
/// aggregated output are pairwise distinct.
pub proof fn lemma_aggregate_one_per_symbol(
    strategy: AggregationStrategy,
    min_bps: u32,
    sigs: Seq<SignalView>,
)
    ensures
        ({
            let out = spec_aggregate(strategy, min_bps, sigs);
            forall|a: int, b: int|
                0 <= a < b < out.len() ==> (#[trigger] out[a]).symbol != (#[trigger] out[b]).symbol
        }),
{
    let syms = spec_distinct_symbols(sigs);
    lemma_distinct_symbols_no_dup(sigs);
    assert forall|i: int|
        0 <= i < syms.len() implies spec_filter_symbol(sigs, #[trigger] syms[i]).len() > 0 by {
        assert(syms.contains(syms[i]));
        lemma_distinct_symbols_nonempty_groups(sigs, syms[i]);
    }
    lemma_collect_symbols_distinct(syms, sigs, strategy, min_bps);
}

/// A symbol listed among the distinct symbols of `sigs` stands at some
/// index of that list.
proof fn lemma_distinct_symbols_membership(sigs: Seq<SignalView>, sym: Seq<char>)
    requires
        spec_distinct_symbols(sigs).contains(sym),
    ensures
        exists|j: int|
            0 <= j < spec_distinct_symbols(sigs).len() && spec_distinct_symbols(sigs)[j] == sym,
{
}

/// A symbol absent from the distinct-symbol list has an empty group.
proof fn lemma_absent_symbol_filter_empty(sigs: Seq<SignalView>, sym: Seq<char>)
    requires
        !spec_distinct_symbols(sigs).contains(sym),
    ensures
        spec_filter_symbol(sigs, sym).len() == 0,
    decreases sigs.len(),
{
    if sigs.len() > 0 {
        let rest = spec_distinct_symbols(sigs.drop_last());
        let full = spec_distinct_symbols(sigs);
        if sigs.last().symbol == sym {
            if rest.contains(sym) {
                assert(full.contains(sym));
            } else {
                assert(full == rest.push(sym));
                assert(full[full.len() - 1] == sym);
                assert(full.contains(sym));
            }
            assert(false);
        } else {
            assert(!rest.contains(sym)) by {
                if rest.contains(sym) {
                    let j = choose|j: int| 0 <= j < rest.len() && rest[j] == sym;
                    if full == rest {
                        assert(full[j] == sym);
                    } else {
                        assert(full == rest.push(sigs.last().symbol));
                        assert(full[j] == sym);
                    }
                    assert(full.contains(sym));
                }
            }
            lemma_absent_symbol_filter_empty(sigs.drop_last(), sym);
        }
    }
}

/// The distinct-symbol list never repeats a symbol.
proof fn lemma_distinct_symbols_no_dup(sigs: Seq<SignalView>)
    ensures
        forall|i: int, j: int|
            0 <= i < j < spec_distinct_symbols(sigs).len() ==> #[trigger] spec_distinct_symbols(
                sigs,
            )[i] != #[trigger] spec_distinct_symbols(sigs)[j],
    decreases sigs.len(),
{
    if sigs.len() > 0 {
        lemma_distinct_symbols_no_dup(sigs.drop_last());
        let d = spec_distinct_symbols(sigs.drop_last());
        let full = spec_distinct_symbols(sigs);
        if !d.contains(sigs.last().symbol) {
            assert forall|i: int, j: int| 0 <= i < j < full.len() implies #[trigger] full[i]
                != #[trigger] full[j] by {
                if j == full.len() - 1 {
                    assert(full[i] == d[i]);
                    if full[i] == sigs.last().symbol {
                        assert(d.contains(sigs.last().symbol));
                    }
                } else {
                    assert(full[i] == d[i] && full[j] == d[j]);
                }
            }
        }
    }
}

/// The group of any symbol among the distinct symbols of `sigs` is
/// nonempty.
proof fn lemma_distinct_symbols_nonempty_groups(sigs: Seq<SignalView>, sym: Seq<char>)
    requires
        spec_distinct_symbols(sigs).contains(sym),
    ensures
        spec_filter_symbol(sigs, sym).len() > 0,
    decreases sigs.len(),
{
    if sigs.len() > 0 {
        if sigs.last().symbol == sym {
        } else {
            assert(spec_distinct_symbols(sigs.drop_last()).contains(sym));
            lemma_distinct_symbols_nonempty_groups(sigs.drop_last(), sym);
        }
    }
}

/// The most confident signal of the group, when its confidence reaches
/// `min_bps`; the earliest signal wins a tie.
fn highest_confidence(group: &Vec<Signal>, min_bps: u32) -> (r: Option<Signal>)
    requires
        group@.len() > 0,
    ensures
        ({
            let g = group.deep_view();
            let best = g[spec_best_conf_idx(g)];
            if best.confidence_bps >= min_bps {
                r matches Some(s) && s@ == best
            } else {
                r is None
            }
        }),
{
    let ghost g = group.deep_view();
    let n = group.len();
    let mut best: usize = 0;
    let mut best_conf: u32 = group[0].confidence.value();
    let mut i: usize = 1;
    proof {
        assert(g.take(1).drop_last() =~= g.take(0));
        assert(spec_best_conf_idx(g.take(1)) == 0);
    }
    while i < n
        invariant
            g == group.deep_view(),
            n == g.len(),
            1 <= i <= n,
            best < i,
            best == spec_best_conf_idx(g.take(i as int)),
            best_conf == g[best as int].confidence_bps,
        decreases n - i,
    {
        proof {
            assert(g.take(i as int + 1).drop_last() =~= g.take(i as int));
            assert(g.take(i as int + 1).last() == g[i as int]);
            assert(forall|j: int| 0 <= j < i ==> g.take(i as int)[j] == g[j]);
        }
        let c = group[i].confidence.value();
        if c > best_conf {
            best = i;
            best_conf = c;
        }
        i += 1;
    }
    proof {
        assert(g.take(n as int) =~= g);
    }
    if best_conf >= min_bps {
        Some(group[best].clone())
    } else {
        None
    }
}

/// The count of signals proposing `action` and their combined confidence,
/// by one scan of the group.
fn action_stats(group: &Vec<Signal>, action: SignalAction) -> (r: (u128, u64))
    ensures
        r.0 == spec_sum_conf_action(group.deep_view(), action),
        r.1 == spec_count_action(group.deep_view(), action),
        r.0 <= r.1 * 10000,
        r.1 <= group.deep_view().len(),
{
    let ghost g = group.deep_view();
    let n = group.len();
    let mut sum: u128 = 0;
    let mut count: u64 = 0;
    let mut i: usize = 0;
    proof {
        assert(g.take(0) =~= Seq::<SignalView>::empty());
    }
    while i < n
        invariant
            g == group.deep_view(),
            n == g.len(),
            0 <= i <= n,
            sum == spec_sum_conf_action(g.take(i as int), action),
            count == spec_count_action(g.take(i as int), action),
            sum <= count * 10000,
            count <= i,
        decreases n - i,
    {
        proof {
            assert(g.take(i as int + 1).drop_last() =~= g.take(i as int));
            assert(g.take(i as int + 1).last() == g[i as int]);
        }
        if group[i].action == action {
            let c = group[i].confidence.value();
            proof {
                assert((count + 1) * 10000 == count * 10000 + 10000) by (nonlinear_arith);
                assert(count * 10000 <= (u64::MAX as int) * 10000) by (nonlinear_arith)
                    requires
                        0 <= count <= u64::MAX,
                ;
            }
            sum = sum + c as u128;
            count = count + 1;
        }
        i += 1;
    }
    proof {
        assert(g.take(n as int) =~= g);
    }
    (sum, count)
}

/// The distinct actions of the group in first-seen order.
fn distinct_actions_of(group: &Vec<Signal>) -> (r: Vec<SignalAction>)
    ensures
        r@ == spec_distinct_actions(group.deep_view()),
{
    let ghost g = group.deep_view();
    let n = group.len();
    let mut acts: Vec<SignalAction> = Vec::new();
    let mut i: usize = 0;
    proof {
        assert(g.take(0) =~= Seq::<SignalView>::empty());
    }
    while i < n
        invariant
            g == group.deep_view(),
            n == g.len(),
            0 <= i <= n,
            acts@ == spec_distinct_actions(g.take(i as int)),
        decreases n - i,
    {
        proof {
            assert(g.take(i as int + 1).drop_last() =~= g.take(i as int));
            assert(g.take(i as int + 1).last() == g[i as int]);
        }
        let a = group[i].action;
        let mut k: usize = 0;
        let m = acts.len();
        let mut present = false;
        while k < m
            invariant
                m == acts@.len(),
                0 <= k <= m,
                !present ==> forall|j: int| 0 <= j < k ==> acts@[j] != a,
                present ==> acts@.contains(a),
            decreases m - k,
        {
            if acts[k] == a {
                present = true;
            }
            k += 1;
        }
        if !present {
            proof {
                if acts@.contains(a) {
                    let j = choose|j: int| 0 <= j < acts@.len() && acts@[j] == a;
                    assert(acts@[j] != a);
                }
            }
            acts.push(a);
        }
        i += 1;
    }
    proof {
        assert(g.take(n as int) =~= g);
    }
    acts
}

/// A clone of the first signal of the group proposing `action`.
fn first_with_action(group: &Vec<Signal>, action: SignalAction) -> (r: Signal)
    requires
        spec_count_action(group.deep_view(), action) > 0,
    ensures
        r@ == spec_first_with_action(group.deep_view(), action),
{
    let ghost g = group.deep_view();
    let n = group.len();
    let mut i: usize = 0;
    proof {
        lemma_count_positive_has_first(g, action);
    }
    while i < n
        invariant
            g == group.deep_view(),
            n == g.len(),
            0 <= i <= n,
            forall|j: int| 0 <= j < i ==> (#[trigger] g[j]).action != action,
            exists|j: int| 0 <= j < g.len() && (#[trigger] g[j]).action == action,
        decreases n - i,
    {
        if group[i].action == action {
            proof {
                lemma_first_with_action_at(g, action, i as int);
            }
            return group[i].clone();
        }
        i += 1;
    }
    proof {
        assert(false);
    }
    unreached()
}

/// A positive action count means some signal proposes the action.
proof fn lemma_count_positive_has_first(g: Seq<SignalView>, action: SignalAction)
    requires
        spec_count_action(g, action) > 0,
    ensures
        exists|j: int| 0 <= j < g.len() && (#[trigger] g[j]).action == action,
    decreases g.len(),
{
    if g.len() > 0 {
        if g.last().action == action {
            assert(g[g.len() - 1].action == action);
        } else {
            lemma_count_positive_has_first(g.drop_last(), action);
            let j = choose|j: int|
                0 <= j < g.drop_last().len() && (#[trigger] g.drop_last()[j]).action == action;
            assert(g[j].action == action);
        }
    }
}

/// If the signals before index `i` avoid `action` and `g[i]` proposes it,
/// then `g[i]` is the first signal with that action.
proof fn lemma_first_with_action_at(g: Seq<SignalView>, action: SignalAction, i: int)
    requires
        0 <= i < g.len(),
        g[i].action == action,
        forall|j: int| 0 <= j < i ==> (#[trigger] g[j]).action != action,
    ensures
        spec_first_with_action(g, action) == g[i],
    decreases i,
{
    if i > 0 {
        assert(g[0].action != action);
        lemma_first_with_action_at(g.drop_first(), action, i - 1);
        assert(g.drop_first()[i - 1] == g[i]);
    }
}

/// The action group with the best qualifying average confidence, decided
/// over the distinct actions in first-seen order; the result is the first
/// signal of that action carrying the averaged confidence.
fn weighted_average(group: &Vec<Signal>, min_bps: u32) -> (r: Option<Signal>)
    requires
        group@.len() > 0,
    ensures
        ({
            let g = group.deep_view();
            match spec_group_decision(AggregationStrategy::WeightedAverage, min_bps, g) {
                Some(v) => r matches Some(s) && s@ == v,
                None => r is None,
            }
        }),
{
    let ghost g = group.deep_view();
    let acts = distinct_actions_of(group);
    let m = acts.len();
    let mut best: Option<SignalAction> = None;
    let mut best_avg: u128 = 0;
    let mut k: usize = 0;
    proof {
        assert(acts@.take(0) =~= Seq::<SignalAction>::empty());
    }
    while k < m
        invariant
            g == group.deep_view(),
            acts@ == spec_distinct_actions(g),
            m == acts@.len(),
            0 <= k <= m,
            best == spec_best_avg_action(acts@.take(k as int), g, min_bps),
            best matches Some(b) ==> best_avg == spec_avg_conf_action(g, b),
        decreases m - k,
    {
        proof {
            assert(acts@.take(k as int + 1).drop_last() =~= acts@.take(k as int));
            assert(acts@.take(k as int + 1).last() == acts@[k as int]);
        }
        let a = acts[k];
        let (sum, count) = action_stats(group, a);
        let avg: u128 = if count == 0 {
            0
        } else {
            proof {
                lemma_div_le_numerator(sum as int, count as int);
            }
            sum / (count as u128)
        };
        if avg >= min_bps as u128 {
            match best {
                None => {
                    best = Some(a);
                    best_avg = avg;
                },
                Some(_) => {
                    if avg > best_avg {
                        best = Some(a);
                        best_avg = avg;
                    }
                },
            }
        }
        k += 1;
    }
    proof {
        assert(acts@.take(m as int) =~= acts@);
    }
    match best {
        Some(a) => {
            let (sum, count) = action_stats(group, a);
            proof {
                lemma_best_avg_in_acts(acts@, g, min_bps);
                lemma_distinct_action_counts(g, a);
                lemma_avg_bounded(sum as int, count as int);
            }
            let avg: u32 = (sum / (count as u128)) as u32;
            let base = first_with_action(group, a);
            let conf = match Confidence::new(avg) {
                Ok(c) => c,
                Err(_) => {
                    proof {
                        assert(false);
                    }
                    unreached()
                },
            };
            let mut out = base;
            out.confidence = conf;
            Some(out)
        },
        None => None,
    }
}

/// A best-average action is always drawn from the given action list.
proof fn lemma_best_avg_in_acts(acts: Seq<SignalAction>, g: Seq<SignalView>, min_bps: u32)
    ensures
        spec_best_avg_action(acts, g, min_bps) matches Some(a) ==> acts.contains(a),
    decreases acts.len(),
{
    if acts.len() > 0 {
        lemma_best_avg_in_acts(acts.drop_last(), g, min_bps);
        match spec_best_avg_action(acts.drop_last(), g, min_bps) {
            Some(b) => {
                if acts.drop_last().contains(b) {
                    let j = choose|j: int|
                        0 <= j < acts.drop_last().len() && acts.drop_last()[j] == b;
                    assert(acts[j] == b);
                }
            },
            None => {},
        }
        assert(acts[acts.len() - 1] == acts.last());
    }
}

/// A best-count action is always drawn from the given action list.
proof fn lemma_best_count_in_acts(acts: Seq<SignalAction>, g: Seq<SignalView>)
    ensures
        spec_best_count_action(acts, g) matches Some(a) ==> acts.contains(a),
    decreases acts.len(),
{
    if acts.len() > 0 {
        lemma_best_count_in_acts(acts.drop_last(), g);
        match spec_best_count_action(acts.drop_last(), g) {
            Some(b) => {
                if acts.drop_last().contains(b) {
                    let j = choose|j: int|
                        0 <= j < acts.drop_last().len() && acts.drop_last()[j] == b;
                    assert(acts[j] == b);
                }
            },
            None => {},
        }
        assert(acts[acts.len() - 1] == acts.last());
    }
}

/// An action count lies between zero and the group size.
proof fn lemma_count_action_bounds(g: Seq<SignalView>, a: SignalAction)
    ensures
        0 <= spec_count_action(g, a) <= g.len(),
    decreases g.len(),
{
    if g.len() > 0 {
        lemma_count_action_bounds(g.drop_last(), a);
    }
}

/// An action listed among the distinct actions of `g` has a positive
/// count.
proof fn lemma_distinct_action_counts(g: Seq<SignalView>, a: SignalAction)
    requires
        spec_distinct_actions(g).contains(a),
    ensures
        spec_count_action(g, a) > 0,
    decreases g.len(),
{
    lemma_count_action_bounds(g, a);
    if g.len() > 0 {
        lemma_count_action_bounds(g.drop_last(), a);
        if g.last().action == a {
        } else {
            assert(spec_distinct_actions(g.drop_last()).contains(a)) by {
                let d = spec_distinct_actions(g.drop_last());
                let j = choose|j: int|
                    0 <= j < spec_distinct_actions(g).len() && spec_distinct_actions(g)[j] == a;
                if spec_distinct_actions(g) == d {
                    assert(d[j] == a);
                } else {
                    assert(spec_distinct_actions(g) == d.push(g.last().action));
                    if j < d.len() {
                        assert(d[j] == a);
                    }
                }
            }
            lemma_distinct_action_counts(g.drop_last(), a);
        }
    }
}

/// An average of basis-point values stays within ten thousand.
proof fn lemma_avg_bounded(sum: int, count: int)
    requires
        count >= 1,
        0 <= sum <= count * 10000,
    ensures
        0 <= sum / count <= 10000,
{
    assert(sum / count <= (count * 10000) / count) by (nonlinear_arith)
        requires
            count >= 1,
            0 <= sum <= count * 10000,
    ;
    assert((count * 10000) / count == 10000) by (nonlinear_arith)
        requires
            count >= 1,
    ;
    assert(sum / count >= 0) by (nonlinear_arith)
        requires
            count >= 1,
            sum >= 0,
    ;
}

/// One signal when every signal of the group proposes the same action and
/// the averaged confidence qualifies: the group's first signal carrying
/// the average.
fn unanimous(group: &Vec<Signal>, min_bps: u32) -> (r: Option<Signal>)
    requires
        group@.len() > 0,
    ensures
        ({
            let g = group.deep_view();
            match spec_group_decision(AggregationStrategy::Unanimous, min_bps, g) {
                Some(v) => r matches Some(s) && s@ == v,
                None => r is None,
            }
        }),
{
    let ghost g = group.deep_view();
    let n = group.len();
    let first_action = group[0].action;
    let mut i: usize = 0;
    while i < n
        invariant
            g == group.deep_view(),
            n == g.len(),
            n > 0,
            0 <= i <= n,
            first_action == g[0].action,
            forall|j: int| 0 <= j < i ==> (#[trigger] g[j]).action == first_action,
        decreases n - i,
    {
        if group[i].action != first_action {
            proof {
                assert(!(forall|j: int|
                    0 <= j < g.len() ==> (#[trigger] g[j]).action == g[0].action)) by {
                    assert(g[i as int].action != g[0].action);
                }
            }
            return None;
        }
        i += 1;
    }
    let (sum, count) = action_stats(group, first_action);
    proof {
        lemma_all_same_counts(g, first_action);
        lemma_avg_bounded(sum as int, count as int);
    }
    let avg: u32 = (sum / (count as u128)) as u32;
    if (avg as u64) < min_bps as u64 {
        return None;
    }
    let conf = match Confidence::new(avg) {
        Ok(c) => c,
        Err(_) => {
            proof {
                assert(false);
            }
            unreached()
        },
    };
    let mut out = group[0].clone();
    out.confidence = conf;
    Some(out)
}

/// When every signal proposes `a`, the action count is the group size.
proof fn lemma_all_same_counts(g: Seq<SignalView>, a: SignalAction)
    requires
        g.len() > 0,
        forall|j: int| 0 <= j < g.len() ==> (#[trigger] g[j]).action == a,
    ensures
        spec_count_action(g, a) == g.len(),
    decreases g.len(),
{
    assert(g[g.len() - 1].action == a);
    assert(g.last() == g[g.len() - 1]);
    if g.len() == 1 {
        assert(g.drop_last().len() == 0);
        assert(spec_count_action(g.drop_last(), a) == 0);
        assert(spec_count_action(g, a) == 1);
    } else {
        assert forall|j: int| 0 <= j < g.drop_last().len() implies (#[trigger] g.drop_last()[j])
            .action == a by {
            assert(g.drop_last()[j] == g[j]);
        }
        lemma_all_same_counts(g.drop_last(), a);
    }
}

/// The action with the most supporting signals, carrying their averaged
/// confidence; `None` when that average falls below `min_bps`.
fn majority_vote(group: &Vec<Signal>, min_bps: u32) -> (r: Option<Signal>)
    requires
        group@.len() > 0,
    ensures
        ({
            let g = group.deep_view();
            match spec_group_decision(AggregationStrategy::MajorityVote, min_bps, g) {
                Some(v) => r matches Some(s) && s@ == v,
                None => r is None,
            }
        }),
{
    let ghost g = group.deep_view();
    let acts = distinct_actions_of(group);
    let m = acts.len();
    proof {
        lemma_distinct_actions_nonempty(g);
        assert(acts@.take(0) =~= Seq::<SignalAction>::empty());
    }
    let mut best: Option<SignalAction> = None;
    let mut best_count: u64 = 0;
    let mut k: usize = 0;
    while k < m
        invariant
            g == group.deep_view(),
            acts@ == spec_distinct_actions(g),
            m == acts@.len(),
            0 <= k <= m,
            best == spec_best_count_action(acts@.take(k as int), g),
            best matches Some(b) ==> best_count == spec_count_action(g, b),
        decreases m - k,
    {
        proof {
            assert(acts@.take(k as int + 1).drop_last() =~= acts@.take(k as int));
            assert(acts@.take(k as int + 1).last() == acts@[k as int]);
        }
        let a = acts[k];
        let (_, count) = action_stats(group, a);
        match best {
            None => {
                best = Some(a);
                best_count = count;
            },
            Some(_) => {
                if count > best_count {
                    best = Some(a);
                    best_count = count;
                }
            },
        }
        k += 1;
    }
    proof {
        assert(acts@.take(m as int) =~= acts@);
    }
    match best {
        Some(a) => {
            let (sum, count) = action_stats(group, a);
            proof {
                lemma_best_count_in_acts(acts@, g);
                lemma_distinct_action_counts(g, a);
                lemma_avg_bounded(sum as int, count as int);
            }
            let avg: u32 = (sum / (count as u128)) as u32;
            if (avg as u64) < min_bps as u64 {
                return None;
            }
            let base = first_with_action(group, a);
            let conf = match Confidence::new(avg) {
                Ok(c) => c,
                Err(_) => {
                    proof {
                        assert(false);
                    }
                    unreached()
                },
            };
            let mut out = base;
            out.confidence = conf;
            Some(out)
        },
        None => None,
    }
}

/// A nonempty group has at least one distinct action.
proof fn lemma_distinct_actions_nonempty(g: Seq<SignalView>)
    requires
        g.len() > 0,
    ensures
        spec_distinct_actions(g).len() > 0,
    decreases g.len(),
{
    if g.len() > 1 {
        lemma_distinct_actions_nonempty(g.drop_last());
    }
}

} // verus!
