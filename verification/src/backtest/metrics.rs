//! Performance metrics: pure computations over the final equity curve and
//! the closed-trade ledger.
//!
//! Returns are carried in basis points and the risk-adjusted ratios in
//! thousandths; the ratios that need a square root use the exact integer
//! square root. Figures that need fractional powers (geometric
//! annualization) are left to the caller: they cannot be computed exactly
//! in integers.

use vstd::prelude::*;

use crate::backtest::trade::{spec_pnl_bounded, BacktestTrade};
use crate::math::{isqrt, lemma_div_le_numerator, spec_isqrt};

verus! {

/// The per-period return from `a` to `b` in basis points, rounded toward
/// zero; zero from an empty baseline.
pub open spec fn spec_period_return_bps(a: int, b: int) -> int {
    if a <= 0 {
        0
    } else if b >= a {
        (b - a) * 10000 / a
    } else {
        -((a - b) * 10000 / a)
    }
}

/// The period returns of an equity curve, one per consecutive pair.
pub open spec fn spec_returns(equity: Seq<u64>) -> Seq<int> {
    Seq::new(
        if equity.len() == 0 {
            0
        } else {
            (equity.len() - 1) as nat
        },
        |i: int| spec_period_return_bps(equity[i] as int, equity[i + 1] as int),
    )
}

/// The running peak and the worst peak-to-trough decline (in basis
/// points, non-positive) over an equity curve.
pub open spec fn spec_dd_fold(equity: Seq<u64>) -> (int, int)
    decreases equity.len(),
{
    if equity.len() == 0 {
        (0, 0)
    } else {
        let (peak, dd) = spec_dd_fold(equity.drop_last());
        let p2 = if equity.last() > peak {
            equity.last() as int
        } else {
            peak
        };
        let d = if p2 <= 0 {
            0
        } else {
            -((p2 - equity.last()) * 10000 / p2)
        };
        (p2, if d < dd {
            d
        } else {
            dd
        })
    }
}

/// The worst peak-to-trough decline of an equity curve, in basis points;
/// zero or negative.
pub open spec fn spec_max_drawdown_bps(equity: Seq<u64>) -> int {
    spec_dd_fold(equity).1
}

/// The sum of a sequence of period returns.
pub open spec fn spec_sum_returns(rs: Seq<int>) -> int
    decreases rs.len(),
{
    if rs.len() == 0 {
        0
    } else {
        spec_sum_returns(rs.drop_last()) + rs.last()
    }
}

/// The sum of the squares of a sequence of period returns.
pub open spec fn spec_sum_squares(rs: Seq<int>) -> int
    decreases rs.len(),
{
    if rs.len() == 0 {
        0
    } else {
        spec_sum_squares(rs.drop_last()) + rs.last() * rs.last()
    }
}

/// The count of strictly negative period returns.
pub open spec fn spec_count_down(rs: Seq<int>) -> int
    decreases rs.len(),
{
    if rs.len() == 0 {
        0
    } else {
        spec_count_down(rs.drop_last()) + if rs.last() < 0 {
            1int
        } else {
            0
        }
    }
}

/// The sum of the squares of the strictly negative period returns.
pub open spec fn spec_sum_down_squares(rs: Seq<int>) -> int
    decreases rs.len(),
{
    if rs.len() == 0 {
        0
    } else {
        spec_sum_down_squares(rs.drop_last()) + if rs.last() < 0 {
            rs.last() * rs.last()
        } else {
            0
        }
    }
}

/// True when every period return is small enough, and the curve short
/// enough, for the ratio arithmetic to stay exact in 128 bits.
pub open spec fn spec_returns_in_range(rs: Seq<int>) -> bool {
    &&& rs.len() <= 1000000
    &&& forall|i: int| 0 <= i < rs.len() ==> -1000000000 <= #[trigger] rs[i] <= 1000000000
}

/// The annualized Sharpe ratio in thousandths, under the 252-trading-day
/// convention: `(252 * s1 - n * rf) / sqrt(252 * (n * s2 - s1 * s1))`
/// where `s1` and `s2` are the sum and sum of squares of the per-period
/// returns in basis points and `rf` the annual risk-free rate in basis
/// points. Zero when the curve is empty or the variance vanishes.
pub open spec fn spec_sharpe_milli(rs: Seq<int>, rf_bps: int) -> int {
    let n = rs.len() as int;
    if n == 0 {
        0
    } else {
        let s1 = spec_sum_returns(rs);
        let s2 = spec_sum_squares(rs);
        let var_scaled = 252 * (n * s2 - s1 * s1);
        if var_scaled <= 0 {
            0
        } else {
            let den = spec_isqrt(var_scaled);
            if den == 0 {
                0
            } else {
                let num = 252 * s1 - n * rf_bps;
                if num >= 0 {
                    num * 1000 / den
                } else {
                    -((-num) * 1000 / den)
                }
            }
        }
    }
}

/// The annualized Sortino ratio in thousandths: as the Sharpe ratio, but
/// the denominator uses only the downside deviation,
/// `sqrt(252 * sd2 * nd) / nd` with `sd2` the sum of squares of the
/// negative returns and `nd` their count. `None` stands for an infinite
/// ratio: no negative period at all.
pub open spec fn spec_sortino_milli(rs: Seq<int>, rf_bps: int) -> Option<int> {
    let n = rs.len() as int;
    if n == 0 {
        Some(0)
    } else {
        let nd = spec_count_down(rs);
        if nd == 0 {
            None
        } else {
            let s1 = spec_sum_returns(rs);
            let sd2 = spec_sum_down_squares(rs);
            let den = spec_isqrt(252 * sd2 * nd);
            if den == 0 {
                Some(0)
            } else {
                let num = nd * (252 * s1 - n * rf_bps);
                Some(
                    if num >= 0 {
                        num * 1000 / (n * den)
                    } else {
                        -((-num) * 1000 / (n * den))
                    },
                )
            }
        }
    }
}

/// The per-period returns of an equity curve, in basis points.
pub fn calculate_returns(equity_curve: &Vec<u64>) -> (r: Vec<i128>)
    ensures
        r@.len() == spec_returns(equity_curve@).len(),
        forall|i: int| 0 <= i < r@.len() ==> #[trigger] r@[i] == spec_returns(equity_curve@)[i],
{
    let n = equity_curve.len();
    let mut out: Vec<i128> = Vec::new();
    if n == 0 {
        return out;
    }
    let mut i: usize = 0;
    while i < n - 1
        invariant
            n == equity_curve@.len(),
            n >= 1,
            0 <= i <= n - 1,
            out@.len() == i,
            forall|j: int|
                0 <= j < i ==> #[trigger] out@[j] == spec_period_return_bps(
                    equity_curve@[j] as int,
                    equity_curve@[j + 1] as int,
                ),
        decreases n - 1 - i,
    {
        let a = equity_curve[i];
        let b = equity_curve[i + 1];
        let ret: i128 = if a == 0 {
            0
        } else if b >= a {
            proof {
                lemma_div_le_numerator(((b - a) as int) * 10000, a as int);
            }
            (((b - a) as u128 * 10000) / (a as u128)) as i128
        } else {
            proof {
                lemma_div_le_numerator(((a - b) as int) * 10000, a as int);
            }
            -((((a - b) as u128 * 10000) / (a as u128)) as i128)
        };
        out.push(ret);
        i += 1;
    }
    out
}

/// The worst peak-to-trough decline of an equity curve, in basis points
/// (zero or negative), tracked against the running peak.
pub fn calculate_max_drawdown(equity_curve: &Vec<u64>) -> (r: i128)
    ensures
        r == spec_max_drawdown_bps(equity_curve@),
        r <= 0,
{
    let n = equity_curve.len();
    let mut peak: u64 = 0;
    let mut max_dd: i128 = 0;
    let mut i: usize = 0;
    proof {
        assert(equity_curve@.take(0) =~= Seq::<u64>::empty());
    }
    while i < n
        invariant
            n == equity_curve@.len(),
            0 <= i <= n,
            (peak as int, max_dd as int) == spec_dd_fold(equity_curve@.take(i as int)),
            max_dd <= 0,
            -10000 <= max_dd,
        decreases n - i,
    {
        proof {
            assert(equity_curve@.take(i as int + 1).drop_last() =~= equity_curve@.take(i as int));
            assert(equity_curve@.take(i as int + 1).last() == equity_curve@[i as int]);
        }
        let e = equity_curve[i];
        if e > peak {
            peak = e;
        }
        let dd: i128 = if peak == 0 {
            0
        } else {
            proof {
                crate::math::lemma_ratio_bps_bounded((peak - e) as int, peak as int);
            }
            -((((peak - e) as u128 * 10000) / (peak as u128)) as i128)
        };
        if dd < max_dd {
            max_dd = dd;
        }
        i += 1;
    }
    proof {
        assert(equity_curve@.take(n as int) =~= equity_curve@);
    }
    max_dd
}

/// The sums a ratio needs: `(s1, s2, nd, sd2)` for a sequence of
/// in-range period returns.
fn return_sums(period_returns: &Vec<i128>) -> (r: (i128, i128, usize, i128))
    requires
        spec_returns_in_range(period_returns@.map_values(|x: i128| x as int)),
    ensures
        ({
            let rs = period_returns@.map_values(|x: i128| x as int);
            &&& r.0 == spec_sum_returns(rs)
            &&& r.1 == spec_sum_squares(rs)
            &&& r.2 == spec_count_down(rs)
            &&& r.3 == spec_sum_down_squares(rs)
        }),
        -(1000000 * 1000000000) <= r.0 <= 1000000 * 1000000000,
        0 <= r.1 <= 1000000 * 1000000000000000000,
        0 <= r.2 <= 1000000,
        0 <= r.3 <= 1000000 * 1000000000000000000,
{
    let ghost rs = period_returns@.map_values(|x: i128| x as int);
    let n = period_returns.len();
    let mut s1: i128 = 0;
    let mut s2: i128 = 0;
    let mut nd: usize = 0;
    let mut sd2: i128 = 0;
    let mut i: usize = 0;
    proof {
        assert(rs.take(0) =~= Seq::<int>::empty());
    }
    while i < n
        invariant
            rs == period_returns@.map_values(|x: i128| x as int),
            spec_returns_in_range(rs),
            n == rs.len(),
            0 <= i <= n,
            n <= 1000000,
            s1 == spec_sum_returns(rs.take(i as int)),
            s2 == spec_sum_squares(rs.take(i as int)),
            nd == spec_count_down(rs.take(i as int)),
            sd2 == spec_sum_down_squares(rs.take(i as int)),
            -((i as int) * 1000000000) <= s1 <= (i as int) * 1000000000,
            0 <= s2 <= (i as int) * 1000000000000000000,
            0 <= sd2 <= (i as int) * 1000000000000000000,
            nd <= i,
        decreases n - i,
    {
        proof {
            assert(rs.take(i as int + 1).drop_last() =~= rs.take(i as int));
            assert(rs.take(i as int + 1).last() == rs[i as int]);
            assert(rs[i as int] == period_returns@[i as int] as int);
            assert((i as int) * 1000000000 + 1000000000 == (i as int + 1) * 1000000000)
                by (nonlinear_arith);
            assert((i as int) * 1000000000000000000 + 1000000000000000000 == (i as int + 1)
                * 1000000000000000000) by (nonlinear_arith);
            assert((i as int + 1) * 1000000000 <= 1000000 * 1000000000) by (nonlinear_arith)
                requires
                    i + 1 <= 1000000,
            ;
            assert((i as int + 1) * 1000000000000000000 <= 1000000 * 1000000000000000000)
                by (nonlinear_arith)
                requires
                    i + 1 <= 1000000,
            ;
        }
        let x = period_returns[i];
        proof {
            assert(-1000000000 <= rs[i as int] <= 1000000000);
            assert(0 <= rs[i as int] * rs[i as int] <= 1000000000000000000) by (nonlinear_arith)
                requires
                    -1000000000 <= rs[i as int] <= 1000000000,
            ;
        }
        s1 = s1 + x;
        s2 = s2 + x * x;
        if x < 0 {
            nd = nd + 1;
            sd2 = sd2 + x * x;
        }
        i += 1;
    }
    proof {
        assert(rs.take(n as int) =~= rs);
        assert((n as int) * 1000000000 <= 1000000 * 1000000000) by (nonlinear_arith)
            requires
                0 <= n <= 1000000,
        ;
        assert((n as int) * 1000000000000000000 <= 1000000 * 1000000000000000000)
            by (nonlinear_arith)
            requires
                0 <= n <= 1000000,
        ;
    }
    (s1, s2, nd, sd2)
}

/// True exactly when every return is within the exact-arithmetic range
/// and the curve is short enough.
fn returns_in_range(period_returns: &Vec<i128>) -> (r: bool)
    ensures
        r == spec_returns_in_range(period_returns@.map_values(|x: i128| x as int)),
{
    let ghost rs = period_returns@.map_values(|x: i128| x as int);
    let n = period_returns.len();
    if n > 1000000 {
        return false;
    }
    let mut i: usize = 0;
    while i < n
        invariant
            rs == period_returns@.map_values(|x: i128| x as int),
            n == rs.len(),
            0 <= i <= n,
            n <= 1000000,
            forall|j: int| 0 <= j < i ==> -1000000000 <= #[trigger] rs[j] <= 1000000000,
        decreases n - i,
    {
        let x = period_returns[i];
        if x < -1000000000 || x > 1000000000 {
            proof {
                assert(rs[i as int] == period_returns@[i as int] as int);
            }
            return false;
        }
        i += 1;
    }
    true
}

/// The annualized Sharpe ratio in thousandths, for in-range period returns.
pub fn calculate_sharpe_ratio(period_returns: &Vec<i128>, risk_free_bps: u32) -> (r: i128)
    requires
        spec_returns_in_range(period_returns@.map_values(|x: i128| x as int)),
        risk_free_bps <= 10000,
    ensures
        r == spec_sharpe_milli(period_returns@.map_values(|x: i128| x as int), risk_free_bps as int),
{
    let ghost rs = period_returns@.map_values(|x: i128| x as int);
    let n = period_returns.len();
    if n == 0 {
        return 0;
    }
    let (s1, s2, _, _) = return_sums(period_returns);
    proof {
        assert(n * s2 <= 1000000 * (1000000 * 1000000000000000000)) by (nonlinear_arith)
            requires
                0 <= s2 <= 1000000 * 1000000000000000000,
                0 < n <= 1000000,
        ;
        assert(0 <= s1 * s1 <= (1000000 * 1000000000) * (1000000 * 1000000000))
            by (nonlinear_arith)
            requires
                -(1000000 * 1000000000) <= s1 <= 1000000 * 1000000000,
        ;
        assert(0 <= n * s2) by (nonlinear_arith)
            requires
                0 <= s2,
                0 <= n,
        ;
    }
    let var_core: i128 = (n as i128) * s2 - s1 * s1;
    if var_core <= 0 {
        return 0;
    }
    let var_scaled: i128 = 252 * var_core;
    let den: u64 = isqrt(var_scaled as u128);
    if den == 0 {
        return 0;
    }
    proof {
        assert(0 <= n * (risk_free_bps as int) <= 1000000 * 10000) by (nonlinear_arith)
            requires
                0 < n <= 1000000,
                0 <= risk_free_bps <= 10000,
        ;
    }
    let num: i128 = 252 * s1 - (n as i128) * (risk_free_bps as i128);
    if num >= 0 {
        proof {
            lemma_div_le_numerator((num as int) * 1000, den as int);
        }
        (((num as u128) * 1000) / (den as u128)) as i128
    } else {
        proof {
            lemma_div_le_numerator((-(num as int)) * 1000, den as int);
        }
        -((((-num) as u128 * 1000) / (den as u128)) as i128)
    }
}

/// The annualized Sortino ratio in thousandths, for in-range period returns;
/// `None` stands for an infinite ratio (no negative period).
pub fn calculate_sortino_ratio(period_returns: &Vec<i128>, risk_free_bps: u32) -> (r: Option<i128>)
    requires
        spec_returns_in_range(period_returns@.map_values(|x: i128| x as int)),
        risk_free_bps <= 10000,
    ensures
        ({
            let s = spec_sortino_milli(
                period_returns@.map_values(|x: i128| x as int),
                risk_free_bps as int,
            );
            match s {
                Some(v) => r matches Some(w) && w == v,
                None => r is None,
            }
        }),
{
    let ghost rs = period_returns@.map_values(|x: i128| x as int);
    let n = period_returns.len();
    if n == 0 {
        return Some(0);
    }
    let (s1, _, nd, sd2) = return_sums(period_returns);
    if nd == 0 {
        return None;
    }
    proof {
        assert(0 <= sd2 * nd <= (1000000 * 1000000000000000000) * 1000000) by (nonlinear_arith)
            requires
                0 <= sd2 <= 1000000 * 1000000000000000000,
                0 < nd <= 1000000,
        ;
    }
    let down_core: i128 = 252 * (sd2 * (nd as i128));
    proof {
        assert(252 * ((sd2 as int) * (nd as int)) == 252 * (sd2 as int) * (nd as int))
            by (nonlinear_arith);
    }
    let den: u64 = isqrt(down_core as u128);
    if den == 0 {
        return Some(0);
    }
    proof {
        assert(0 <= n * (risk_free_bps as int) <= 1000000 * 10000) by (nonlinear_arith)
            requires
                0 < n <= 1000000,
                0 <= risk_free_bps <= 10000,
        ;
        assert(-(1000000 * (252 * (1000000 * 1000000000) + 1000000 * 10000)) <= (nd as int) * (252
            * (s1 as int) - (n as int) * (risk_free_bps as int)) <= 1000000 * (252 * (1000000
            * 1000000000) + 1000000 * 10000)) by (nonlinear_arith)
            requires
                0 < nd <= 1000000,
                -(1000000 * 1000000000) <= s1 <= 1000000 * 1000000000,
                0 <= (n as int) * (risk_free_bps as int) <= 1000000 * 10000,
                0 < n <= 1000000,
        ;
    }
    let num: i128 = (nd as i128) * (252 * s1 - (n as i128) * (risk_free_bps as i128));
    proof {
        assert(0 < (n as int) * (den as int) <= 1000000 * (u64::MAX as int)) by (nonlinear_arith)
            requires
                0 < n <= 1000000,
                0 < den <= u64::MAX,
        ;
    }
    let divisor: u128 = (n as u128) * (den as u128);
    if num >= 0 {
        proof {
            lemma_div_le_numerator((num as int) * 1000, (n as int) * (den as int));
        }
        Some((((num as u128) * 1000) / divisor) as i128)
    } else {
        proof {
            lemma_div_le_numerator((-(num as int)) * 1000, (n as int) * (den as int));
        }
        Some(-((((-num) as u128 * 1000) / divisor) as i128))
    }
}

/// As [`calculate_sharpe_ratio`], but total: yields zero when the curve
/// is too long or a period return too extreme for exact arithmetic.
pub fn sharpe_ratio_checked(period_returns: &Vec<i128>, risk_free_bps: u32) -> (r: i128)
    requires
        risk_free_bps <= 10000,
    ensures
        spec_returns_in_range(period_returns@.map_values(|x: i128| x as int)) ==> r == spec_sharpe_milli(
            period_returns@.map_values(|x: i128| x as int),
            risk_free_bps as int,
        ),
        !spec_returns_in_range(period_returns@.map_values(|x: i128| x as int)) ==> r == 0,
{
    if returns_in_range(period_returns) {
        calculate_sharpe_ratio(period_returns, risk_free_bps)
    } else {
        0
    }
}

/// As [`calculate_sortino_ratio`], but total: yields zero when the curve
/// is out of the exact-arithmetic range.
pub fn sortino_ratio_checked(period_returns: &Vec<i128>, risk_free_bps: u32) -> (r: Option<i128>)
    requires
        risk_free_bps <= 10000,
    ensures
        spec_returns_in_range(period_returns@.map_values(|x: i128| x as int)) ==> ({
            let s = spec_sortino_milli(
                period_returns@.map_values(|x: i128| x as int),
                risk_free_bps as int,
            );
            match s {
                Some(v) => r matches Some(w) && w == v,
                None => r is None,
            }
        }),
        !spec_returns_in_range(period_returns@.map_values(|x: i128| x as int)) ==> r == Some(0i128),
{
    if returns_in_range(period_returns) {
        calculate_sortino_ratio(period_returns, risk_free_bps)
    } else {
        Some(0)
    }
}

/// The reward-to-assumed-risk ratio a closed trade reports, in
/// thousandths; zero for an open trade or a negligible notional.
pub open spec fn spec_rr_milli(t: BacktestTrade) -> int {
    match t.net_pnl_cents {
        None => 0,
        Some(pnl) => {
            let notional = t.entry_price.spec_cents() * (if t.quantity.spec_value() >= 0 {
                t.quantity.spec_value() as int
            } else {
                -(t.quantity.spec_value() as int)
            });
            let max_risk = notional / 100;
            if max_risk < 1 {
                0
            } else {
                crate::backtest::trade::spec_scaled_ratio(pnl as int, 1000, max_risk)
            }
        },
    }
}

/// True exactly when the trade is closed (it has an exit price).
pub open spec fn spec_is_closed(t: BacktestTrade) -> bool {
    t.exit_price is Some
}

/// True exactly when the closed trade counts as a winner.
pub open spec fn spec_is_winner(t: BacktestTrade) -> bool {
    spec_is_closed(t) && (t.net_pnl_cents matches Some(p) && p > 1)
}

/// True exactly when the closed trade counts as a loser.
pub open spec fn spec_is_loser(t: BacktestTrade) -> bool {
    spec_is_closed(t) && (t.net_pnl_cents matches Some(p) && p < -1)
}

/// How many trades of the ledger are closed.
pub open spec fn spec_n_closed(ts: Seq<BacktestTrade>) -> int
    decreases ts.len(),
{
    if ts.len() == 0 {
        0
    } else {
        spec_n_closed(ts.drop_last()) + if spec_is_closed(ts.last()) {
            1int
        } else {
            0
        }
    }
}

/// How many closed trades won.
pub open spec fn spec_n_winners(ts: Seq<BacktestTrade>) -> int
    decreases ts.len(),
{
    if ts.len() == 0 {
        0
    } else {
        spec_n_winners(ts.drop_last()) + if spec_is_winner(ts.last()) {
            1int
        } else {
            0
        }
    }
}

/// How many closed trades lost.
pub open spec fn spec_n_losers(ts: Seq<BacktestTrade>) -> int
    decreases ts.len(),
{
    if ts.len() == 0 {
        0
    } else {
        spec_n_losers(ts.drop_last()) + if spec_is_loser(ts.last()) {
            1int
        } else {
            0
        }
    }
}

/// The combined net result of the winning trades, in cents.
pub open spec fn spec_gross_wins(ts: Seq<BacktestTrade>) -> int
    decreases ts.len(),
{
    if ts.len() == 0 {
        0
    } else {
        spec_gross_wins(ts.drop_last()) + if spec_is_winner(ts.last()) {
            ts.last().net_pnl_cents->Some_0 as int
        } else {
            0
        }
    }
}

/// The combined magnitude of the losing trades' net results, in cents.
pub open spec fn spec_gross_loss_mag(ts: Seq<BacktestTrade>) -> int
    decreases ts.len(),
{
    if ts.len() == 0 {
        0
    } else {
        spec_gross_loss_mag(ts.drop_last()) + if spec_is_loser(ts.last()) {
            -(ts.last().net_pnl_cents->Some_0 as int)
        } else {
            0
        }
    }
}

/// The combined net result of every closed trade with a recorded result.
pub open spec fn spec_total_net(ts: Seq<BacktestTrade>) -> int
    decreases ts.len(),
{
    if ts.len() == 0 {
        0
    } else {
        spec_total_net(ts.drop_last()) + if spec_is_closed(ts.last())
            && ts.last().net_pnl_cents is Some {
            ts.last().net_pnl_cents->Some_0 as int
        } else {
            0
        }
    }
}

/// The largest winning net result, zero with no winner.
pub open spec fn spec_largest_win(ts: Seq<BacktestTrade>) -> int
    decreases ts.len(),
{
    if ts.len() == 0 {
        0
    } else {
        let rest = spec_largest_win(ts.drop_last());
        if spec_is_winner(ts.last()) && ts.last().net_pnl_cents->Some_0 > rest {
            ts.last().net_pnl_cents->Some_0 as int
        } else {
            rest
        }
    }
}

/// The most negative losing net result, zero with no loser.
pub open spec fn spec_largest_loss(ts: Seq<BacktestTrade>) -> int
    decreases ts.len(),
{
    if ts.len() == 0 {
        0
    } else {
        let rest = spec_largest_loss(ts.drop_last());
        if spec_is_loser(ts.last()) && ts.last().net_pnl_cents->Some_0 < rest {
            ts.last().net_pnl_cents->Some_0 as int
        } else {
            rest
        }
    }
}

/// The reward-to-risk sum over closed trades with a recorded result,
/// accumulated with saturating steps.
pub open spec fn spec_rr_sum(ts: Seq<BacktestTrade>) -> int
    decreases ts.len(),
{
    if ts.len() == 0 {
        0
    } else {
        let prev = spec_rr_sum(ts.drop_last());
        if spec_is_closed(ts.last()) && ts.last().net_pnl_cents is Some {
            crate::math::sat_add_i128(prev, spec_rr_milli(ts.last()))
        } else {
            prev
        }
    }
}

/// The combined hold time of the closed trades, in seconds.
pub open spec fn spec_hold_sum(ts: Seq<BacktestTrade>) -> int
    decreases ts.len(),
{
    if ts.len() == 0 {
        0
    } else {
        spec_hold_sum(ts.drop_last()) + if spec_is_closed(ts.last()) {
            match ts.last().exit_time {
                Some(exit) => if exit >= ts.last().entry_time {
                    exit - ts.last().entry_time
                } else {
                    0int
                },
                None => 0int,
            }
        } else {
            0int
        }
    }
}

/// The streak fold: current and longest winning and losing streaks over
/// the closed trades in ledger order; breakevens break neither streak.
pub open spec fn spec_streaks(ts: Seq<BacktestTrade>) -> (int, int, int, int)
    decreases ts.len(),
{
    if ts.len() == 0 {
        (0, 0, 0, 0)
    } else {
        let (cw, mw, cl, ml) = spec_streaks(ts.drop_last());
        if spec_is_winner(ts.last()) {
            let cw2 = cw + 1;
            (cw2, if cw2 > mw { cw2 } else { mw }, 0, ml)
        } else if spec_is_loser(ts.last()) {
            let cl2 = cl + 1;
            (0, mw, cl2, if cl2 > ml { cl2 } else { ml })
        } else {
            (cw, mw, cl, ml)
        }
    }
}

/// True when the ledger is small enough, and each result moderate enough,
/// for the statistics arithmetic to stay exact in 128 bits.
pub open spec fn spec_trades_in_range(ts: Seq<BacktestTrade>) -> bool {
    &&& ts.len() <= 10000
    &&& forall|i: int|
        0 <= i < ts.len() ==> match (#[trigger] ts[i]).net_pnl_cents {
            Some(p) => -100000000000000000000000000000000 <= p <= 100000000000000000000000000000000,
            None => true,
        }
}

/// Statistics over the closed trades of a ledger.
#[derive(Debug, Clone, Copy, PartialEq, Eq, Structural)]
pub struct TradeStatistics {
    /// Closed trades.
    pub total_trades: usize,
    /// Closed trades with a net result above one cent.
    pub winning_trades: usize,
    /// Closed trades with a net result below minus one cent.
    pub losing_trades: usize,
    /// Winners as basis points of the closed trades; zero with none.
    pub win_rate_bps: u32,
    /// Mean winning net result in cents; zero with no winner.
    pub avg_win_cents: i128,
    /// Mean losing net result in cents (non-positive); zero with no loser.
    pub avg_loss_cents: i128,
    /// Largest winning net result in cents.
    pub largest_win_cents: i128,
    /// Most negative losing net result in cents.
    pub largest_loss_cents: i128,
    /// Gross wins over gross losses in hundredths; `None` stands for an
    /// infinite factor (no meaningful losses).
    pub profit_factor_centi: Option<u128>,
    /// Mean net result per closed trade, in cents.
    pub expectancy_cents: i128,
    /// Mean reward-to-assumed-risk ratio in thousandths.
    pub avg_risk_reward_milli: i128,
    /// Mean hold time of a closed trade, in seconds.
    pub avg_hold_time_secs: u64,
    /// Longest run of consecutive winners.
    pub max_consecutive_wins: usize,
    /// Longest run of consecutive losses.
    pub max_consecutive_losses: usize,
}

impl TradeStatistics {
    /// The all-zero statistics of an empty ledger.
    pub fn empty() -> (r: TradeStatistics)
        ensures
            r == (TradeStatistics {
                total_trades: 0,
                winning_trades: 0,
                losing_trades: 0,
                win_rate_bps: 0,
                avg_win_cents: 0,
                avg_loss_cents: 0,
                largest_win_cents: 0,
                largest_loss_cents: 0,
                profit_factor_centi: Some(0u128),
                expectancy_cents: 0,
                avg_risk_reward_milli: 0,
                avg_hold_time_secs: 0,
                max_consecutive_wins: 0,
                max_consecutive_losses: 0,
            }),
    {
        TradeStatistics {
            total_trades: 0,
            winning_trades: 0,
            losing_trades: 0,
            win_rate_bps: 0,
            avg_win_cents: 0,
            avg_loss_cents: 0,
            largest_win_cents: 0,
            largest_loss_cents: 0,
            profit_factor_centi: Some(0),
            expectancy_cents: 0,
            avg_risk_reward_milli: 0,
            avg_hold_time_secs: 0,
            max_consecutive_wins: 0,
            max_consecutive_losses: 0,
        }
    }
}

impl TradeStatistics {
    /// Statistics over the closed trades of `trades`, computed in one
    /// scan. The win rate counts winners against all closed trades; the
    /// profit factor is infinite (`None`) when the gross losses are at
    /// most one cent.
    pub fn calculate(trades: &Vec<BacktestTrade>) -> (r: TradeStatistics)
        requires
            spec_trades_in_range(trades@),
        ensures
            r.total_trades == spec_n_closed(trades@),
            r.winning_trades == spec_n_winners(trades@),
            r.losing_trades == spec_n_losers(trades@),
            r.win_rate_bps == (if spec_n_closed(trades@) == 0 {
                0int
            } else {
                spec_n_winners(trades@) * 10000 / spec_n_closed(trades@)
            }),
            r.avg_win_cents == (if spec_n_winners(trades@) == 0 {
                0int
            } else {
                spec_gross_wins(trades@) / spec_n_winners(trades@)
            }),
            r.avg_loss_cents == (if spec_n_losers(trades@) == 0 {
                0int
            } else {
                -(spec_gross_loss_mag(trades@) / spec_n_losers(trades@))
            }),
            r.largest_win_cents == spec_largest_win(trades@),
            r.largest_loss_cents == spec_largest_loss(trades@),
            r.profit_factor_centi == (if spec_gross_loss_mag(trades@) > 1 {
                Some((spec_gross_wins(trades@) * 100 / spec_gross_loss_mag(trades@)) as u128)
            } else {
                Option::<u128>::None
            }),
            r.expectancy_cents == (if spec_n_closed(trades@) == 0 {
                0int
            } else if spec_total_net(trades@) >= 0 {
                spec_total_net(trades@) / spec_n_closed(trades@)
            } else {
                -((-spec_total_net(trades@)) / spec_n_closed(trades@))
            }),
            r.avg_risk_reward_milli == (if spec_n_closed(trades@) == 0 {
                0int
            } else if spec_rr_sum(trades@) >= 0 {
                spec_rr_sum(trades@) / spec_n_closed(trades@)
            } else {
                -((-spec_rr_sum(trades@)) / spec_n_closed(trades@))
            }),
            r.avg_hold_time_secs == (if spec_n_closed(trades@) == 0 {
                0int
            } else {
                spec_hold_sum(trades@) / spec_n_closed(trades@)
            }),
            r.max_consecutive_wins == spec_streaks(trades@).1,
            r.max_consecutive_losses == spec_streaks(trades@).3,
    {
        let ghost ts = trades@;
        let n = trades.len();
        let mut n_closed: usize = 0;
        let mut n_win: usize = 0;
        let mut n_lose: usize = 0;
        let mut gross_wins: i128 = 0;
        let mut gross_loss_mag: i128 = 0;
        let mut total_net: i128 = 0;
        let mut largest_win: i128 = 0;
        let mut largest_loss: i128 = 0;
        let mut rr_sum: i128 = 0;
        let mut hold_sum: u128 = 0;
        let mut cur_w: usize = 0;
        let mut max_w: usize = 0;
        let mut cur_l: usize = 0;
        let mut max_l: usize = 0;
        let mut i: usize = 0;
        proof {
            assert(ts.take(0) =~= Seq::<BacktestTrade>::empty());
        }
        while i < n
            invariant
                ts == trades@,
                spec_trades_in_range(ts),
                n == ts.len(),
                0 <= i <= n,
                n <= 10000,
                n_closed == spec_n_closed(ts.take(i as int)),
                n_win == spec_n_winners(ts.take(i as int)),
                n_lose == spec_n_losers(ts.take(i as int)),
                n_closed <= i,
                n_win <= n_closed,
                n_lose <= n_closed,
                gross_wins == spec_gross_wins(ts.take(i as int)),
                gross_loss_mag == spec_gross_loss_mag(ts.take(i as int)),
                total_net == spec_total_net(ts.take(i as int)),
                0 <= gross_wins <= (i as int) * 100000000000000000000000000000000,
                0 <= gross_loss_mag <= (i as int) * 100000000000000000000000000000000,
                -((i as int) * 100000000000000000000000000000000) <= total_net <= (i as int)
                    * 100000000000000000000000000000000,
                largest_win == spec_largest_win(ts.take(i as int)),
                largest_loss == spec_largest_loss(ts.take(i as int)),
                rr_sum == spec_rr_sum(ts.take(i as int)),
                hold_sum == spec_hold_sum(ts.take(i as int)),
                hold_sum <= (n_closed as int) * (u64::MAX as int),
                (cur_w as int, max_w as int, cur_l as int, max_l as int) == spec_streaks(
                    ts.take(i as int),
                ),
                cur_w <= i && max_w <= i && cur_l <= i && max_l <= i,
            decreases n - i,
        {
            proof {
                assert(ts.take(i as int + 1).drop_last() =~= ts.take(i as int));
                assert(ts.take(i as int + 1).last() == ts[i as int]);
                assert((i as int) * 100000000000000000000000000000000
                    + 100000000000000000000000000000000 == (i as int + 1)
                    * 100000000000000000000000000000000) by (nonlinear_arith);
                assert((i as int + 1) * 100000000000000000000000000000000 <= 10000
                    * 100000000000000000000000000000000) by (nonlinear_arith)
                    requires
                        i + 1 <= 10000,
                ;
                assert((n_closed as int) * (u64::MAX as int) + (u64::MAX as int) == (n_closed
                    as int + 1) * (u64::MAX as int)) by (nonlinear_arith);
            }
            let t = &trades[i];
            let closed = !t.is_open();
            if closed {
                n_closed = n_closed + 1;
                match t.net_pnl_cents {
                    Some(pnl) => {
                        total_net = total_net + pnl;
                        if pnl > 1 {
                            n_win = n_win + 1;
                            gross_wins = gross_wins + pnl;
                            if pnl > largest_win {
                                largest_win = pnl;
                            }
                            cur_w = cur_w + 1;
                            if cur_w > max_w {
                                max_w = cur_w;
                            }
                            cur_l = 0;
                        } else if pnl < -1 {
                            n_lose = n_lose + 1;
                            gross_loss_mag = gross_loss_mag + (-pnl);
                            if pnl < largest_loss {
                                largest_loss = pnl;
                            }
                            cur_l = cur_l + 1;
                            if cur_l > max_l {
                                max_l = cur_l;
                            }
                            cur_w = 0;
                        }
                        let rr = rr_value(t);
                        if rr >= 0 {
                            if rr_sum > i128::MAX - rr {
                                rr_sum = i128::MAX;
                            } else {
                                rr_sum = rr_sum + rr;
                            }
                        } else {
                            if rr_sum < i128::MIN - rr {
                                rr_sum = i128::MIN;
                            } else {
                                rr_sum = rr_sum + rr;
                            }
                        }
                    },
                    None => {},
                }
                match t.exit_time {
                    Some(exit) => {
                        let held: u64 = if exit >= t.entry_time {
                            exit - t.entry_time
                        } else {
                            0
                        };
                        hold_sum = hold_sum + held as u128;
                    },
                    None => {},
                }
            }
            i += 1;
        }
        proof {
            assert(ts.take(n as int) =~= ts);
        }
        let win_rate_bps: u32 = if n_closed == 0 {
            0
        } else {
            proof {
                crate::math::lemma_ratio_bps_bounded(n_win as int, n_closed as int);
            }
            ((n_win as u128 * 10000) / (n_closed as u128)) as u32
        };
        let avg_win_cents: i128 = if n_win == 0 {
            0
        } else {
            proof {
                lemma_div_le_numerator(gross_wins as int, n_win as int);
            }
            gross_wins / (n_win as i128)
        };
        let avg_loss_cents: i128 = if n_lose == 0 {
            0
        } else {
            proof {
                lemma_div_le_numerator(gross_loss_mag as int, n_lose as int);
            }
            -(gross_loss_mag / (n_lose as i128))
        };
        let profit_factor_centi: Option<u128> = if gross_loss_mag > 1 {
            proof {
                assert(gross_wins * 100 <= (10000 * 100000000000000000000000000000000) * 100)
                    by (nonlinear_arith)
                    requires
                        0 <= gross_wins <= 10000 * 100000000000000000000000000000000,
                ;
                lemma_div_le_numerator((gross_wins as int) * 100, gross_loss_mag as int);
            }
            Some((gross_wins as u128 * 100) / (gross_loss_mag as u128))
        } else {
            None
        };
        let expectancy_cents: i128 = if n_closed == 0 {
            0
        } else if total_net >= 0 {
            proof {
                lemma_div_le_numerator(total_net as int, n_closed as int);
            }
            ((total_net as u128) / (n_closed as u128)) as i128
        } else {
            proof {
                lemma_div_le_numerator(-(total_net as int), n_closed as int);
            }
            -((((-total_net) as u128) / (n_closed as u128)) as i128)
        };
        let avg_risk_reward_milli: i128 = if n_closed == 0 {
            0
        } else if rr_sum >= 0 {
            proof {
                lemma_div_le_numerator(rr_sum as int, n_closed as int);
            }
            ((rr_sum as u128) / (n_closed as u128)) as i128
        } else {
            let mag: u128 = if rr_sum == i128::MIN {
                0x80000000000000000000000000000000u128
            } else {
                (-rr_sum) as u128
            };
            proof {
                lemma_div_le_numerator(mag as int, n_closed as int);
            }
            let q: u128 = mag / (n_closed as u128);
            if q == 0x80000000000000000000000000000000u128 {
                i128::MIN
            } else {
                -(q as i128)
            }
        };
        let avg_hold_time_secs: u64 = if n_closed == 0 {
            0
        } else {
            proof {
                lemma_div_le_numerator(hold_sum as int, n_closed as int);
                assert((hold_sum as int) / (n_closed as int) <= u64::MAX) by (nonlinear_arith)
                    requires
                        0 <= hold_sum,
                        hold_sum <= (n_closed as int) * (u64::MAX as int),
                        n_closed >= 1,
                ;
            }
            (hold_sum / (n_closed as u128)) as u64
        };
        TradeStatistics {
            total_trades: n_closed,
            winning_trades: n_win,
            losing_trades: n_lose,
            win_rate_bps,
            avg_win_cents,
            avg_loss_cents,
            largest_win_cents: largest_win,
            largest_loss_cents: largest_loss,
            profit_factor_centi,
            expectancy_cents,
            avg_risk_reward_milli,
            avg_hold_time_secs,
            max_consecutive_wins: max_w,
            max_consecutive_losses: max_l,
        }
    }

    /// As [`TradeStatistics::calculate`], but total: ledgers outside the
    /// exact-arithmetic range give the empty statistics.
    pub fn calculate_checked(trades: &Vec<BacktestTrade>) -> (r: TradeStatistics)
        ensures
            spec_trades_in_range(trades@) ==> ({
                let e = trades@;
                &&& r.total_trades == spec_n_closed(e)
                &&& r.winning_trades == spec_n_winners(e)
                &&& r.losing_trades == spec_n_losers(e)
                &&& r.win_rate_bps == (if spec_n_closed(e) == 0 {
                    0int
                } else {
                    spec_n_winners(e) * 10000 / spec_n_closed(e)
                })
                &&& r.avg_win_cents == (if spec_n_winners(e) == 0 {
                    0int
                } else {
                    spec_gross_wins(e) / spec_n_winners(e)
                })
                &&& r.avg_loss_cents == (if spec_n_losers(e) == 0 {
                    0int
                } else {
                    -(spec_gross_loss_mag(e) / spec_n_losers(e))
                })
                &&& r.largest_win_cents == spec_largest_win(e)
                &&& r.largest_loss_cents == spec_largest_loss(e)
                &&& r.profit_factor_centi == (if spec_gross_loss_mag(e) > 1 {
                    Some((spec_gross_wins(e) * 100 / spec_gross_loss_mag(e)) as u128)
                } else {
                    Option::<u128>::None
                })
                &&& r.expectancy_cents == (if spec_n_closed(e) == 0 {
                    0int
                } else if spec_total_net(e) >= 0 {
                    spec_total_net(e) / spec_n_closed(e)
                } else {
                    -((-spec_total_net(e)) / spec_n_closed(e))
                })
                &&& r.avg_risk_reward_milli == (if spec_n_closed(e) == 0 {
                    0int
                } else if spec_rr_sum(e) >= 0 {
                    spec_rr_sum(e) / spec_n_closed(e)
                } else {
                    -((-spec_rr_sum(e)) / spec_n_closed(e))
                })
                &&& r.avg_hold_time_secs == (if spec_n_closed(e) == 0 {
                    0int
                } else {
                    spec_hold_sum(e) / spec_n_closed(e)
                })
                &&& r.max_consecutive_wins == spec_streaks(e).1
                &&& r.max_consecutive_losses == spec_streaks(e).3
            }),
            !spec_trades_in_range(trades@) ==> r == (TradeStatistics {
                total_trades: 0,
                winning_trades: 0,
                losing_trades: 0,
                win_rate_bps: 0,
                avg_win_cents: 0,
                avg_loss_cents: 0,
                largest_win_cents: 0,
                largest_loss_cents: 0,
                profit_factor_centi: Some(0u128),
                expectancy_cents: 0,
                avg_risk_reward_milli: 0,
                avg_hold_time_secs: 0,
                max_consecutive_wins: 0,
                max_consecutive_losses: 0,
            }),
    {
        if trades_in_range(trades) {
            TradeStatistics::calculate(trades)
        } else {
            TradeStatistics::empty()
        }
    }
}

/// The reward-to-assumed-risk ratio of one trade, in thousandths.
fn rr_value(t: &BacktestTrade) -> (r: i128)
    requires
        spec_pnl_bounded(*t),
    ensures
        r == spec_rr_milli(*t),
{
    match t.risk_reward_ratio_milli() {
        Some(v) => v,
        None => 0,
    }
}

/// True exactly when the ledger is within the exact-arithmetic range.
fn trades_in_range(trades: &Vec<BacktestTrade>) -> (r: bool)
    ensures
        r == spec_trades_in_range(trades@),
{
    let n = trades.len();
    if n > 10000 {
        return false;
    }
    let mut i: usize = 0;
    while i < n
        invariant
            n == trades@.len(),
            0 <= i <= n,
            n <= 10000,
            forall|j: int|
                0 <= j < i ==> match (#[trigger] trades@[j]).net_pnl_cents {
                    Some(p) => -100000000000000000000000000000000 <= p
                        <= 100000000000000000000000000000000,
                    None => true,
                },
        decreases n - i,
    {
        match trades[i].net_pnl_cents {
            Some(p) => {
                if p < -100000000000000000000000000000000i128
                    || p > 100000000000000000000000000000000i128 {
                    return false;
                }
            },
            None => {},
        }
        i += 1;
    }
    true
}

/// Risk-adjusted performance over an equity curve and a ledger, computed
/// with exact integer arithmetic. Geometric annualization (and with it
/// the Calmar ratio) needs fractional powers and is left to callers that
/// can afford approximate arithmetic.
#[derive(Debug, Clone, Copy, PartialEq, Eq, Structural)]
pub struct PerformanceMetrics {
    /// Total return over the whole curve, in basis points.
    pub total_return_bps: i128,
    /// Annualized Sharpe ratio in thousandths (252 trading days, 2%
    /// risk-free).
    pub sharpe_milli: i128,
    /// Annualized Sortino ratio in thousandths; `None` stands for an
    /// infinite ratio (no losing period).
    pub sortino_milli: Option<i128>,
    /// Worst peak-to-trough decline in basis points (zero or negative).
    pub max_drawdown_bps: i128,
    /// Number of time steps replayed.
    pub trading_days: usize,
    /// Statistics over the closed trades.
    pub trade_stats: TradeStatistics,
}

impl PerformanceMetrics {
    /// The metrics of a finished replay: total return against the initial
    /// capital, the risk-adjusted ratios over the per-period returns, the
    /// worst drawdown, and the ledger statistics. Curves or ledgers
    /// outside the exact-arithmetic range give zeroed ratios.
    pub fn calculate(
        equity_curve: &Vec<u64>,
        trades: &Vec<BacktestTrade>,
        initial_capital_cents: u64,
        days: usize,
    ) -> (r: PerformanceMetrics)
        ensures
            r.total_return_bps == spec_period_return_bps(
                initial_capital_cents as int,
                (if equity_curve@.len() == 0 {
                    initial_capital_cents as int
                } else {
                    equity_curve@.last() as int
                }),
            ),
            spec_returns_in_range(spec_returns(equity_curve@)) ==> r.sharpe_milli
                == spec_sharpe_milli(spec_returns(equity_curve@), 200),
            spec_returns_in_range(spec_returns(equity_curve@)) ==> match spec_sortino_milli(
                spec_returns(equity_curve@),
                200,
            ) {
                Some(v) => r.sortino_milli matches Some(w) && w == v,
                None => r.sortino_milli is None,
            },
            r.max_drawdown_bps == spec_max_drawdown_bps(equity_curve@),
            r.trading_days == days,
            spec_trades_in_range(trades@) ==> {
                let e = trades@;
                &&& r.trade_stats.total_trades == spec_n_closed(e)
                &&& r.trade_stats.winning_trades == spec_n_winners(e)
                &&& r.trade_stats.losing_trades == spec_n_losers(e)
                &&& r.trade_stats.win_rate_bps == (if spec_n_closed(e) == 0 {
                    0int
                } else {
                    spec_n_winners(e) * 10000 / spec_n_closed(e)
                })
                &&& r.trade_stats.avg_win_cents == (if spec_n_winners(e) == 0 {
                    0int
                } else {
                    spec_gross_wins(e) / spec_n_winners(e)
                })
                &&& r.trade_stats.avg_loss_cents == (if spec_n_losers(e) == 0 {
                    0int
                } else {
                    -(spec_gross_loss_mag(e) / spec_n_losers(e))
                })
                &&& r.trade_stats.largest_win_cents == spec_largest_win(e)
                &&& r.trade_stats.largest_loss_cents == spec_largest_loss(e)
                &&& r.trade_stats.profit_factor_centi == (if spec_gross_loss_mag(e) > 1 {
                    Some((spec_gross_wins(e) * 100 / spec_gross_loss_mag(e)) as u128)
                } else {
                    Option::<u128>::None
                })
                &&& r.trade_stats.expectancy_cents == (if spec_n_closed(e) == 0 {
                    0int
                } else if spec_total_net(e) >= 0 {
                    spec_total_net(e) / spec_n_closed(e)
                } else {
                    -((-spec_total_net(e)) / spec_n_closed(e))
                })
                &&& r.trade_stats.avg_risk_reward_milli == (if spec_n_closed(e) == 0 {
                    0int
                } else if spec_rr_sum(e) >= 0 {
                    spec_rr_sum(e) / spec_n_closed(e)
                } else {
                    -((-spec_rr_sum(e)) / spec_n_closed(e))
                })
                &&& r.trade_stats.avg_hold_time_secs == (if spec_n_closed(e) == 0 {
                    0int
                } else {
                    spec_hold_sum(e) / spec_n_closed(e)
                })
                &&& r.trade_stats.max_consecutive_wins == spec_streaks(e).1
                &&& r.trade_stats.max_consecutive_losses == spec_streaks(e).3
            },
    {
        let n = equity_curve.len();
        let final_equity: u64 = if n == 0 {
            initial_capital_cents
        } else {
            equity_curve[n - 1]
        };
        let total_return_bps: i128 = if initial_capital_cents == 0 {
            0
        } else if final_equity >= initial_capital_cents {
            proof {
                lemma_div_le_numerator(
                    ((final_equity - initial_capital_cents) as int) * 10000,
                    initial_capital_cents as int,
                );
            }
            (((final_equity - initial_capital_cents) as u128 * 10000)
                / (initial_capital_cents as u128)) as i128
        } else {
            proof {
                lemma_div_le_numerator(
                    ((initial_capital_cents - final_equity) as int) * 10000,
                    initial_capital_cents as int,
                );
            }
            -((((initial_capital_cents - final_equity) as u128 * 10000)
                / (initial_capital_cents as u128)) as i128)
        };
        let period = calculate_returns(equity_curve);
        proof {
            assert(period@.map_values(|x: i128| x as int) =~= spec_returns(equity_curve@));
        }
        let sharpe_milli = sharpe_ratio_checked(&period, 200);
        let sortino_milli = sortino_ratio_checked(&period, 200);
        let max_drawdown_bps = calculate_max_drawdown(equity_curve);
        let trade_stats = TradeStatistics::calculate_checked(trades);
        PerformanceMetrics {
            total_return_bps,
            sharpe_milli,
            sortino_milli,
            max_drawdown_bps,
            trading_days: days,
            trade_stats,
        }
    }

    /// A basic quality heuristic: Sharpe above one, drawdown above minus
    /// twenty percent, win rate above forty percent, profit factor above
    /// one and a half (an infinite factor passes).
    pub fn is_good_strategy(&self) -> (r: bool)
        ensures
            r == (self.sharpe_milli > 1000 && self.max_drawdown_bps > -2000
                && self.trade_stats.win_rate_bps > 4000 && (match self
                .trade_stats
                .profit_factor_centi {
                Some(pf) => pf > 150,
                None => true,
            })),
    {
        let pf_ok = match self.trade_stats.profit_factor_centi {
            Some(pf) => pf > 150,
            None => true,
        };
        self.sharpe_milli > 1000 && self.max_drawdown_bps > -2000
            && self.trade_stats.win_rate_bps > 4000 && pf_ok
    }

    /// A letter grade from the Sharpe ratio and the profit factor; an
    /// infinite profit factor counts above every threshold.
    pub fn grade(&self) -> (r: &'static str)
        ensures
            ({
                let pf_above = |threshold: int|
                    match self.trade_stats.profit_factor_centi {
                        Some(pf) => pf > threshold,
                        None => true,
                    };
                if self.sharpe_milli > 3000 && pf_above(300) {
                    r@ == "A+"@
                } else if self.sharpe_milli > 2000 && pf_above(250) {
                    r@ == "A"@
                } else if self.sharpe_milli > 1500 && pf_above(200) {
                    r@ == "B"@
                } else if self.sharpe_milli > 1000 && pf_above(150) {
                    r@ == "C"@
                } else if self.sharpe_milli > 500 {
                    r@ == "D"@
                } else {
                    r@ == "F"@
                }
            }),
    {
        let pf: Option<u128> = self.trade_stats.profit_factor_centi;
        let pf300 = match pf { Some(v) => v > 300, None => true };
        let pf250 = match pf { Some(v) => v > 250, None => true };
        let pf200 = match pf { Some(v) => v > 200, None => true };
        let pf150 = match pf { Some(v) => v > 150, None => true };
        if self.sharpe_milli > 3000 && pf300 {
            "A+"
        } else if self.sharpe_milli > 2000 && pf250 {
            "A"
        } else if self.sharpe_milli > 1500 && pf200 {
            "B"
        } else if self.sharpe_milli > 1000 && pf150 {
            "C"
        } else if self.sharpe_milli > 500 {
            "D"
        } else {
            "F"
        }
    }
}

} // verus!
