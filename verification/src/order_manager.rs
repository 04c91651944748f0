//! The order and position manager: turns approved signals into paper
//! trades, owns the cash balance, the open-position map and the
//! closed-trade ledger, and monitors exit conditions.
//!
//! Invariants: at most one open position per symbol, and the cash balance
//! can never go negative — a trade only executes after the risk manager
//! has confirmed the cash covers it.

use vstd::prelude::*;

use crate::risk_manager::{RiskCheckResult, RiskManager, RiskManagerConfig, RiskStats, RiskViolation};
use crate::types::market_data::MarketSnapshot;
use crate::types::price::{Price, Quantity, MAX_SHARES};
use crate::types::signal::{Signal, SignalAction};
use crate::types::Symbol;

verus! {

/// Where an order stands in its lifecycle.
#[derive(Debug, Clone, Copy, PartialEq, Eq, Structural)]
pub enum OrderStatus {
    /// Created but not filled.
    Pending,
    /// Executed.
    Filled,
    /// Cancelled before a fill.
    Cancelled,
    /// Rejected by the risk checks.
    Rejected,
}

/// Which side of the market an order takes.
#[derive(Debug, Clone, Copy, PartialEq, Eq, Structural)]
pub enum OrderSide {
    Buy,
    Sell,
}

/// How an order executes.
#[derive(Debug, Clone, Copy, PartialEq, Eq, Structural)]
pub enum OrderType {
    /// Execute at the market price.
    Market,
    /// Execute at a specific price or better.
    Limit,
    /// Trigger when the price reaches the stop.
    StopLoss,
    /// Trigger when the price reaches the target.
    TakeProfit,
}

/// Why a position was closed.
#[derive(Debug, Clone, Copy, PartialEq, Eq, Structural)]
pub enum CloseReason {
    StopLoss,
    TakeProfit,
    Manual,
    Timeout,
}

/// Why a signal could not be executed. Per-signal failures; they must not
/// abort the cycle for other signals.
#[derive(Debug, Clone, Copy, PartialEq, Eq, Structural)]
pub enum ExecutionError {
    /// A position for the symbol is already open.
    AlreadyHavePosition,
    /// Sizing requires a stop-loss and the signal carries none.
    MissingStopLoss,
    /// The stop-loss sits on the entry price, so no size fits the risk.
    StopLossTooClose,
    /// The risk budget buys less than one share.
    PositionTooSmall,
    /// Only buy and sell signals can be executed.
    InvalidAction,
    /// The risk manager rejected the trade.
    RiskRejected(RiskViolation),
}

/// A trading order.
#[derive(Debug)]
pub struct Order {
    /// A freshly drawn identifier.
    pub id: String,
    pub symbol: Symbol,
    pub side: OrderSide,
    pub order_type: OrderType,
    pub quantity: Quantity,
    /// The limit price, for limit orders.
    pub price: Option<Price>,
    pub status: OrderStatus,
    /// Seconds since the Unix epoch.
    pub created_at: u64,
    /// Fill time in seconds since the Unix epoch, once filled.
    pub filled_at: Option<u64>,
    pub filled_price: Option<Price>,
}

impl Order {
    /// A fresh market order.
    pub fn market(symbol: Symbol, side: OrderSide, quantity: Quantity) -> (r: Order)
        ensures
            r.symbol@ == symbol@,
            r.side == side,
            r.order_type == OrderType::Market,
            r.quantity == quantity,
            r.price is None,
            r.status == OrderStatus::Pending,
            r.filled_at is None,
            r.filled_price is None,
    {
        Order {
            id: fresh_order_id(),
            symbol,
            side,
            order_type: OrderType::Market,
            quantity,
            price: None,
            status: OrderStatus::Pending,
            created_at: now_utc_secs(),
            filled_at: None,
            filled_price: None,
        }
    }

    /// A fresh limit order.
    pub fn limit(symbol: Symbol, side: OrderSide, quantity: Quantity, price: Price) -> (r: Order)
        ensures
            r.symbol@ == symbol@,
            r.side == side,
            r.order_type == OrderType::Limit,
            r.quantity == quantity,
            r.price == Some(price),
            r.status == OrderStatus::Pending,
            r.filled_at is None,
            r.filled_price is None,
    {
        Order {
            id: fresh_order_id(),
            symbol,
            side,
            order_type: OrderType::Limit,
            quantity,
            price: Some(price),
            status: OrderStatus::Pending,
            created_at: now_utc_secs(),
            filled_at: None,
            filled_price: None,
        }
    }

    /// Marks the order filled at `price`.
    pub fn fill(&mut self, price: Price)
        ensures
            final(self).status == OrderStatus::Filled,
            final(self).filled_price == Some(price),
            final(self).filled_at is Some,
            final(self).id@ == old(self).id@,
            final(self).symbol@ == old(self).symbol@,
            final(self).side == old(self).side,
            final(self).order_type == old(self).order_type,
            final(self).quantity == old(self).quantity,
            final(self).price == old(self).price,
            final(self).created_at == old(self).created_at,
    {
        self.status = OrderStatus::Filled;
        self.filled_at = Some(now_utc_secs());
        self.filled_price = Some(price);
    }
}

/// An open position: at most one per symbol, mutated only by price updates
/// and exit checks, moved to the trade ledger on close.
#[derive(Debug)]
pub struct Position {
    pub symbol: Symbol,
    pub quantity: Quantity,
    pub entry_price: Price,
    /// Re-marked on every tick.
    pub current_price: Price,
    pub stop_loss: Option<Price>,
    pub take_profit: Option<Price>,
    /// Seconds since the Unix epoch.
    pub opened_at: u64,
    /// The alpha model whose signal opened this position.
    pub source_signal: String,
}

/// The unrealized result of a position in cents:
/// `(current - entry) * quantity`.
pub open spec fn spec_unrealized_pnl(p: Position) -> int {
    (p.current_price.spec_cents() - p.entry_price.spec_cents()) * p.quantity.spec_value()
}

/// The market value of a position in cents: `current * quantity`.
pub open spec fn spec_position_value(p: Position) -> int {
    p.current_price.spec_cents() * p.quantity.spec_value()
}

/// True exactly when the position's stop-loss has been crossed.
pub open spec fn spec_stop_hit(p: Position) -> bool {
    match p.stop_loss {
        Some(stop) => p.current_price.spec_cents() <= stop.spec_cents(),
        None => false,
    }
}

/// True exactly when the position's take-profit has been crossed.
pub open spec fn spec_take_hit(p: Position) -> bool {
    match p.take_profit {
        Some(target) => p.current_price.spec_cents() >= target.spec_cents(),
        None => false,
    }
}

/// Why the position exits now, if it does. The stop-loss is checked before
/// the take-profit inside one pass, a fixed tie-break kept from the
/// design: when one tick crosses both, the stop wins.
pub open spec fn spec_exit_reason(p: Position) -> Option<CloseReason> {
    if spec_stop_hit(p) {
        Some(CloseReason::StopLoss)
    } else if spec_take_hit(p) {
        Some(CloseReason::TakeProfit)
    } else {
        None
    }
}

impl Position {
    /// The unrealized result in cents.
    pub fn unrealized_pnl(&self) -> (r: i128)
        ensures
            r == spec_unrealized_pnl(*self),
    {
        let cur = self.current_price.value() as i128;
        let entry = self.entry_price.value() as i128;
        let qty = self.quantity.value() as i128;
        proof {
            lemma_pnl_bounds(
                self.current_price.spec_cents() as int,
                self.entry_price.spec_cents() as int,
                self.quantity.spec_value() as int,
            );
        }
        (cur - entry) * qty
    }

    /// The unrealized result as basis points of the entry price, rounded
    /// toward zero.
    pub fn unrealized_pnl_bps(&self) -> (r: i128)
        ensures
            r == crate::types::price::spec_change_bps(
                self.entry_price.spec_cents() as int,
                self.current_price.spec_cents() as int,
            ),
    {
        self.entry_price.percent_change(self.current_price)
    }

    /// True exactly when the stop-loss has been crossed.
    pub fn stop_loss_hit(&self) -> (r: bool)
        ensures
            r == spec_stop_hit(*self),
    {
        match self.stop_loss {
            Some(stop) => self.current_price.value() <= stop.value(),
            None => false,
        }
    }

    /// True exactly when the take-profit has been crossed.
    pub fn take_profit_hit(&self) -> (r: bool)
        ensures
            r == spec_take_hit(*self),
    {
        match self.take_profit {
            Some(target) => self.current_price.value() >= target.value(),
            None => false,
        }
    }

    /// Re-marks the position to the latest price.
    pub fn update_price(&mut self, price: Price)
        ensures
            final(self).current_price == price,
            final(self).symbol@ == old(self).symbol@,
            final(self).quantity == old(self).quantity,
            final(self).entry_price == old(self).entry_price,
            final(self).stop_loss == old(self).stop_loss,
            final(self).take_profit == old(self).take_profit,
            final(self).opened_at == old(self).opened_at,
            final(self).source_signal@ == old(self).source_signal@,
    {
        self.current_price = price;
    }
}

/// A product of a price and a share count stays far inside the `i128`
/// range.
pub proof fn lemma_pnl_bounds(cur: int, entry: int, qty: int)
    requires
        0 <= cur <= u64::MAX,
        0 <= entry <= u64::MAX,
        -(MAX_SHARES as int) <= qty <= MAX_SHARES,
    ensures
        -(0x10000000000000000 * 0x10000000000) <= (cur - entry) * qty <= 0x10000000000000000
            * 0x10000000000,
        -(0x10000000000000000 * 0x10000000000) <= cur * qty <= 0x10000000000000000
            * 0x10000000000,
{
    assert(-(0x10000000000000000 * 0x10000000000) <= (cur - entry) * qty
        <= 0x10000000000000000 * 0x10000000000) by (nonlinear_arith)
        requires
            -(u64::MAX as int) <= cur - entry <= u64::MAX,
            -(MAX_SHARES as int) <= qty <= MAX_SHARES,
    ;
    assert(-(0x10000000000000000 * 0x10000000000) <= cur * qty <= 0x10000000000000000
        * 0x10000000000) by (nonlinear_arith)
        requires
            0 <= cur <= u64::MAX,
            -(MAX_SHARES as int) <= qty <= MAX_SHARES,
    ;
}

/// Risk-based position sizing: shares = risk budget / stop distance.
#[derive(Debug, Clone, Copy, PartialEq, Eq, Structural)]
pub struct PositionSizer {
    /// The portfolio value the risk budget is a share of, in cents.
    pub portfolio_cents: u64,
    /// The risk budget per trade, in basis points of the portfolio.
    pub max_risk_per_trade_bps: u32,
}

/// What `calculate_size` returns: the risk budget in cents divided by the
/// distance to the stop, capped at the largest representable share count.
pub open spec fn spec_calculated_size(
    portfolio_cents: int,
    max_risk_bps: int,
    entry: int,
    stop: int,
) -> int {
    let risk = portfolio_cents * max_risk_bps / 10000;
    let dist = if entry >= stop {
        entry - stop
    } else {
        stop - entry
    };
    let shares = risk / dist;
    if shares > MAX_SHARES {
        MAX_SHARES as int
    } else {
        shares
    }
}

impl PositionSizer {
    /// A sizer for a portfolio of `portfolio_cents` risking
    /// `max_risk_per_trade_bps` of it per trade.
    pub fn new(portfolio_cents: u64, max_risk_per_trade_bps: u32) -> (r: PositionSizer)
        ensures
            r.portfolio_cents == portfolio_cents,
            r.max_risk_per_trade_bps == max_risk_per_trade_bps,
    {
        PositionSizer { portfolio_cents, max_risk_per_trade_bps }
    }

    /// The share count whose loss at the stop equals the risk budget,
    /// rounded down. Fails without a stop, with a stop on the entry price,
    /// or when the budget buys no whole share.
    pub fn calculate_size(&self, entry_price: Price, stop_loss: Option<Price>) -> (r: Result<
        Quantity,
        ExecutionError,
    >)
        ensures
            ({
                match stop_loss {
                    None => r == Err::<Quantity, ExecutionError>(ExecutionError::MissingStopLoss),
                    Some(stop) => {
                        let shares = spec_calculated_size(
                            self.portfolio_cents as int,
                            self.max_risk_per_trade_bps as int,
                            entry_price.spec_cents() as int,
                            stop.spec_cents() as int,
                        );
                        if entry_price.spec_cents() == stop.spec_cents() {
                            r == Err::<Quantity, ExecutionError>(ExecutionError::StopLossTooClose)
                        } else if shares <= 0 {
                            r == Err::<Quantity, ExecutionError>(ExecutionError::PositionTooSmall)
                        } else {
                            r matches Ok(q) && q.spec_value() == shares
                        }
                    },
                }
            }),
    {
        let stop = match stop_loss {
            Some(s) => s,
            None => { return Err(ExecutionError::MissingStopLoss); },
        };
        let entry = entry_price.value();
        let stop_cents = stop.value();
        if entry == stop_cents {
            return Err(ExecutionError::StopLossTooClose);
        }
        let dist: u64 = if entry >= stop_cents {
            entry - stop_cents
        } else {
            stop_cents - entry
        };
        proof {
            assert(self.portfolio_cents * self.max_risk_per_trade_bps
                <= (u64::MAX as int) * (u32::MAX as int)) by (nonlinear_arith)
                requires
                    self.portfolio_cents <= u64::MAX,
                    self.max_risk_per_trade_bps <= u32::MAX,
            ;
            crate::math::lemma_div_le_numerator(
                (self.portfolio_cents as int) * (self.max_risk_per_trade_bps as int),
                10000,
            );
            crate::math::lemma_div_le_numerator(
                (self.portfolio_cents as int) * (self.max_risk_per_trade_bps as int) / 10000,
                dist as int,
            );
        }
        let risk: u128 = (self.portfolio_cents as u128) * (self.max_risk_per_trade_bps as u128)
            / 10000;
        let shares: u128 = risk / (dist as u128);
        let shares: u64 = if shares > MAX_SHARES as u128 {
            MAX_SHARES
        } else {
            shares as u64
        };
        if shares == 0 {
            return Err(ExecutionError::PositionTooSmall);
        }
        Ok(Quantity::buy(shares))
    }
}

/// A closed trade: immutable once created, appended to the ledger.
#[derive(Debug)]
pub struct Trade {
    pub symbol: Symbol,
    pub side: OrderSide,
    pub quantity: Quantity,
    pub entry_price: Price,
    pub exit_price: Price,
    /// Realized result in cents.
    pub pnl_cents: i128,
    /// Realized result as basis points of the entry price.
    pub pnl_bps: i128,
    /// Seconds since the Unix epoch.
    pub opened_at: u64,
    /// Seconds since the Unix epoch.
    pub closed_at: u64,
    pub close_reason: CloseReason,
}

/// True exactly when `ps` holds a position for `sym`.
pub open spec fn spec_has_position(ps: Seq<Position>, sym: Seq<char>) -> bool {
    exists|i: int| 0 <= i < ps.len() && (#[trigger] ps[i]).symbol@ == sym
}

/// At most one position per symbol.
pub open spec fn spec_positions_unique(ps: Seq<Position>) -> bool {
    forall|i: int, j: int|
        0 <= i < j < ps.len() ==> (#[trigger] ps[i]).symbol@ != (#[trigger] ps[j]).symbol@
}

/// The combined mark-to-market value of the positions, in cents.
pub open spec fn spec_positions_total(ps: Seq<Position>) -> int
    decreases ps.len(),
{
    if ps.len() == 0 {
        0
    } else {
        spec_positions_total(ps.drop_last()) + spec_position_value(ps.last())
    }
}

/// The combined unrealized result of the positions, in cents.
pub open spec fn spec_unrealized_total(ps: Seq<Position>) -> int
    decreases ps.len(),
{
    if ps.len() == 0 {
        0
    } else {
        spec_unrealized_total(ps.drop_last()) + spec_unrealized_pnl(ps.last())
    }
}

/// The combined realized result of the ledger, accumulated with saturating
/// steps.
pub open spec fn spec_realized_total(ts: Seq<Trade>) -> int
    decreases ts.len(),
{
    if ts.len() == 0 {
        0
    } else {
        crate::math::sat_add_i128(spec_realized_total(ts.drop_last()), ts.last().pnl_cents as int)
    }
}

/// The per-symbol market values handed to the risk manager's correlation
/// check, each saturated at the largest representable amount.
pub open spec fn spec_position_pairs(ps: Seq<Position>) -> Seq<(Symbol, u64)> {
    ps.map_values(|p: Position| (p.symbol, crate::math::sat_u64(spec_position_value(p)) as u64))
}

/// How a re-marked position list relates to the one before: same
/// positions in the same order, each re-priced to the snapshot's last
/// price for its symbol when the snapshot covers it.
pub open spec fn spec_marked_rel(
    old_ps: Seq<Position>,
    snapshot: MarketSnapshot,
    new_ps: Seq<Position>,
) -> bool {
    &&& new_ps.len() == old_ps.len()
    &&& forall|k: int|
        0 <= k < old_ps.len() ==> {
            let p = old_ps[k];
            let q = #[trigger] new_ps[k];
            &&& q.symbol@ == p.symbol@
            &&& q.quantity == p.quantity
            &&& q.entry_price == p.entry_price
            &&& q.stop_loss == p.stop_loss
            &&& q.take_profit == p.take_profit
            &&& q.opened_at == p.opened_at
            &&& q.source_signal@ == p.source_signal@
            &&& (!snapshot.spec_contains(p.symbol@) ==> q.current_price == p.current_price)
            &&& (snapshot.spec_contains(p.symbol@) ==> exists|i: int|
                0 <= i < snapshot.spec_items().len()
                    && (#[trigger] snapshot.spec_items()[i]).symbol@ == p.symbol@
                    && q.current_price == snapshot.spec_items()[i].last_price)
        }
}

/// Limits on the portfolio the manager runs.
#[derive(Debug, Clone, Copy, PartialEq, Eq, Structural)]
pub struct OrderManagerConfig {
    /// Largest number of open positions.
    pub max_positions: usize,
    /// Risk budget per trade, in basis points of the portfolio.
    pub max_risk_per_trade_bps: u32,
    /// Fixed commission debited with each executed signal, in cents.
    pub commission_cents: u64,
    /// Paper-trading mode: fills are simulated.
    pub paper_trading: bool,
}

impl Default for OrderManagerConfig {
    /// Ten positions, 0.5% risk per trade, no commission, paper trading
    /// on.
    fn default() -> (r: OrderManagerConfig)
        ensures
            r.max_positions == 10,
            r.max_risk_per_trade_bps == 50,
            r.commission_cents == 0,
            r.paper_trading,
    {
        OrderManagerConfig {
            max_positions: 10,
            max_risk_per_trade_bps: 50,
            commission_cents: 0,
            paper_trading: true,
        }
    }
}

/// Owns the cash balance, the open positions and the closed-trade ledger;
/// executes approved signals and monitors exits.
#[derive(Debug)]
pub struct OrderManager {
    /// The cash balance in cents; never negative.
    pub cash_cents: u64,
    /// The open positions, at most one per symbol (see
    /// [`OrderManager::wf`]).
    pub positions: Vec<Position>,
    /// The append-only ledger of closed trades.
    pub trade_history: Vec<Trade>,
    /// The risk-based sizer.
    pub sizer: PositionSizer,
    /// The risk gate, informed of every realized result.
    pub risk_manager: RiskManager,
    /// The configured limits.
    pub config: OrderManagerConfig,
}

impl OrderManager {
    /// The manager's invariant: positions are unique per symbol and their
    /// number stays within the configured (and representable) bound.
    pub open spec fn wf(self) -> bool {
        &&& spec_positions_unique(self.positions@)
        &&& self.positions@.len() <= self.config.max_positions
        &&& self.config.max_positions <= 4096
    }

    /// The portfolio value this manager would report: cash plus
    /// mark-to-market positions, clamped into the representable range.
    pub open spec fn spec_portfolio(self) -> int {
        crate::math::sat_u64(self.cash_cents + spec_positions_total(self.positions@))
    }

    /// A manager over fresh capital. The risk manager is configured with
    /// the same per-trade risk and an emergency floor at half the initial
    /// cash.
    pub fn new(initial_cash_cents: u64, config: OrderManagerConfig) -> (r: OrderManager)
        requires
            config.max_positions <= 4096,
        ensures
            r.wf(),
            r.cash_cents == initial_cash_cents,
            r.positions@.len() == 0,
            r.trade_history@.len() == 0,
            r.sizer == (PositionSizer {
                portfolio_cents: initial_cash_cents,
                max_risk_per_trade_bps: config.max_risk_per_trade_bps,
            }),
            r.config == config,
            r.risk_manager.config == (RiskManagerConfig {
                max_risk_per_trade_bps: config.max_risk_per_trade_bps,
                max_daily_drawdown_bps: 500,
                max_correlation_exposure_bps: 5000,
                max_consecutive_losses: 3,
                emergency_stop_cents: (initial_cash_cents / 2) as u64,
            }),
            r.risk_manager.day_start_cents == initial_cash_cents,
            r.risk_manager.current_cents == initial_cash_cents,
            r.risk_manager.consecutive_losses == 0,
    {
        let sizer = PositionSizer::new(initial_cash_cents, config.max_risk_per_trade_bps);
        let risk_config = RiskManagerConfig {
            max_risk_per_trade_bps: config.max_risk_per_trade_bps,
            max_daily_drawdown_bps: 500,
            max_correlation_exposure_bps: 5000,
            max_consecutive_losses: 3,
            emergency_stop_cents: initial_cash_cents / 2,
        };
        let risk_manager = RiskManager::new(risk_config, initial_cash_cents);
        OrderManager {
            cash_cents: initial_cash_cents,
            positions: Vec::new(),
            trade_history: Vec::new(),
            sizer,
            risk_manager,
            config,
        }
    }

    /// Re-anchors the risk manager's daily counters.
    pub fn reset_daily(&mut self)
        requires
            old(self).wf(),
        ensures
            final(self).wf(),
            final(self).risk_manager.day_start_cents == old(self).risk_manager.current_cents,
            final(self).risk_manager.consecutive_losses == 0,
            final(self).risk_manager.current_cents == old(self).risk_manager.current_cents,
            final(self).risk_manager.config == old(self).risk_manager.config,
            final(self).cash_cents == old(self).cash_cents,
            final(self).positions == old(self).positions,
            final(self).trade_history == old(self).trade_history,
            final(self).sizer == old(self).sizer,
            final(self).config == old(self).config,
    {
        self.risk_manager.reset_daily();
    }

    /// Cash plus the mark-to-market value of every open position, clamped
    /// into the representable range.
    pub fn portfolio_value(&self) -> (r: u64)
        requires
            self.wf(),
        ensures
            r == self.spec_portfolio(),
    {
        let total = self.positions_total();
        let with_cash: i128 = self.cash_cents as i128 + total;
        if with_cash < 0 {
            0
        } else if with_cash > u64::MAX as i128 {
            u64::MAX
        } else {
            with_cash as u64
        }
    }

    /// The combined mark-to-market value of the open positions, in cents.
    fn positions_total(&self) -> (r: i128)
        requires
            self.wf(),
        ensures
            r == spec_positions_total(self.positions@),
            -(4096 * (0x10000000000000000 * 0x10000000000)) <= r <= 4096 * (0x10000000000000000
                * 0x10000000000),
    {
        let n = self.positions.len();
        let mut sum: i128 = 0;
        let mut i: usize = 0;
        proof {
            assert(self.positions@.take(0) =~= Seq::<Position>::empty());
        }
        while i < n
            invariant
                self.wf(),
                n == self.positions@.len(),
                0 <= i <= n,
                sum == spec_positions_total(self.positions@.take(i as int)),
                -((i as int) * (0x10000000000000000 * 0x10000000000)) <= sum <= (i as int) * (
                0x10000000000000000 * 0x10000000000),
                (i as int) * (0x10000000000000000 * 0x10000000000) <= 4096 * (0x10000000000000000
                    * 0x10000000000),
            decreases n - i,
        {
            proof {
                assert(self.positions@.take(i as int + 1).drop_last() =~= self.positions@.take(
                    i as int,
                ));
                assert(self.positions@.take(i as int + 1).last() == self.positions@[i as int]);
            }
            let p = &self.positions[i];
            let cur = p.current_price.value();
            let qty = p.quantity.value();
            proof {
                lemma_pnl_bounds(cur as int, 0, qty as int);
                assert((i as int) * (0x10000000000000000 * 0x10000000000) + (0x10000000000000000
                    * 0x10000000000) == (i as int + 1) * (0x10000000000000000
                    * 0x10000000000)) by (nonlinear_arith);
                assert((i as int + 1) * (0x10000000000000000 * 0x10000000000) <= 4096 * (
                0x10000000000000000 * 0x10000000000)) by (nonlinear_arith)
                    requires
                        i + 1 <= 4096,
                ;
            }
            sum = sum + (cur as i128) * (qty as i128);
            i += 1;
        }
        proof {
            assert(self.positions@.take(n as int) =~= self.positions@);
        }
        sum
    }

    /// The combined unrealized result of the open positions, in cents.
    pub fn unrealized_pnl(&self) -> (r: i128)
        requires
            self.wf(),
        ensures
            r == spec_unrealized_total(self.positions@),
    {
        let n = self.positions.len();
        let mut sum: i128 = 0;
        let mut i: usize = 0;
        proof {
            assert(self.positions@.take(0) =~= Seq::<Position>::empty());
        }
        while i < n
            invariant
                self.wf(),
                n == self.positions@.len(),
                0 <= i <= n,
                sum == spec_unrealized_total(self.positions@.take(i as int)),
                -((i as int) * (0x10000000000000000 * 0x10000000000)) <= sum <= (i as int) * (
                0x10000000000000000 * 0x10000000000),
                (i as int) * (0x10000000000000000 * 0x10000000000) <= 4096 * (0x10000000000000000
                    * 0x10000000000),
            decreases n - i,
        {
            proof {
                assert(self.positions@.take(i as int + 1).drop_last() =~= self.positions@.take(
                    i as int,
                ));
                assert(self.positions@.take(i as int + 1).last() == self.positions@[i as int]);
            }
            let p = &self.positions[i];
            let qty_bound = p.quantity.value();
            let pnl = p.unrealized_pnl();
            proof {
                lemma_pnl_bounds(
                    p.current_price.spec_cents() as int,
                    p.entry_price.spec_cents() as int,
                    qty_bound as int,
                );
                assert((i as int) * (0x10000000000000000 * 0x10000000000) + (0x10000000000000000
                    * 0x10000000000) == (i as int + 1) * (0x10000000000000000
                    * 0x10000000000)) by (nonlinear_arith);
                assert((i as int + 1) * (0x10000000000000000 * 0x10000000000) <= 4096 * (
                0x10000000000000000 * 0x10000000000)) by (nonlinear_arith)
                    requires
                        i + 1 <= 4096,
                ;
            }
            sum = sum + pnl;
            i += 1;
        }
        proof {
            assert(self.positions@.take(n as int) =~= self.positions@);
        }
        sum
    }

    /// The combined realized result of the ledger, with saturating
    /// accumulation.
    pub fn realized_pnl(&self) -> (r: i128)
        ensures
            r == spec_realized_total(self.trade_history@),
    {
        let n = self.trade_history.len();
        let mut sum: i128 = 0;
        let mut i: usize = 0;
        proof {
            assert(self.trade_history@.take(0) =~= Seq::<Trade>::empty());
        }
        while i < n
            invariant
                n == self.trade_history@.len(),
                0 <= i <= n,
                sum == spec_realized_total(self.trade_history@.take(i as int)),
            decreases n - i,
        {
            proof {
                assert(self.trade_history@.take(i as int + 1).drop_last()
                    =~= self.trade_history@.take(i as int));
                assert(self.trade_history@.take(i as int + 1).last()
                    == self.trade_history@[i as int]);
            }
            let pnl = self.trade_history[i].pnl_cents;
            if pnl >= 0 {
                if sum > i128::MAX - pnl {
                    sum = i128::MAX;
                } else {
                    sum = sum + pnl;
                }
            } else {
                if sum < i128::MIN - pnl {
                    sum = i128::MIN;
                } else {
                    sum = sum + pnl;
                }
            }
            i += 1;
        }
        proof {
            assert(self.trade_history@.take(n as int) =~= self.trade_history@);
        }
        sum
    }

    /// Executes a signal as a paper trade: sizes it from the stop-loss,
    /// asks the risk manager for approval, then debits cash by the
    /// position value plus the configured commission and opens the
    /// position. Fails per-signal, never corrupting the portfolio state.
    pub fn execute_signal(&mut self, signal: &Signal, current_price: Price) -> (r: Result<
        Order,
        ExecutionError,
    >)
        requires
            old(self).wf(),
            old(self).config.paper_trading,
        ensures
            final(self).wf(),
            final(self).config == old(self).config,
            final(self).sizer == old(self).sizer,
            final(self).trade_history == old(self).trade_history,
            final(self).risk_manager.config == old(self).risk_manager.config,
            final(self).risk_manager.day_start_cents == old(self).risk_manager.day_start_cents,
            final(self).risk_manager.consecutive_losses
                == old(self).risk_manager.consecutive_losses,
            final(self).risk_manager.correlation_groups
                == old(self).risk_manager.correlation_groups,
            ({
                let sym = signal.symbol@;
                let entry = current_price.spec_cents() as int;
                if spec_has_position(old(self).positions@, sym) {
                    &&& r == Err::<Order, ExecutionError>(ExecutionError::AlreadyHavePosition)
                    &&& final(self).positions == old(self).positions
                    &&& final(self).cash_cents == old(self).cash_cents
                    &&& final(self).risk_manager == old(self).risk_manager
                } else {
                    match signal.stop_loss {
                        None => {
                            &&& r == Err::<Order, ExecutionError>(ExecutionError::MissingStopLoss)
                            &&& final(self).positions == old(self).positions
                            &&& final(self).cash_cents == old(self).cash_cents
                            &&& final(self).risk_manager == old(self).risk_manager
                        },
                        Some(stop) => {
                            let shares = spec_calculated_size(
                                old(self).sizer.portfolio_cents as int,
                                old(self).sizer.max_risk_per_trade_bps as int,
                                entry,
                                stop.spec_cents() as int,
                            );
                            if entry == stop.spec_cents() {
                                &&& r == Err::<Order, ExecutionError>(
                                    ExecutionError::StopLossTooClose,
                                )
                                &&& final(self).positions == old(self).positions
                                &&& final(self).cash_cents == old(self).cash_cents
                                &&& final(self).risk_manager == old(self).risk_manager
                            } else if shares <= 0 {
                                &&& r == Err::<Order, ExecutionError>(
                                    ExecutionError::PositionTooSmall,
                                )
                                &&& final(self).positions == old(self).positions
                                &&& final(self).cash_cents == old(self).cash_cents
                                &&& final(self).risk_manager == old(self).risk_manager
                            } else {
                                let value = crate::math::sat_u64(entry * shares);
                                let dist = if entry >= stop.spec_cents() {
                                    entry - stop.spec_cents()
                                } else {
                                    stop.spec_cents() - entry
                                };
                                let risk = crate::math::sat_u64(dist * shares);
                                let gated = (RiskManager {
                                    current_cents: old(self).spec_portfolio() as u64,
                                    ..old(self).risk_manager
                                });
                                let check = gated.spec_check_trade(
                                    sym,
                                    value as u64,
                                    risk as u64,
                                    spec_position_pairs(old(self).positions@),
                                    old(self).config.max_positions,
                                    old(self).cash_cents,
                                );
                                &&& final(self).risk_manager == gated
                                &&& match check {
                                    RiskCheckResult::Rejected(v) => {
                                        &&& r == Err::<Order, ExecutionError>(
                                            ExecutionError::RiskRejected(v),
                                        )
                                        &&& final(self).positions == old(self).positions
                                        &&& final(self).cash_cents == old(self).cash_cents
                                    },
                                    RiskCheckResult::Approved => {
                                        if signal.action == SignalAction::Buy || signal.action
                                            == SignalAction::Sell {
                                            &&& r matches Ok(order)
                                            &&& order.symbol@ == sym
                                            &&& order.side == (if signal.action
                                                == SignalAction::Buy {
                                                OrderSide::Buy
                                            } else {
                                                OrderSide::Sell
                                            })
                                            &&& order.order_type == OrderType::Market
                                            &&& order.quantity.spec_value() == shares
                                            &&& order.status == OrderStatus::Filled
                                            &&& order.filled_price == Some(current_price)
                                            &&& final(self).positions@.len() == old(
                                                self,
                                            ).positions@.len() + 1
                                            &&& final(self).positions@.drop_last() == old(
                                                self,
                                            ).positions@
                                            &&& ({
                                                let p = final(self).positions@.last();
                                                &&& p.symbol@ == sym
                                                &&& p.quantity.spec_value() == shares
                                                &&& p.entry_price == current_price
                                                &&& p.current_price == current_price
                                                &&& p.stop_loss == signal.stop_loss
                                                &&& p.take_profit == signal.take_profit
                                                &&& p.source_signal@ == signal.source@
                                            })
                                            &&& final(self).cash_cents == crate::math::sat_u64(
                                                old(self).cash_cents - value - old(
                                                    self,
                                                ).config.commission_cents,
                                            )
                                        } else {
                                            &&& r == Err::<Order, ExecutionError>(
                                                ExecutionError::InvalidAction,
                                            )
                                            &&& final(self).positions == old(self).positions
                                            &&& final(self).cash_cents == old(self).cash_cents
                                        }
                                    },
                                }
                            }
                        },
                    }
                }
            }),
    {
        let ghost old_positions = self.positions@;
        if self.has_position(&signal.symbol) {
            return Err(ExecutionError::AlreadyHavePosition);
        }
        let quantity = match self.sizer.calculate_size(current_price, signal.stop_loss) {
            Ok(q) => q,
            Err(e) => { return Err(e); },
        };
        let stop = match signal.stop_loss {
            Some(s) => s,
            None => {
                proof {
                    assert(false);
                }
                return Err(ExecutionError::MissingStopLoss);
            },
        };
        let entry = current_price.value();
        let qty = quantity.value();
        proof {
            lemma_pnl_bounds(entry as int, 0, qty as int);
            lemma_pnl_bounds(entry as int, stop.spec_cents() as int, qty as int);
        }
        let value_product: i128 = (entry as i128) * (qty as i128);
        let position_value: u64 = if value_product > u64::MAX as i128 {
            u64::MAX
        } else {
            value_product as u64
        };
        let stop_cents = stop.value();
        let dist: u64 = if entry >= stop_cents {
            entry - stop_cents
        } else {
            stop_cents - entry
        };
        proof {
            assert(0 <= dist * qty <= (u64::MAX as int) * (MAX_SHARES as int))
                by (nonlinear_arith)
                requires
                    0 <= dist <= u64::MAX,
                    0 <= qty <= MAX_SHARES,
            ;
        }
        let risk_product: i128 = (dist as i128) * (qty as i128);
        let risk_amount: u64 = if risk_product > u64::MAX as i128 {
            u64::MAX
        } else {
            risk_product as u64
        };

        let pairs = self.position_pairs();
        let portfolio = self.portfolio_value();
        self.risk_manager.update_portfolio_value(portfolio);

        let check = self.risk_manager.check_trade(
            &signal.symbol,
            position_value,
            risk_amount,
            &pairs,
            self.config.max_positions,
            self.cash_cents,
        );
        proof {
            crate::risk_manager::lemma_check_trade_pairs_equiv(
                self.risk_manager,
                signal.symbol@,
                position_value,
                risk_amount,
                pairs@,
                spec_position_pairs(old(self).positions@),
                self.config.max_positions,
                self.cash_cents,
            );
        }
        match check {
            RiskCheckResult::Rejected(v) => { return Err(ExecutionError::RiskRejected(v)); },
            RiskCheckResult::Approved => {},
        }

        let side = match signal.action {
            SignalAction::Buy => OrderSide::Buy,
            SignalAction::Sell => OrderSide::Sell,
            _ => { return Err(ExecutionError::InvalidAction); },
        };

        let mut order = Order::market(signal.symbol.clone(), side, quantity);
        order.fill(current_price);

        let position = Position {
            symbol: signal.symbol.clone(),
            quantity,
            entry_price: current_price,
            current_price,
            stop_loss: signal.stop_loss,
            take_profit: signal.take_profit,
            opened_at: now_utc_secs(),
            source_signal: signal.source.clone(),
        };
        let after_value = self.cash_cents - position_value;
        self.cash_cents = if after_value >= self.config.commission_cents {
            after_value - self.config.commission_cents
        } else {
            0
        };
        self.positions.push(position);
        proof {
            assert(self.positions@.drop_last() =~= old_positions);
            assert(spec_positions_unique(self.positions@)) by {
                assert(forall|i: int|
                    0 <= i < old_positions.len() ==> (#[trigger] old_positions[i]).symbol@
                        != signal.symbol@);
                assert(forall|i: int|
                    0 <= i < self.positions@.len() - 1 ==> self.positions@[i] == old_positions[i]);
                assert(self.positions@.last().symbol@ == signal.symbol@);
            }
        }
        Ok(order)
    }

    /// True exactly when a position for `symbol` is open.
    pub fn has_position(&self, symbol: &Symbol) -> (r: bool)
        ensures
            r == spec_has_position(self.positions@, symbol@),
    {
        let n = self.positions.len();
        let mut i: usize = 0;
        while i < n
            invariant
                n == self.positions@.len(),
                0 <= i <= n,
                forall|j: int| 0 <= j < i ==> (#[trigger] self.positions@[j]).symbol@ != symbol@,
            decreases n - i,
        {
            if self.positions[i].symbol.same_as(symbol) {
                return true;
            }
            i += 1;
        }
        false
    }

    /// The open positions as (symbol, market value) pairs for the
    /// correlation check, each value saturated at the representable cap.
    fn position_pairs(&self) -> (r: Vec<(Symbol, u64)>)
        ensures
            crate::risk_manager::spec_pairs_equiv(r@, spec_position_pairs(self.positions@)),
    {
        let n = self.positions.len();
        let mut pairs: Vec<(Symbol, u64)> = Vec::new();
        let mut i: usize = 0;
        proof {
            assert(pairs@ =~= spec_position_pairs(self.positions@.take(0)));
        }
        while i < n
            invariant
                n == self.positions@.len(),
                0 <= i <= n,
                crate::risk_manager::spec_pairs_equiv(
                    pairs@,
                    spec_position_pairs(self.positions@.take(i as int)),
                ),
            decreases n - i,
        {
            let p = &self.positions[i];
            let cur = p.current_price.value();
            let qty = p.quantity.value();
            proof {
                lemma_pnl_bounds(cur as int, 0, qty as int);
            }
            let product: i128 = (cur as i128) * (qty as i128);
            let value: u64 = if product < 0 {
                0
            } else if product > u64::MAX as i128 {
                u64::MAX
            } else {
                product as u64
            };
            pairs.push((p.symbol.clone(), value));
            proof {
                let a = pairs@;
                let b = spec_position_pairs(self.positions@.take(i as int + 1));
                assert(self.positions@.take(i as int + 1)[i as int] == self.positions@[i as int]);
                assert(a.len() == b.len());
                assert(forall|j: int|
                    0 <= j < a.len() - 1 ==> ((#[trigger] a[j]).0@ == b[j].0@ && a[j].1 == b[j].1));
                assert(a[a.len() - 1].0@ == b[b.len() - 1].0@ && a[a.len() - 1].1 == b[b.len()
                    - 1].1);
            }
            i += 1;
        }
        proof {
            assert(self.positions@.take(n as int) =~= self.positions@);
        }
        pairs
    }

    /// Marks every open position to the latest price in the snapshot;
    /// positions whose symbol the snapshot misses keep their price.
    pub fn update_positions(&mut self, snapshot: &MarketSnapshot)
        requires
            old(self).wf(),
            snapshot.wf(),
        ensures
            final(self).wf(),
            final(self).cash_cents == old(self).cash_cents,
            final(self).trade_history == old(self).trade_history,
            final(self).sizer == old(self).sizer,
            final(self).risk_manager == old(self).risk_manager,
            final(self).config == old(self).config,
            spec_marked_rel(old(self).positions@, *snapshot, final(self).positions@),
    {
        let n = self.positions.len();
        let mut i: usize = 0;
        while i < n
            invariant
                old(self).wf(),
                snapshot.wf(),
                n == self.positions@.len(),
                n == old(self).positions@.len(),
                0 <= i <= n,
                self.cash_cents == old(self).cash_cents,
                self.trade_history == old(self).trade_history,
                self.sizer == old(self).sizer,
                self.risk_manager == old(self).risk_manager,
                self.config == old(self).config,
                forall|k: int|
                    i <= k < n ==> #[trigger] self.positions@[k] == old(self).positions@[k],
                forall|k: int|
                    0 <= k < i ==> {
                        let p = old(self).positions@[k];
                        let q = #[trigger] self.positions@[k];
                        &&& q.symbol@ == p.symbol@
                        &&& q.quantity == p.quantity
                        &&& q.entry_price == p.entry_price
                        &&& q.stop_loss == p.stop_loss
                        &&& q.take_profit == p.take_profit
                        &&& q.opened_at == p.opened_at
                        &&& q.source_signal@ == p.source_signal@
                        &&& (!snapshot.spec_contains(p.symbol@) ==> q.current_price
                            == p.current_price)
                        &&& (snapshot.spec_contains(p.symbol@) ==> exists|t: int|
                            0 <= t < snapshot.spec_items().len()
                                && (#[trigger] snapshot.spec_items()[t]).symbol@ == p.symbol@
                                && q.current_price == snapshot.spec_items()[t].last_price)
                    },
            decreases n - i,
        {
            let price: Option<Price> = match snapshot.get(&self.positions[i].symbol) {
                Some(data) => Some(data.last_price),
                None => None,
            };
            match price {
                Some(p) => {
                    let elem = vstd::std_specs::vec::vec_index_mut(&mut self.positions, i);
                    elem.update_price(p);
                },
                None => {},
            }
            i += 1;
        }
        proof {
            assert(spec_positions_unique(self.positions@)) by {
                assert(forall|a: int, b: int|
                    0 <= a < b < self.positions@.len() ==> (#[trigger] self.positions@[a]).symbol@
                        == old(self).positions@[a].symbol@ && (#[trigger] self.positions@[b]).symbol@
                        == old(self).positions@[b].symbol@);
            }
        }
    }

    /// Scans every open position and closes the ones whose stop-loss or
    /// take-profit has been crossed, the stop checked first. Closing
    /// credits the proceeds, records the realized result with the risk
    /// manager, appends a ledger record, and re-marks the risk manager's
    /// portfolio value. The ledger records carry the buy side: the
    /// manager trades long only.
    pub fn check_exits(&mut self) -> (r: Vec<Trade>)
        requires
            old(self).wf(),
        ensures
            final(self).wf(),
            final(self).config == old(self).config,
            final(self).sizer == old(self).sizer,
            final(self).positions@ == spec_remaining(old(self).positions@),
            final(self).cash_cents == spec_cash_after_exits(
                old(self).cash_cents as int,
                old(self).positions@,
            ),
            r@.len() == spec_exiting(old(self).positions@).len(),
            forall|k: int|
                0 <= k < r@.len() ==> spec_trade_matches(
                    #[trigger] r@[k],
                    spec_exiting(old(self).positions@)[k],
                ),
            final(self).trade_history@.len() == old(self).trade_history@.len() + r@.len(),
            forall|k: int|
                0 <= k < old(self).trade_history@.len() ==> #[trigger] final(self).trade_history@[k]
                    == old(self).trade_history@[k],
            forall|k: int|
                0 <= k < r@.len() ==> spec_trade_matches(
                    #[trigger] final(self).trade_history@[old(self).trade_history@.len() + k],
                    spec_exiting(old(self).positions@)[k],
                ),
            final(self).risk_manager.config == old(self).risk_manager.config,
            final(self).risk_manager.day_start_cents == old(self).risk_manager.day_start_cents,
            final(self).risk_manager.correlation_groups
                == old(self).risk_manager.correlation_groups,
            final(self).risk_manager.consecutive_losses == spec_losses_after_exits(
                old(self).risk_manager.consecutive_losses as int,
                old(self).positions@,
            ),
            r@.len() == 0 ==> final(self).risk_manager.current_cents
                == old(self).risk_manager.current_cents,
            r@.len() > 0 ==> final(self).risk_manager.current_cents
                == final(self).spec_portfolio(),
    {
        let ghost old_ps = self.positions@;
        let ghost old_hist = self.trade_history@;
        let ghost l0 = self.risk_manager.consecutive_losses as int;
        let n = self.positions.len();
        let mut remaining: Vec<Position> = Vec::new();
        let mut closed: Vec<Trade> = Vec::new();
        let mut i: usize = 0;
        proof {
            assert(old_ps.take(0) =~= Seq::<Position>::empty());
            assert(old_ps.skip(0) =~= old_ps);
        }
        while i < n
            invariant
                n == old_ps.len(),
                0 <= i <= n,
                self.positions@ == old_ps.skip(i as int),
                remaining@ == spec_remaining(old_ps.take(i as int)),
                closed@.len() == spec_exiting(old_ps.take(i as int)).len(),
                forall|k: int|
                    0 <= k < closed@.len() ==> spec_trade_matches(
                        #[trigger] closed@[k],
                        spec_exiting(old_ps.take(i as int))[k],
                    ),
                self.cash_cents == spec_cash_after_exits(
                    old(self).cash_cents as int,
                    old_ps.take(i as int),
                ),
                self.trade_history@.len() == old_hist.len() + closed@.len(),
                forall|k: int|
                    0 <= k < old_hist.len() ==> #[trigger] self.trade_history@[k] == old_hist[k],
                forall|k: int|
                    0 <= k < closed@.len() ==> spec_trade_matches(
                        #[trigger] self.trade_history@[old_hist.len() + k],
                        spec_exiting(old_ps.take(i as int))[k],
                    ),
                self.risk_manager.config == old(self).risk_manager.config,
                self.risk_manager.day_start_cents == old(self).risk_manager.day_start_cents,
                self.risk_manager.correlation_groups == old(self).risk_manager.correlation_groups,
                self.risk_manager.current_cents == old(self).risk_manager.current_cents,
                self.risk_manager.consecutive_losses == spec_losses_after_exits(
                    l0,
                    old_ps.take(i as int),
                ),
                self.sizer == old(self).sizer,
                self.config == old(self).config,
            decreases n - i,
        {
            proof {
                assert(old_ps.take(i as int + 1).drop_last() =~= old_ps.take(i as int));
                assert(old_ps.take(i as int + 1).last() == old_ps[i as int]);
                assert(old_ps.skip(i as int)[0] == old_ps[i as int]);
            }
            let p = self.positions.remove(0);
            proof {
                assert(self.positions@ =~= old_ps.skip(i as int + 1));
            }
            let reason: Option<CloseReason> = if p.stop_loss_hit() {
                Some(CloseReason::StopLoss)
            } else if p.take_profit_hit() {
                Some(CloseReason::TakeProfit)
            } else {
                None
            };
            match reason {
                None => {
                    remaining.push(p);
                },
                Some(why) => {
                    let qty = p.quantity.value();
                    let cur = p.current_price.value();
                    let pnl = p.unrealized_pnl();
                    let pnl_sat: i64 = if pnl > i64::MAX as i128 {
                        i64::MAX
                    } else if pnl < i64::MIN as i128 {
                        i64::MIN
                    } else {
                        pnl as i64
                    };
                    self.risk_manager.record_trade(pnl_sat);
                    proof {
                        lemma_pnl_bounds(cur as int, 0, qty as int);
                    }
                    let proceeds: i128 = (cur as i128) * (qty as i128);
                    let credited: i128 = self.cash_cents as i128 + proceeds;
                    self.cash_cents = if credited < 0 {
                        0
                    } else if credited > u64::MAX as i128 {
                        u64::MAX
                    } else {
                        credited as u64
                    };
                    let pnl_bps = p.unrealized_pnl_bps();
                    let ledger_trade = Trade {
                        symbol: p.symbol.clone(),
                        side: OrderSide::Buy,
                        quantity: p.quantity,
                        entry_price: p.entry_price,
                        exit_price: p.current_price,
                        pnl_cents: pnl,
                        pnl_bps,
                        opened_at: p.opened_at,
                        closed_at: now_utc_secs(),
                        close_reason: why,
                    };
                    let returned_trade = Trade {
                        symbol: p.symbol,
                        side: OrderSide::Buy,
                        quantity: ledger_trade.quantity,
                        entry_price: ledger_trade.entry_price,
                        exit_price: ledger_trade.exit_price,
                        pnl_cents: pnl,
                        pnl_bps,
                        opened_at: ledger_trade.opened_at,
                        closed_at: ledger_trade.closed_at,
                        close_reason: why,
                    };
                    self.trade_history.push(ledger_trade);
                    closed.push(returned_trade);
                    proof {
                        assert(spec_exiting(old_ps.take(i as int + 1)) =~= spec_exiting(
                            old_ps.take(i as int),
                        ).push(old_ps[i as int]));
                    }
                },
            }
            i += 1;
        }
        proof {
            assert(old_ps.take(n as int) =~= old_ps);
            assert(self.positions@ =~= Seq::<Position>::empty());
        }
        self.positions = remaining;
        proof {
            lemma_remaining_props(old_ps);
        }
        if closed.len() > 0 {
            let pv = self.portfolio_value();
            self.risk_manager.update_portfolio_value(pv);
        }
        closed
    }

    /// The risk manager's state snapshot.
    pub fn risk_stats(&self) -> (r: RiskStats)
        ensures
            r.current_value_cents == self.risk_manager.current_cents,
            r.day_start_value_cents == self.risk_manager.day_start_cents,
            r.consecutive_losses == self.risk_manager.consecutive_losses,
            r.max_daily_drawdown_bps == self.risk_manager.config.max_daily_drawdown_bps,
            r.max_consecutive_losses == self.risk_manager.config.max_consecutive_losses,
    {
        self.risk_manager.stats()
    }

    /// A summary of the ledger and portfolio. Losing trades count every
    /// non-winner, as the ledger's win/loss split does.
    pub fn stats(&self) -> (r: OrderManagerStats)
        requires
            self.wf(),
        ensures
            r.total_trades == self.trade_history@.len(),
            r.winning_trades == spec_count_winning(self.trade_history@),
            r.losing_trades == self.trade_history@.len() - spec_count_winning(
                self.trade_history@,
            ),
            r.win_rate_bps == (if self.trade_history@.len() == 0 {
                0int
            } else {
                spec_count_winning(self.trade_history@) * 10000 / (self.trade_history@.len() as int)
            }),
            r.avg_win_cents == (if spec_count_winning(self.trade_history@) == 0 {
                0int
            } else {
                spec_sum_wins(self.trade_history@) / spec_count_winning(self.trade_history@)
            }),
            r.avg_loss_cents == (if spec_count_losing(self.trade_history@) == 0 {
                0int
            } else {
                -(spec_sum_loss_mag(self.trade_history@) / spec_count_losing(self.trade_history@))
            }),
            r.total_pnl_cents == spec_realized_total(self.trade_history@),
            r.unrealized_pnl_cents == spec_unrealized_total(self.positions@),
            r.portfolio_value_cents == self.spec_portfolio(),
    {
        let ghost ts = self.trade_history@;
        let n = self.trade_history.len();
        let mut winning: usize = 0;
        let mut losing: usize = 0;
        let mut sum_wins: i128 = 0;
        let mut sum_loss_mag: i128 = 0;
        let mut i: usize = 0;
        proof {
            assert(ts.take(0) =~= Seq::<Trade>::empty());
        }
        while i < n
            invariant
                ts == self.trade_history@,
                n == ts.len(),
                0 <= i <= n,
                winning == spec_count_winning(ts.take(i as int)),
                losing == spec_count_losing(ts.take(i as int)),
                winning <= i,
                losing <= i,
                sum_wins == spec_sum_wins(ts.take(i as int)),
                sum_loss_mag == spec_sum_loss_mag(ts.take(i as int)),
                0 <= sum_wins,
                0 <= sum_loss_mag,
            decreases n - i,
        {
            proof {
                assert(ts.take(i as int + 1).drop_last() =~= ts.take(i as int));
                assert(ts.take(i as int + 1).last() == ts[i as int]);
            }
            let pnl = self.trade_history[i].pnl_cents;
            if pnl > 0 {
                winning = winning + 1;
                if sum_wins > i128::MAX - pnl {
                    sum_wins = i128::MAX;
                } else {
                    sum_wins = sum_wins + pnl;
                }
            } else if pnl < 0 {
                losing = losing + 1;
                let mag: i128 = if pnl == i128::MIN {
                    i128::MAX
                } else {
                    -pnl
                };
                proof {
                    if pnl == i128::MIN {
                        assert(crate::math::sat_add_i128(sum_loss_mag as int, -(pnl as int))
                            == i128::MAX) by {
                            assert(sum_loss_mag >= 0);
                        }
                    }
                }
                if sum_loss_mag > i128::MAX - mag {
                    sum_loss_mag = i128::MAX;
                } else {
                    sum_loss_mag = sum_loss_mag + mag;
                }
            }
            i += 1;
        }
        proof {
            assert(ts.take(n as int) =~= ts);
            lemma_count_winning_bounds(ts);
        }
        let win_rate_bps: u32 = if n == 0 {
            0
        } else {
            proof {
                crate::math::lemma_ratio_bps_bounded(winning as int, n as int);
            }
            ((winning as u128 * 10000) / (n as u128)) as u32
        };
        let avg_win_cents: i128 = if winning == 0 {
            0
        } else {
            proof {
                crate::math::lemma_div_le_numerator(sum_wins as int, winning as int);
            }
            sum_wins / (winning as i128)
        };
        let avg_loss_cents: i128 = if losing == 0 {
            0
        } else {
            proof {
                crate::math::lemma_div_le_numerator(sum_loss_mag as int, losing as int);
            }
            -(sum_loss_mag / (losing as i128))
        };
        OrderManagerStats {
            total_trades: n,
            winning_trades: winning,
            losing_trades: n - winning,
            win_rate_bps,
            avg_win_cents,
            avg_loss_cents,
            total_pnl_cents: self.realized_pnl(),
            unrealized_pnl_cents: self.unrealized_pnl(),
            portfolio_value_cents: self.portfolio_value(),
        }
    }

    /// How many positions are open.
    pub fn position_count(&self) -> (r: usize)
        ensures
            r == self.positions@.len(),
    {
        self.positions.len()
    }

    /// True exactly when another position may be opened.
    pub fn can_open_position(&self) -> (r: bool)
        ensures
            r == (self.positions@.len() < self.config.max_positions),
    {
        self.positions.len() < self.config.max_positions
    }
}

/// The positions that stay open after an exit pass: those whose stop and
/// target are both uncrossed.
pub open spec fn spec_remaining(ps: Seq<Position>) -> Seq<Position>
    decreases ps.len(),
{
    if ps.len() == 0 {
        Seq::empty()
    } else {
        let rest = spec_remaining(ps.drop_last());
        if spec_exit_reason(ps.last()) is None {
            rest.push(ps.last())
        } else {
            rest
        }
    }
}

/// The positions an exit pass closes, in scan order.
pub open spec fn spec_exiting(ps: Seq<Position>) -> Seq<Position>
    decreases ps.len(),
{
    if ps.len() == 0 {
        Seq::empty()
    } else {
        let rest = spec_exiting(ps.drop_last());
        if spec_exit_reason(ps.last()) is Some {
            rest.push(ps.last())
        } else {
            rest
        }
    }
}

/// The cash balance after crediting the proceeds of every exiting
/// position, each step clamped into the representable range.
pub open spec fn spec_cash_after_exits(cash0: int, ps: Seq<Position>) -> int
    decreases ps.len(),
{
    if ps.len() == 0 {
        cash0
    } else {
        let prev = spec_cash_after_exits(cash0, ps.drop_last());
        if spec_exit_reason(ps.last()) is Some {
            crate::math::sat_u64(prev + spec_position_value(ps.last()))
        } else {
            prev
        }
    }
}

/// The risk manager's loss streak after recording every exiting
/// position's realized result, in scan order.
pub open spec fn spec_losses_after_exits(l0: int, ps: Seq<Position>) -> int
    decreases ps.len(),
{
    if ps.len() == 0 {
        l0
    } else {
        let prev = spec_losses_after_exits(l0, ps.drop_last());
        if spec_exit_reason(ps.last()) is Some {
            if crate::math::sat_i64(spec_unrealized_pnl(ps.last())) < 0 {
                if prev >= usize::MAX {
                    usize::MAX as int
                } else {
                    prev + 1
                }
            } else {
                0
            }
        } else {
            prev
        }
    }
}

/// What a ledger record says about the position it closed: the exit is the
/// last marked price, the result is the position's unrealized result, and
/// the reason is the triggered exit condition.
pub open spec fn spec_trade_matches(t: Trade, p: Position) -> bool {
    &&& t.symbol@ == p.symbol@
    &&& t.side == OrderSide::Buy
    &&& t.quantity == p.quantity
    &&& t.entry_price == p.entry_price
    &&& t.exit_price == p.current_price
    &&& t.pnl_cents == spec_unrealized_pnl(p)
    &&& t.pnl_bps == crate::types::price::spec_change_bps(
        p.entry_price.spec_cents() as int,
        p.current_price.spec_cents() as int,
    )
    &&& t.opened_at == p.opened_at
    &&& t.close_reason == spec_exit_reason(p)->Some_0
}

/// Every remaining position is drawn from the scanned ones, and uniqueness
/// carries over to them.
proof fn lemma_remaining_props(ps: Seq<Position>)
    ensures
        spec_remaining(ps).len() <= ps.len(),
        forall|k: int|
            0 <= k < spec_remaining(ps).len() ==> exists|j: int|
                0 <= j < ps.len() && #[trigger] spec_remaining(ps)[k] == ps[j],
        spec_positions_unique(ps) ==> spec_positions_unique(spec_remaining(ps)),
    decreases ps.len(),
{
    if ps.len() > 0 {
        lemma_remaining_props(ps.drop_last());
        let rest = spec_remaining(ps.drop_last());
        assert(forall|k: int|
            0 <= k < rest.len() ==> exists|j: int|
                0 <= j < ps.drop_last().len() && #[trigger] rest[k] == ps.drop_last()[j]);
        assert forall|k: int|
            0 <= k < spec_remaining(ps).len() implies exists|j: int|
                0 <= j < ps.len() && #[trigger] spec_remaining(ps)[k] == ps[j] by {
            if k < rest.len() {
                let j = choose|j: int|
                    0 <= j < ps.drop_last().len() && #[trigger] rest[k] == ps.drop_last()[j];
                assert(spec_remaining(ps)[k] == ps[j]);
            } else {
                assert(spec_remaining(ps)[k] == ps[ps.len() - 1]);
            }
        }
        if spec_positions_unique(ps) {
            assert(spec_positions_unique(ps.drop_last())) by {
                assert(forall|i: int, j: int|
                    0 <= i < j < ps.drop_last().len() ==> (#[trigger] ps.drop_last()[i]).symbol@
                        != (#[trigger] ps.drop_last()[j]).symbol@);
            }
            if spec_exit_reason(ps.last()) is None {
                assert forall|i: int, j: int|
                    0 <= i < j < spec_remaining(ps).len() implies (#[trigger] spec_remaining(
                    ps,
                )[i]).symbol@ != (#[trigger] spec_remaining(ps)[j]).symbol@ by {
                    if j == spec_remaining(ps).len() - 1 {
                        let jj = choose|jj: int|
                            0 <= jj < ps.drop_last().len() && #[trigger] rest[i]
                                == ps.drop_last()[jj];
                        assert(ps[jj].symbol@ != ps[ps.len() - 1].symbol@);
                    } else {
                        assert(rest[i].symbol@ != rest[j].symbol@);
                    }
                }
            }
        }
    }
}

/// How many ledger trades won (positive result).
pub open spec fn spec_count_winning(ts: Seq<Trade>) -> int
    decreases ts.len(),
{
    if ts.len() == 0 {
        0
    } else {
        spec_count_winning(ts.drop_last()) + if ts.last().pnl_cents > 0 {
            1int
        } else {
            0
        }
    }
}

/// How many ledger trades lost (negative result).
pub open spec fn spec_count_losing(ts: Seq<Trade>) -> int
    decreases ts.len(),
{
    if ts.len() == 0 {
        0
    } else {
        spec_count_losing(ts.drop_last()) + if ts.last().pnl_cents < 0 {
            1int
        } else {
            0
        }
    }
}

/// The combined winning results, accumulated with saturating steps.
pub open spec fn spec_sum_wins(ts: Seq<Trade>) -> int
    decreases ts.len(),
{
    if ts.len() == 0 {
        0
    } else {
        let prev = spec_sum_wins(ts.drop_last());
        if ts.last().pnl_cents > 0 {
            crate::math::sat_add_i128(prev, ts.last().pnl_cents as int)
        } else {
            prev
        }
    }
}

/// The combined magnitude of the losing results, accumulated with
/// saturating steps.
pub open spec fn spec_sum_loss_mag(ts: Seq<Trade>) -> int
    decreases ts.len(),
{
    if ts.len() == 0 {
        0
    } else {
        let prev = spec_sum_loss_mag(ts.drop_last());
        if ts.last().pnl_cents < 0 {
            crate::math::sat_add_i128(prev, -(ts.last().pnl_cents as int))
        } else {
            prev
        }
    }
}

/// The winner count lies between zero and the ledger length.
proof fn lemma_count_winning_bounds(ts: Seq<Trade>)
    ensures
        0 <= spec_count_winning(ts) <= ts.len(),
        0 <= spec_count_losing(ts) <= ts.len(),
    decreases ts.len(),
{
    if ts.len() > 0 {
        lemma_count_winning_bounds(ts.drop_last());
    }
}

/// A summary of the manager's ledger and portfolio.
#[derive(Debug, Clone, Copy, PartialEq, Eq, Structural)]
pub struct OrderManagerStats {
    /// Closed trades on the ledger.
    pub total_trades: usize,
    /// Closed trades with a positive result.
    pub winning_trades: usize,
    /// Closed trades counted as losers: every non-winner.
    pub losing_trades: usize,
    /// Winners as basis points of all closed trades; zero with no trades.
    pub win_rate_bps: u32,
    /// Mean winning result in cents; zero with no winner.
    pub avg_win_cents: i128,
    /// Mean losing result in cents (non-positive); zero with no loser.
    pub avg_loss_cents: i128,
    /// Combined realized result in cents.
    pub total_pnl_cents: i128,
    /// Combined unrealized result of the open positions in cents.
    pub unrealized_pnl_cents: i128,
    /// Cash plus mark-to-market positions in cents.
    pub portfolio_value_cents: u64,
}

/// After any sequence of executions, closes and re-marks, the
/// open-position map never holds two entries for the same symbol: every
/// mutator of [`OrderManager`] requires and re-establishes `wf`, whose
/// uniqueness clause this lemma spells out.
pub proof fn lemma_positions_never_duplicated(m: OrderManager)
    requires
        m.wf(),
    ensures
        forall|i: int, j: int|
            0 <= i < j < m.positions@.len() ==> (#[trigger] m.positions@[i]).symbol@
                != (#[trigger] m.positions@[j]).symbol@,
{
}

/// The portfolio value the manager reports never diverges from the value
/// recomputed from cash plus the mark-to-market sum of its open
/// positions; in integer cents the two are equal exactly, up to the
/// clamp into the representable range.
pub proof fn lemma_portfolio_value_recomputed(m: OrderManager)
    ensures
        m.spec_portfolio() == crate::math::sat_u64(
            m.cash_cents + spec_positions_total(m.positions@),
        ),
{
}

/// Relies on `uuid::Uuid::new_v4` and its string form: a freshly drawn
/// random order identifier. Nothing is promised of the value.
#[verifier::external_body]
fn fresh_order_id() -> String {
    uuid::Uuid::new_v4().to_string()
}

/// Relies on `chrono::Utc::now`: the current wall-clock time as seconds
/// since the Unix epoch, clamped below at zero. Nothing further is
/// promised of the value.
#[verifier::external_body]
fn now_utc_secs() -> u64 {
    let ts = chrono::Utc::now().timestamp();
    if ts < 0 {
        0
    } else {
        ts as u64
    }
}

} // verus!
