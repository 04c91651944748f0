//! Trade records for historical replay: one record per round trip, with
//! entry, exit, costs and outcome.

use vstd::prelude::*;

use crate::order_manager::lemma_pnl_bounds;
use crate::types::price::{Price, Quantity};
use crate::types::signal::SignalAction;
use crate::types::Symbol;

verus! {

/// Why a replayed trade was closed. Exactly one reason is attached to
/// every closed trade.
#[derive(Debug, Clone, Copy, PartialEq, Eq, Structural)]
pub enum ExitReason {
    /// The stop-loss was hit.
    StopLoss,
    /// The take-profit was hit.
    TakeProfit,
    /// The aggregated signal reversed.
    SignalReverse,
    /// The risk manager forced the exit.
    RiskManagement,
    /// The historical series ended.
    EndOfData,
    /// A time-based exit.
    TimeExit,
}

/// How a closed trade turned out. A trade is a winner when its net result
/// exceeds one cent, a loser below minus one cent, else a breakeven.
#[derive(Debug, Clone, Copy, PartialEq, Eq, Structural)]
pub enum TradeOutcome {
    Winner,
    Loser,
    Breakeven,
}

/// The gross result of a closed trade in cents: the price move in the
/// trade's direction times the share count. Hold and close actions carry
/// no direction and score zero.
pub open spec fn spec_gross_pnl(action: SignalAction, entry: int, exit: int, qty: int) -> int {
    match action {
        SignalAction::Buy => (exit - entry) * qty,
        SignalAction::Sell => (entry - exit) * qty,
        SignalAction::Hold => 0,
        SignalAction::Close => 0,
    }
}

/// A trade executed during a replay.
#[derive(Debug)]
pub struct BacktestTrade {
    pub symbol: Symbol,
    /// The direction the trade was entered in.
    pub action: SignalAction,
    /// Entry price including slippage, in cents.
    pub entry_price: Price,
    /// Exit price including slippage, once closed.
    pub exit_price: Option<Price>,
    pub quantity: Quantity,
    /// Entry time in seconds since the Unix epoch.
    pub entry_time: u64,
    /// Exit time in seconds since the Unix epoch, once closed.
    pub exit_time: Option<u64>,
    /// Commission paid at entry, in cents.
    pub commission_cents: u64,
    /// Slippage suffered at entry, in cents.
    pub slippage_cents: u64,
    /// The confidence of the signal that opened the trade, in basis
    /// points.
    pub entry_confidence_bps: u32,
    pub exit_reason: Option<ExitReason>,
    /// Result before costs, once closed.
    pub gross_pnl_cents: Option<i128>,
    /// Result after commissions and slippage, once closed.
    pub net_pnl_cents: Option<i128>,
}

impl BacktestTrade {
    /// A freshly opened trade.
    pub fn new(
        symbol: Symbol,
        action: SignalAction,
        entry_price: Price,
        quantity: Quantity,
        entry_time: u64,
        commission_cents: u64,
        slippage_cents: u64,
        entry_confidence_bps: u32,
    ) -> (r: BacktestTrade)
        ensures
            r.symbol@ == symbol@,
            r.action == action,
            r.entry_price == entry_price,
            r.exit_price is None,
            r.quantity == quantity,
            r.entry_time == entry_time,
            r.exit_time is None,
            r.commission_cents == commission_cents,
            r.slippage_cents == slippage_cents,
            r.entry_confidence_bps == entry_confidence_bps,
            r.exit_reason is None,
            r.gross_pnl_cents is None,
            r.net_pnl_cents is None,
    {
        BacktestTrade {
            symbol,
            action,
            entry_price,
            exit_price: None,
            quantity,
            entry_time,
            exit_time: None,
            commission_cents,
            slippage_cents,
            entry_confidence_bps,
            exit_reason: None,
            gross_pnl_cents: None,
            net_pnl_cents: None,
        }
    }

    /// Closes the trade: the gross result is the directional price move
    /// times the share count; the net result subtracts both commissions
    /// and both slippage amounts.
    pub fn close(
        &mut self,
        exit_price: Price,
        exit_time: u64,
        exit_reason: ExitReason,
        exit_commission_cents: u64,
        exit_slippage_cents: u64,
    )
        ensures
            final(self).symbol@ == old(self).symbol@,
            final(self).action == old(self).action,
            final(self).entry_price == old(self).entry_price,
            final(self).quantity == old(self).quantity,
            final(self).entry_time == old(self).entry_time,
            final(self).commission_cents == old(self).commission_cents,
            final(self).slippage_cents == old(self).slippage_cents,
            final(self).entry_confidence_bps == old(self).entry_confidence_bps,
            final(self).exit_price == Some(exit_price),
            final(self).exit_time == Some(exit_time),
            final(self).exit_reason == Some(exit_reason),
            ({
                let gross = spec_gross_pnl(
                    old(self).action,
                    old(self).entry_price.spec_cents() as int,
                    exit_price.spec_cents() as int,
                    old(self).quantity.spec_value() as int,
                );
                &&& final(self).gross_pnl_cents == Some(gross as i128)
                &&& final(self).net_pnl_cents == Some(
                    (gross - (old(self).commission_cents + exit_commission_cents) - (old(
                        self,
                    ).slippage_cents + exit_slippage_cents)) as i128,
                )
                &&& spec_pnl_bounded(*final(self))
            }),
    {
        self.exit_price = Some(exit_price);
        self.exit_time = Some(exit_time);
        self.exit_reason = Some(exit_reason);
        let entry = self.entry_price.value() as i128;
        let exit = exit_price.value() as i128;
        let qty = self.quantity.value() as i128;
        proof {
            lemma_pnl_bounds(
                exit_price.spec_cents() as int,
                self.entry_price.spec_cents() as int,
                self.quantity.spec_value() as int,
            );
            lemma_pnl_bounds(
                self.entry_price.spec_cents() as int,
                exit_price.spec_cents() as int,
                self.quantity.spec_value() as int,
            );
        }
        let gross: i128 = match self.action {
            SignalAction::Buy => (exit - entry) * qty,
            SignalAction::Sell => (entry - exit) * qty,
            SignalAction::Hold => 0,
            SignalAction::Close => 0,
        };
        let total_commission: i128 = self.commission_cents as i128 + exit_commission_cents as i128;
        let total_slippage: i128 = self.slippage_cents as i128 + exit_slippage_cents as i128;
        self.gross_pnl_cents = Some(gross);
        self.net_pnl_cents = Some(gross - total_commission - total_slippage);
    }

    /// True exactly while the trade has no exit.
    pub fn is_open(&self) -> (r: bool)
        ensures
            r == (self.exit_price is None),
    {
        match self.exit_price {
            Some(_) => false,
            None => true,
        }
    }

    /// The outcome of a closed trade: winner above one cent of net
    /// result, loser below minus one cent, else breakeven.
    pub fn outcome(&self) -> (r: Option<TradeOutcome>)
        ensures
            match self.net_pnl_cents {
                None => r is None,
                Some(pnl) => r == Some(
                    if pnl > 1 {
                        TradeOutcome::Winner
                    } else if pnl < -1 {
                        TradeOutcome::Loser
                    } else {
                        TradeOutcome::Breakeven
                    },
                ),
            },
    {
        match self.net_pnl_cents {
            None => None,
            Some(pnl) => Some(
                if pnl > 1 {
                    TradeOutcome::Winner
                } else if pnl < -1 {
                    TradeOutcome::Loser
                } else {
                    TradeOutcome::Breakeven
                },
            ),
        }
    }

    /// The net result as basis points of the entry notional (entry price
    /// times the share magnitude), rounded toward zero; `None` while
    /// open.
    pub fn return_bps(&self) -> (r: Option<i128>)
        requires
            spec_pnl_bounded(*self),
        ensures
            match self.net_pnl_cents {
                None => r is None,
                Some(pnl) => {
                    let notional = self.entry_price.spec_cents() * (if self.quantity.spec_value()
                        >= 0 {
                        self.quantity.spec_value() as int
                    } else {
                        -(self.quantity.spec_value() as int)
                    });
                    r == Some(spec_scaled_ratio(pnl as int, 10000, notional) as i128)
                },
            },
    {
        let pnl = match self.net_pnl_cents {
            Some(p) => p,
            None => { return None; },
        };
        let qty_mag = self.quantity.abs();
        let entry = self.entry_price.value();
        proof {
            lemma_pnl_bounds(entry as int, 0, qty_mag as int);
        }
        let notional: i128 = (entry as i128) * (qty_mag as i128);
        Some(scaled_ratio(pnl, 10000, notional))
    }

    /// The trade's hold time in seconds; zero when the clock ran
    /// backwards, `None` while open.
    pub fn hold_time_seconds(&self) -> (r: Option<u64>)
        ensures
            match self.exit_time {
                None => r is None,
                Some(exit) => r == Some(
                    (if exit >= self.entry_time {
                        exit - self.entry_time
                    } else {
                        0int
                    }) as u64,
                ),
            },
    {
        match self.exit_time {
            None => None,
            Some(exit) => Some(
                if exit >= self.entry_time {
                    exit - self.entry_time
                } else {
                    0
                },
            ),
        }
    }

    /// The realized reward against an assumed risk of 1% of the entry
    /// notional, in thousandths; zero when that notional risk is under a
    /// cent, `None` while open.
    pub fn risk_reward_ratio_milli(&self) -> (r: Option<i128>)
        requires
            spec_pnl_bounded(*self),
        ensures
            match self.net_pnl_cents {
                None => r is None,
                Some(pnl) => {
                    let notional = self.entry_price.spec_cents() * (if self.quantity.spec_value()
                        >= 0 {
                        self.quantity.spec_value() as int
                    } else {
                        -(self.quantity.spec_value() as int)
                    });
                    let max_risk = notional / 100;
                    if max_risk < 1 {
                        r == Some(0i128)
                    } else {
                        r == Some(spec_scaled_ratio(pnl as int, 1000, max_risk) as i128)
                    }
                },
            },
    {
        let pnl = match self.net_pnl_cents {
            Some(p) => p,
            None => { return None; },
        };
        let qty_mag = self.quantity.abs();
        let entry = self.entry_price.value();
        proof {
            lemma_pnl_bounds(entry as int, 0, qty_mag as int);
        }
        let notional: i128 = (entry as i128) * (qty_mag as i128);
        let max_risk: i128 = notional / 100;
        if max_risk < 1 {
            return Some(0);
        }
        Some(scaled_ratio(pnl, 1000, max_risk))
    }
}

/// A bound comfortably above any result the replay engine can produce,
/// used to keep ratio arithmetic inside 128 bits.
pub open spec fn spec_pnl_in_range(pnl: int) -> bool {
    -0x10000000000000000000000000000 <= pnl <= 0x10000000000000000000000000000
}

/// True when the trade's net result, if any, is within the representable
/// ratio range. Every trade closed by [`BacktestTrade::close`] satisfies
/// this.
pub open spec fn spec_pnl_bounded(t: BacktestTrade) -> bool {
    match t.net_pnl_cents {
        Some(p) => spec_pnl_in_range(p as int),
        None => true,
    }
}

/// `value * scale / base`, rounded toward zero; zero when `base` is not
/// positive.
pub open spec fn spec_scaled_ratio(value: int, scale: int, base: int) -> int {
    if base <= 0 {
        0
    } else if value >= 0 {
        value * scale / base
    } else {
        -((-value) * scale / base)
    }
}

/// Computes [`spec_scaled_ratio`] for a scale of at most ten thousand and
/// a value within the representable ratio range.
fn scaled_ratio(value: i128, scale: u32, base: i128) -> (r: i128)
    requires
        scale <= 10000,
        spec_pnl_in_range(value as int),
    ensures
        r == spec_scaled_ratio(value as int, scale as int, base as int),
{
    if base <= 0 {
        return 0;
    }
    if value >= 0 {
        proof {
            assert(value * scale <= 0x10000000000000000000000000000 * 10000) by (nonlinear_arith)
                requires
                    0 <= value <= 0x10000000000000000000000000000,
                    0 <= scale <= 10000,
            ;
            crate::math::lemma_div_le_numerator((value as int) * (scale as int), base as int);
        }
        let q: u128 = (value as u128) * (scale as u128) / (base as u128);
        q as i128
    } else {
        let mag: u128 = (-value) as u128;
        proof {
            assert(mag * scale <= 0x10000000000000000000000000000 * 10000) by (nonlinear_arith)
                requires
                    0 <= mag <= 0x10000000000000000000000000000,
                    0 <= scale <= 10000,
            ;
            crate::math::lemma_div_le_numerator((mag as int) * (scale as int), base as int);
        }
        let q: u128 = mag * (scale as u128) / (base as u128);
        -(q as i128)
    }
}

} // verus!
