//! Price and quantity value types.
//!
//! A [`Price`] is a strictly positive amount of integer cents. A [`Quantity`]
//! is a nonzero signed share count: positive means long/buy, negative means
//! short/sell.

use vstd::prelude::*;

use crate::types::ValidationError;

verus! {

/// The largest share magnitude a quantity may carry.
pub const MAX_SHARES: u64 = 1_000_000_000_000;

/// A strictly positive price in integer cents.
#[derive(Debug, Clone, Copy, PartialEq, Eq, Structural)]
pub struct Price {
    cents: u64,
}

impl Price {
    /// Every price holds at least one cent.
    #[verifier::type_invariant]
    pub closed spec fn wf(self) -> bool {
        self.cents >= 1
    }

    /// The amount of cents this price stands for.
    pub closed spec fn spec_cents(self) -> u64 {
        self.cents
    }

    /// Validates that the amount is strictly positive.
    pub fn new(cents: i64) -> (r: Result<Price, ValidationError>)
        ensures
            cents >= 1 ==> (r matches Ok(p) && p.spec_cents() == cents),
            cents < 1 ==> r == Err::<Price, ValidationError>(ValidationError::InvalidPrice(cents)),
    {
        if cents <= 0 {
            Err(ValidationError::InvalidPrice(cents))
        } else {
            Ok(Price { cents: cents as u64 })
        }
    }

    /// A price from an amount of cents already known to be positive.
    pub(crate) fn from_cents(cents: u64) -> (r: Price)
        requires
            cents >= 1,
        ensures
            r.spec_cents() == cents,
    {
        Price { cents }
    }

    /// The raw amount in cents.
    pub fn value(&self) -> (r: u64)
        ensures
            r == self.spec_cents(),
            r >= 1,
    {
        proof {
            use_type_invariant(self);
        }
        self.cents
    }

    /// The change from `self` to `other` in basis points, rounded toward zero.
    pub fn percent_change(&self, other: Price) -> (r: i128)
        ensures
            r == spec_change_bps(self.spec_cents() as int, other.spec_cents() as int),
    {
        proof {
            use_type_invariant(self);
        }
        let s: u128 = self.cents as u128;
        let o: u128 = other.cents as u128;
        if o >= s {
            ((o - s) * 10000 / s) as i128
        } else {
            -(((s - o) * 10000 / s) as i128)
        }
    }
}

/// The relative move from `base` to `now`, in basis points, rounded toward zero.
pub open spec fn spec_change_bps(base: int, now: int) -> int
    recommends
        base >= 1,
{
    if now >= base {
        (now - base) * 10000 / base
    } else {
        -((base - now) * 10000 / base)
    }
}

/// A nonzero signed share count: positive buys, negative sells.
#[derive(Debug, Clone, Copy, PartialEq, Eq, Structural)]
pub struct Quantity {
    value: i64,
}

impl Quantity {
    /// A quantity is never zero and its magnitude is representable.
    #[verifier::type_invariant]
    pub closed spec fn wf(self) -> bool {
        self.value != 0 && -(MAX_SHARES as int) <= self.value <= MAX_SHARES
    }

    /// The signed share count this quantity stands for.
    pub closed spec fn spec_value(self) -> i64 {
        self.value
    }

    /// Validates that the share count is nonzero and within the
    /// representable magnitude.
    pub fn new(value: i64) -> (r: Result<Quantity, ValidationError>)
        ensures
            (value != 0 && -(MAX_SHARES as int) <= value <= MAX_SHARES) ==> (r matches Ok(q)
                && q.spec_value() == value),
            !(value != 0 && -(MAX_SHARES as int) <= value <= MAX_SHARES) ==> r == Err::<
                Quantity,
                ValidationError,
            >(ValidationError::InvalidQuantity(value)),
    {
        if value == 0 || value > MAX_SHARES as i64 || value < -(MAX_SHARES as i64) {
            Err(ValidationError::InvalidQuantity(value))
        } else {
            Ok(Quantity { value })
        }
    }

    /// A positive (buy) quantity of `value` shares.
    pub fn buy(value: u64) -> (r: Quantity)
        requires
            1 <= value <= MAX_SHARES,
        ensures
            r.spec_value() == value,
    {
        Quantity { value: value as i64 }
    }

    /// A negative (sell) quantity of `value` shares.
    pub fn sell(value: u64) -> (r: Quantity)
        requires
            1 <= value <= MAX_SHARES,
        ensures
            r.spec_value() == -(value as i64),
    {
        Quantity { value: -(value as i64) }
    }

    /// The signed share count.
    pub fn value(&self) -> (r: i64)
        ensures
            r == self.spec_value(),
            r != 0,
            -(MAX_SHARES as int) <= r <= MAX_SHARES,
    {
        proof {
            use_type_invariant(self);
        }
        self.value
    }

    /// The magnitude of the share count.
    pub fn abs(&self) -> (r: u64)
        ensures
            r == if self.spec_value() >= 0 {
                self.spec_value() as int
            } else {
                -(self.spec_value() as int)
            },
            1 <= r <= MAX_SHARES,
    {
        proof {
            use_type_invariant(self);
        }
        if self.value >= 0 {
            self.value as u64
        } else {
            (-(self.value as i128)) as u64
        }
    }

    /// True exactly when this quantity is long (positive).
    pub fn is_buy(&self) -> (r: bool)
        ensures
            r == (self.spec_value() > 0),
    {
        self.value > 0
    }

    /// True exactly when this quantity is short (negative).
    pub fn is_sell(&self) -> (r: bool)
        ensures
            r == (self.spec_value() < 0),
    {
        self.value < 0
    }
}

} // verus!
