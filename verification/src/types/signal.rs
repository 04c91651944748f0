//! Trading signals: an alpha model's opinion about one instrument.

use vstd::prelude::*;

use crate::types::price::{Price, Quantity};
use crate::types::{Symbol, ValidationError};

verus! {

/// What a signal proposes to do.
#[derive(Debug, Clone, Copy, PartialEq, Eq, Structural)]
pub enum SignalAction {
    Buy,
    Sell,
    Close,
    Hold,
}

/// A confidence level in basis points of certainty: 0 means none,
/// 10000 means full certainty.
#[derive(Debug, Clone, Copy, PartialEq, Eq, Structural)]
pub struct Confidence {
    bps: u32,
}

impl Confidence {
    /// Confidence is bounded by full certainty.
    #[verifier::type_invariant]
    pub closed spec fn wf(self) -> bool {
        self.bps <= 10000
    }

    /// The confidence in basis points.
    pub closed spec fn spec_bps(self) -> u32 {
        self.bps
    }

    /// Validates that the level lies within [0, 10000] basis points.
    pub fn new(bps: u32) -> (r: Result<Confidence, ValidationError>)
        ensures
            bps <= 10000 ==> (r matches Ok(c) && c.spec_bps() == bps),
            bps > 10000 ==> r == Err::<Confidence, ValidationError>(
                ValidationError::InvalidConfidence(bps),
            ),
    {
        if bps > 10000 {
            Err(ValidationError::InvalidConfidence(bps))
        } else {
            Ok(Confidence { bps })
        }
    }

    /// The raw level in basis points.
    pub fn value(&self) -> (r: u32)
        ensures
            r == self.spec_bps(),
            r <= 10000,
    {
        proof {
            use_type_invariant(self);
        }
        self.bps
    }
}

/// The mathematical content of a [`Signal`]: what the contracts of the
/// aggregator and the replay engine speak about. Cloning a signal
/// preserves this view.
pub struct SignalView {
    pub symbol: Seq<char>,
    pub action: SignalAction,
    pub confidence_bps: u32,
    pub reason: Seq<char>,
    pub source: Seq<char>,
    pub target_price: Option<Price>,
    pub stop_loss: Option<Price>,
    pub take_profit: Option<Price>,
    pub quantity: Option<Quantity>,
}

/// One opinion about one instrument, produced by an alpha model and
/// immutable once aggregated.
#[derive(Debug)]
pub struct Signal {
    /// The instrument this opinion is about.
    pub symbol: Symbol,
    /// The proposed action.
    pub action: SignalAction,
    /// How certain the producer is.
    pub confidence: Confidence,
    /// Free-text explanation of the opinion.
    pub reason: String,
    /// The name of the alpha model that produced it.
    pub source: String,
    /// Optional price target.
    pub target_price: Option<Price>,
    /// Optional stop-loss price.
    pub stop_loss: Option<Price>,
    /// Optional take-profit price.
    pub take_profit: Option<Price>,
    /// Optional explicit share count.
    pub quantity: Option<Quantity>,
}

impl View for Signal {
    type V = SignalView;

    open spec fn view(&self) -> SignalView {
        SignalView {
            symbol: self.symbol@,
            action: self.action,
            confidence_bps: self.confidence.spec_bps(),
            reason: self.reason@,
            source: self.source@,
            target_price: self.target_price,
            stop_loss: self.stop_loss,
            take_profit: self.take_profit,
            quantity: self.quantity,
        }
    }
}

impl DeepView for Signal {
    type V = SignalView;

    open spec fn deep_view(&self) -> SignalView {
        self.view()
    }
}

impl Signal {
    /// A new signal with no price levels attached.
    pub fn new(
        symbol: Symbol,
        action: SignalAction,
        confidence: Confidence,
        reason: &str,
        source: &str,
    ) -> (r: Signal)
        ensures
            r.symbol@ == symbol@,
            r.action == action,
            r.confidence == confidence,
            r.reason@ == reason@,
            r.source@ == source@,
            r.target_price is None,
            r.stop_loss is None,
            r.take_profit is None,
            r.quantity is None,
    {
        Signal {
            symbol,
            action,
            confidence,
            reason: reason.to_owned(),
            source: source.to_owned(),
            target_price: None,
            stop_loss: None,
            take_profit: None,
            quantity: None,
        }
    }

    /// The same signal with a price target attached.
    pub fn with_target_price(self, price: Price) -> (r: Signal)
        ensures
            r == (Signal { target_price: Some(price), ..self }),
    {
        Signal { target_price: Some(price), ..self }
    }

    /// The same signal with a stop-loss attached.
    pub fn with_stop_loss(self, price: Price) -> (r: Signal)
        ensures
            r == (Signal { stop_loss: Some(price), ..self }),
    {
        Signal { stop_loss: Some(price), ..self }
    }

    /// The same signal with a take-profit attached.
    pub fn with_take_profit(self, price: Price) -> (r: Signal)
        ensures
            r == (Signal { take_profit: Some(price), ..self }),
    {
        Signal { take_profit: Some(price), ..self }
    }

    /// The same signal with an explicit share count attached.
    pub fn with_quantity(self, quantity: Quantity) -> (r: Signal)
        ensures
            r == (Signal { quantity: Some(quantity), ..self }),
    {
        Signal { quantity: Some(quantity), ..self }
    }
}

impl Clone for Signal {
    /// A clone carries the same opinion.
    fn clone(&self) -> (r: Self)
        ensures
            r@ == self@,
            r.confidence == self.confidence,
    {
        Signal {
            symbol: self.symbol.clone(),
            action: self.action,
            confidence: self.confidence,
            reason: self.reason.clone(),
            source: self.source.clone(),
            target_price: self.target_price,
            stop_loss: self.stop_loss,
            take_profit: self.take_profit,
            quantity: self.quantity,
        }
    }
}

} // verus!
