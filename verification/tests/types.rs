//! Value-type validation and market-data arithmetic.

use tradecore::types::market_data::{MarketData, MarketSnapshot, Quote};
use tradecore::{Confidence, Price, Quantity, Symbol, ValidationError};

fn price(cents: i64) -> Price {
    Price::new(cents).unwrap()
}

fn quote(bid: i64, ask: i64) -> Quote {
    Quote {
        bid: price(bid),
        ask: price(ask),
        bid_size: Quantity::buy(1000),
        ask_size: Quantity::sell(1000),
        timestamp: 0,
    }
}

fn data(symbol: &str, last: i64, prev_close: Option<i64>) -> MarketData {
    MarketData {
        symbol: Symbol::new(symbol).unwrap(),
        quote: quote(last, last),
        last_price: price(last),
        volume: 1_000_000,
        timestamp: 0,
        open: None,
        high: None,
        low: None,
        prev_close: prev_close.map(price),
    }
}

#[test]
fn test_valid_symbol() {
    let sym = Symbol::new("AAPL").unwrap();
    assert_eq!(sym.as_str(), "AAPL");
}

#[test]
fn test_symbol_uppercase() {
    let sym = Symbol::new("aapl").unwrap();
    assert_eq!(sym.as_str(), "AAPL");
}

#[test]
fn test_empty_symbol() {
    let result = Symbol::new("");
    assert!(result.is_err());
}

#[test]
fn test_symbol_too_long() {
    let result = Symbol::new("VERYLONGSYMBOL");
    assert!(result.is_err());
}

#[test]
fn test_symbol_invalid_characters() {
    assert!(matches!(
        Symbol::new("AA-PL"),
        Err(ValidationError::InvalidSymbolCharacters)
    ));
}

#[test]
fn test_price_creation() {
    let p = Price::new(10050).unwrap();
    assert_eq!(p.value(), 10050);
}

#[test]
fn test_negative_price() {
    let result = Price::new(-1000);
    assert!(result.is_err());
    assert_eq!(result, Err(ValidationError::InvalidPrice(-1000)));
}

#[test]
fn test_zero_price() {
    assert_eq!(Price::new(0), Err(ValidationError::InvalidPrice(0)));
}

#[test]
fn test_percent_change() {
    let p1 = price(10000);
    let p2 = price(11000);
    assert_eq!(p1.percent_change(p2), 1000);
    assert_eq!(p2.percent_change(p1), -909);
}

#[test]
fn test_quantity_buy_sell() {
    let buy = Quantity::buy(100);
    assert!(buy.is_buy());
    assert!(!buy.is_sell());
    assert_eq!(buy.value(), 100);

    let sell = Quantity::sell(100);
    assert!(sell.is_sell());
    assert!(!sell.is_buy());
    assert_eq!(sell.value(), -100);
}

#[test]
fn test_zero_quantity() {
    let result = Quantity::new(0);
    assert!(result.is_err());
}

#[test]
fn test_quantity_abs() {
    assert_eq!(Quantity::sell(25).abs(), 25);
    assert_eq!(Quantity::buy(25).abs(), 25);
}

#[test]
fn test_confidence_bounds() {
    assert_eq!(Confidence::new(10000).unwrap().value(), 10000);
    assert_eq!(
        Confidence::new(10001),
        Err(ValidationError::InvalidConfidence(10001))
    );
}

#[test]
fn test_quote_spread() {
    let q = quote(10000, 10010);
    assert_eq!(q.spread(), 10);
}

#[test]
fn test_quote_mid() {
    let q = quote(10000, 10010);
    assert_eq!(q.mid().value(), 10005);
}

#[test]
fn test_quote_spread_pct() {
    let q = quote(10000, 10010);
    assert_eq!(q.spread_bps(), 9);
}

#[test]
fn test_market_snapshot() {
    let mut snapshot = MarketSnapshot::new();
    let sym = Symbol::new("AAPL").unwrap();
    snapshot.insert(data("AAPL", 10005, Some(9950)));
    assert_eq!(snapshot.len(), 1);
    assert!(snapshot.get(&sym).is_some());
    assert!(snapshot.get(&Symbol::new("MSFT").unwrap()).is_none());
}

#[test]
fn test_intraday_change() {
    let d = data("AAPL", 10500, Some(10000));
    assert_eq!(d.intraday_change_bps(), Some(500));
}
