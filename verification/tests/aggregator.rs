//! Signal aggregation: each strategy over agreeing and disagreeing alphas.

use tradecore::{AggregationStrategy, Confidence, Price, Signal, SignalAction, SignalAggregator, Symbol};

fn create_signal(symbol: &str, action: SignalAction, confidence_bps: u32) -> Signal {
    Signal::new(
        Symbol::new(symbol).unwrap(),
        action,
        Confidence::new(confidence_bps).unwrap(),
        "test signal",
        "TestAlpha",
    )
    .with_target_price(Price::new(10_000).unwrap())
}

#[test]
fn test_highest_confidence() {
    let aggregator = SignalAggregator::new(AggregationStrategy::HighestConfidence);
    let signals = vec![
        create_signal("AAPL", SignalAction::Buy, 6000),
        create_signal("AAPL", SignalAction::Buy, 9000),
        create_signal("AAPL", SignalAction::Sell, 7000),
    ];
    let result = aggregator.aggregate(signals);
    assert_eq!(result.len(), 1);
    assert_eq!(result[0].confidence.value(), 9000);
    assert_eq!(result[0].action, SignalAction::Buy);
}

#[test]
fn test_weighted_average() {
    let aggregator = SignalAggregator::new(AggregationStrategy::WeightedAverage);
    let signals = vec![
        create_signal("AAPL", SignalAction::Buy, 8000),
        create_signal("AAPL", SignalAction::Buy, 6000),
        create_signal("AAPL", SignalAction::Sell, 5000),
    ];
    let result = aggregator.aggregate(signals);
    assert_eq!(result.len(), 1);
    assert_eq!(result[0].action, SignalAction::Buy);
    // The two buys average to 70%.
    assert_eq!(result[0].confidence.value(), 7000);
}

#[test]
fn test_unanimous_agreement() {
    let aggregator = SignalAggregator::new(AggregationStrategy::Unanimous);
    let signals = vec![
        create_signal("AAPL", SignalAction::Buy, 8000),
        create_signal("AAPL", SignalAction::Buy, 7000),
        create_signal("AAPL", SignalAction::Buy, 9000),
    ];
    let result = aggregator.aggregate(signals);
    assert_eq!(result.len(), 1);
    assert_eq!(result[0].action, SignalAction::Buy);
    assert_eq!(result[0].confidence.value(), 8000);
}

#[test]
fn test_unanimous_disagreement() {
    let aggregator = SignalAggregator::new(AggregationStrategy::Unanimous);
    let signals = vec![
        create_signal("AAPL", SignalAction::Buy, 8000),
        create_signal("AAPL", SignalAction::Sell, 7000),
    ];
    let result = aggregator.aggregate(signals);
    assert_eq!(result.len(), 0);
}

#[test]
fn test_unanimous_disagreement_high_confidence() {
    // Disagreement wins over any confidence level.
    let aggregator = SignalAggregator::new(AggregationStrategy::Unanimous);
    let signals = vec![
        create_signal("AAPL", SignalAction::Buy, 10000),
        create_signal("AAPL", SignalAction::Sell, 10000),
        create_signal("AAPL", SignalAction::Buy, 10000),
    ];
    assert_eq!(aggregator.aggregate(signals).len(), 0);
}

#[test]
fn test_majority_vote() {
    let aggregator = SignalAggregator::new(AggregationStrategy::MajorityVote);
    let signals = vec![
        create_signal("AAPL", SignalAction::Buy, 8000),
        create_signal("AAPL", SignalAction::Buy, 7000),
        create_signal("AAPL", SignalAction::Sell, 6000),
    ];
    let result = aggregator.aggregate(signals);
    assert_eq!(result.len(), 1);
    assert_eq!(result[0].action, SignalAction::Buy);
}

#[test]
fn test_min_confidence_filter() {
    let aggregator =
        SignalAggregator::new(AggregationStrategy::HighestConfidence).with_min_confidence(8000);
    let signals = vec![
        create_signal("AAPL", SignalAction::Buy, 6000),
        create_signal("AAPL", SignalAction::Sell, 7000),
    ];
    let result = aggregator.aggregate(signals);
    assert_eq!(result.len(), 0);
}

#[test]
fn test_multiple_symbols() {
    let aggregator = SignalAggregator::new(AggregationStrategy::HighestConfidence);
    let signals = vec![
        create_signal("AAPL", SignalAction::Buy, 9000),
        create_signal("GOOGL", SignalAction::Sell, 8000),
        create_signal("AAPL", SignalAction::Buy, 7000),
    ];
    let result = aggregator.aggregate(signals);
    assert_eq!(result.len(), 2);
}
