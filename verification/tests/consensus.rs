use price_oracle::aggregator::{Aggregator, Policy};
use price_oracle::models::{Amount, PriceData, TICKS_PER_UNIT};

fn units(n: i64) -> Amount {
    Amount::Finite(n * TICKS_PER_UNIT)
}

fn observation(price: Amount, confidence: Amount, timestamp: i64, source: &str) -> PriceData {
    PriceData {
        symbol: "SOL".to_string(),
        price,
        confidence,
        timestamp,
        source: source.to_string(),
    }
}

fn priced(price: i64) -> PriceData {
    observation(units(price), Amount::Finite(50_000_000), 1_700_000_000, "pyth")
}

#[test]
fn weighted_single_observation_is_reproduced() {
    let one = observation(units(100), Amount::Finite(50_000_000), 1_700_000_000, "pyth");
    let got = Aggregator::calculate_weighted_consensus(vec![one]).expect("one valid observation");
    assert_eq!(got.price, Amount::Finite(100_000_000_000));
    assert_eq!(got.confidence, Amount::Finite(50_000_000));
    assert_eq!(got.symbol, "SOL");
    assert_eq!(got.timestamp, 1_700_000_000);
    assert_eq!(got.source, "weighted_consensus");
}

#[test]
fn weighted_resists_low_confidence_outlier() {
    let a = observation(units(150), Amount::Finite(50_000_000), 10, "pyth");
    let b = observation(units(200), Amount::Finite(5_000_000_000), 20, "MaliciousOracle");
    let got = Aggregator::calculate_weighted_consensus(vec![a, b]).expect("two valid observations");
    assert_eq!(got.price, Amount::Finite(150_495_049_505));
    assert_eq!(got.confidence, Amount::Finite(99_009_901));
    let price = match got.price {
        Amount::Finite(t) => t,
        Amount::NonFinite => panic!("finite inputs give a finite price"),
    };
    assert!(price - 150 * TICKS_PER_UNIT < 200 * TICKS_PER_UNIT - price);
    assert_eq!(got.timestamp, 10);
    assert_eq!(got.source, "weighted_consensus");
}

#[test]
fn weighted_matches_float_mean_to_a_tick() {
    let a = observation(units(150), Amount::Finite(50_000_000), 10, "pyth");
    let b = observation(units(200), Amount::Finite(5_000_000_000), 20, "other");
    let got = Aggregator::calculate_weighted_consensus(vec![a, b]).unwrap();
    let (wa, wb) = (1.0 / 0.05_f64, 1.0 / 5.0_f64);
    let mean = (150.0 * wa + 200.0 * wb) / (wa + wb);
    let price = match got.price {
        Amount::Finite(t) => t as f64 / TICKS_PER_UNIT as f64,
        Amount::NonFinite => f64::NAN,
    };
    assert!((price - mean).abs() < 1e-9);
    let width = match got.confidence {
        Amount::Finite(t) => t as f64 / TICKS_PER_UNIT as f64,
        Amount::NonFinite => f64::NAN,
    };
    assert!((width - 2.0 / (wa + wb)).abs() < 1e-9);
}

#[test]
fn weighted_excludes_zero_and_negative_confidence() {
    let good = observation(units(100), Amount::Finite(50_000_000), 5, "pyth");
    let zero = observation(units(900), Amount::Finite(0), 6, "zero");
    let negative = observation(units(900), Amount::Finite(-50_000_000), 7, "negative");
    let got = Aggregator::calculate_weighted_consensus(vec![zero, good, negative]).unwrap();
    assert_eq!(got.price, units(100));
    assert_eq!(got.confidence, Amount::Finite(50_000_000));
    assert_eq!(got.timestamp, 5);
}

#[test]
fn weighted_excludes_non_finite_values() {
    let nan_price = observation(Amount::NonFinite, Amount::Finite(50_000_000), 1, "a");
    let nan_width = observation(units(900), Amount::NonFinite, 2, "b");
    let good = observation(units(42), Amount::Finite(7), 3, "c");
    let got = Aggregator::calculate_weighted_consensus(vec![nan_price, nan_width, good]).unwrap();
    assert_eq!(got.price, units(42));
    assert_eq!(got.confidence, Amount::Finite(7));
    assert_eq!(got.timestamp, 3);
}

#[test]
fn weighted_without_valid_input_is_none() {
    assert!(Aggregator::calculate_weighted_consensus(vec![]).is_none());
    let zero = observation(units(1), Amount::Finite(0), 6, "zero");
    let nan = observation(Amount::NonFinite, Amount::Finite(1), 6, "nan");
    assert!(Aggregator::calculate_weighted_consensus(vec![zero, nan]).is_none());
}

#[test]
fn weighted_rounds_to_the_nearest_tick_with_negative_prices() {
    let a = observation(Amount::Finite(-7), Amount::Finite(3), 1, "a");
    let b = observation(Amount::Finite(2), Amount::Finite(7), 2, "b");
    let c = observation(Amount::Finite(5), Amount::Finite(3), 3, "c");
    let got = Aggregator::calculate_weighted_consensus(vec![a, b, c]).unwrap();
    assert_eq!(got.price, Amount::Finite(0));
    assert_eq!(got.confidence, Amount::Finite(4));
}

#[test]
fn weighted_mean_of_three() {
    let a = observation(units(10), units(1), 1, "a");
    let b = observation(units(20), units(1), 2, "b");
    let c = observation(units(40), units(2), 3, "c");
    let got = Aggregator::calculate_weighted_consensus(vec![a, b, c]).unwrap();
    assert_eq!(got.price, units(20));
    assert_eq!(got.confidence, Amount::Finite(1_200_000_000));
}

#[test]
fn weighted_handles_extreme_ticks() {
    let a = observation(Amount::Finite(i64::MAX), Amount::Finite(1), 1, "a");
    let b = observation(Amount::Finite(i64::MAX), Amount::Finite(i64::MAX), 2, "b");
    let c = observation(Amount::Finite(i64::MIN), Amount::Finite(i64::MAX), 3, "c");
    let got = Aggregator::calculate_weighted_consensus(vec![a, b, c]).unwrap();
    assert_eq!(got.price, Amount::Finite(9_223_372_036_854_775_805));
    assert_eq!(got.confidence, Amount::Finite(3));

    let low = observation(Amount::Finite(i64::MIN), Amount::Finite(1), 1, "low");
    let high = observation(Amount::Finite(i64::MAX), Amount::Finite(1), 2, "high");
    let got = Aggregator::calculate_weighted_consensus(vec![low, high]).unwrap();
    assert_eq!(got.price, Amount::Finite(0));
    assert_eq!(got.confidence, Amount::Finite(1));

    let floor = |width: i64| observation(Amount::Finite(i64::MIN), Amount::Finite(width), 1, "x");
    let got = Aggregator::calculate_weighted_consensus(vec![floor(3), floor(5), floor(7)]).unwrap();
    assert_eq!(got.price, Amount::Finite(i64::MIN));
    assert_eq!(got.confidence, Amount::Finite(4));

    let top = |width: i64| observation(Amount::Finite(i64::MAX), Amount::Finite(width), 1, "x");
    let inputs = vec![top(i64::MAX - 1), top(i64::MAX), top(i64::MAX - 2)];
    let got = Aggregator::calculate_weighted_consensus(inputs).unwrap();
    assert_eq!(got.price, Amount::Finite(i64::MAX));
    assert_eq!(got.confidence, Amount::Finite(9_223_372_036_854_775_806));
}

#[test]
fn weighted_mean_is_exact_where_it_is_a_whole_tick() {
    let a = observation(Amount::Finite(0), Amount::Finite(1), 1, "a");
    let b = observation(Amount::Finite(303), Amount::Finite(100), 2, "b");
    let got = Aggregator::calculate_weighted_consensus(vec![a, b]).unwrap();
    assert_eq!(got.price, Amount::Finite(3));
    assert_eq!(got.confidence, Amount::Finite(2));
}

#[test]
fn weighted_gives_every_valid_observation_its_weight() {
    let a = observation(Amount::Finite(0), Amount::Finite(1), 1, "a");
    let b = observation(Amount::Finite(10_000_000_000), Amount::Finite(5_000_000_000), 2, "b");
    let got = Aggregator::calculate_weighted_consensus(vec![a, b]).unwrap();
    assert_eq!(got.price, Amount::Finite(2));
    assert_eq!(got.confidence, Amount::Finite(2));
}

#[test]
fn weighted_takes_many_observations() {
    let mut inputs = Vec::new();
    for n in 0..200 {
        let width = Amount::Finite(1_000_000_007 + n);
        inputs.push(observation(Amount::Finite(1_000 + n % 3), width, n, "x"));
    }
    let got = Aggregator::calculate_weighted_consensus(inputs).unwrap();
    assert_eq!(got.price, Amount::Finite(1_001));
    assert_eq!(got.confidence, Amount::Finite(1_000_000_106));
    assert_eq!(got.timestamp, 0);
}

#[test]
fn median_of_odd_count() {
    let got = Aggregator::calculate_median(vec![priced(30), priced(10), priced(20)]).unwrap();
    assert_eq!(got.price, units(20));
    assert_eq!(got.source, "consensus");
    assert_eq!(got.symbol, "SOL");
}

#[test]
fn median_of_even_count() {
    let got = Aggregator::calculate_median(vec![priced(20), priced(10)]).unwrap();
    assert_eq!(got.price, units(15));
}

#[test]
fn median_copies_width_and_time_from_upper_middle() {
    let a = observation(units(10), Amount::Finite(1), 100, "a");
    let b = observation(units(20), Amount::Finite(2), 200, "b");
    let c = observation(units(30), Amount::Finite(3), 300, "c");
    let d = observation(units(40), Amount::Finite(4), 400, "d");
    let got = Aggregator::calculate_median(vec![d, b, a, c]).unwrap();
    assert_eq!(got.price, units(25));
    assert_eq!(got.confidence, Amount::Finite(3));
    assert_eq!(got.timestamp, 300);
}

#[test]
fn median_sort_is_stable() {
    let first = observation(units(10), Amount::Finite(1), 1, "first");
    let second = observation(units(10), Amount::Finite(2), 2, "second");
    let third = observation(units(10), Amount::Finite(3), 3, "third");
    let got = Aggregator::calculate_median(vec![first, second, third]).unwrap();
    assert_eq!(got.confidence, Amount::Finite(2));
    assert_eq!(got.timestamp, 2);
}

#[test]
fn median_ignores_what_a_source_says_of_itself() {
    let liar = observation(units(900), Amount::Finite(1), 9, "liar");
    let no_width = observation(units(20), Amount::Finite(0), 2, "b");
    let got = Aggregator::calculate_median(vec![priced(10), no_width, liar]).unwrap();
    assert_eq!(got.price, units(20));
    assert_eq!(got.confidence, Amount::Finite(0));
}

#[test]
fn median_drops_non_finite_prices() {
    let nan = observation(Amount::NonFinite, Amount::Finite(1), 1, "nan");
    let got = Aggregator::calculate_median(vec![nan.clone(), priced(7), nan.clone()]).unwrap();
    assert_eq!(got.price, units(7));
    assert!(Aggregator::calculate_median(vec![nan]).is_none());
    assert!(Aggregator::calculate_median(vec![]).is_none());
}

#[test]
fn median_rounds_down_between_ticks() {
    let a = observation(Amount::Finite(-4), Amount::Finite(1), 1, "a");
    let b = observation(Amount::Finite(1), Amount::Finite(1), 2, "b");
    let got = Aggregator::calculate_median(vec![a, b]).unwrap();
    assert_eq!(got.price, Amount::Finite(-2));
    let lo = observation(Amount::Finite(i64::MIN), Amount::Finite(1), 1, "lo");
    let hi = observation(Amount::Finite(i64::MAX), Amount::Finite(1), 2, "hi");
    let got = Aggregator::calculate_median(vec![hi, lo]).unwrap();
    assert_eq!(got.price, Amount::Finite(-1));
}

#[test]
fn calculate_follows_the_policy() {
    let inputs = || vec![
        observation(units(10), units(1), 1, "a"),
        observation(units(20), units(1), 2, "b"),
        observation(units(40), units(2), 3, "c"),
    ];
    let median = Aggregator::calculate(Policy::Median, inputs()).unwrap();
    let weighted = Aggregator::calculate(Policy::Weighted, inputs()).unwrap();
    assert_eq!(median.source, "consensus");
    assert_eq!(median.price, units(20));
    assert_eq!(weighted.source, "weighted_consensus");
    assert_eq!(weighted.confidence, Amount::Finite(1_200_000_000));
}

#[test]
fn eligible_positions_follow_the_policy() {
    let inputs = vec![
        observation(units(10), Amount::Finite(0), 1, "a"),
        observation(Amount::NonFinite, units(1), 2, "b"),
        observation(units(40), units(2), 3, "c"),
    ];
    assert_eq!(Aggregator::eligible_positions(&inputs, Policy::Median), vec![0, 2]);
    assert_eq!(Aggregator::eligible_positions(&inputs, Policy::Weighted), vec![2]);
}

#[test]
fn consensus_keeps_the_symbol_of_its_inputs() {
    let got = Aggregator::calculate_median(vec![priced(1), priced(2)]).unwrap();
    assert_eq!(got.symbol, "SOL");
    let got = Aggregator::calculate_weighted_consensus(vec![priced(1), priced(2)]).unwrap();
    assert_eq!(got.symbol, "SOL");
}
