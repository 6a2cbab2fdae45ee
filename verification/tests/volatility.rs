use crypto_trading::binance::api::KlineResp;
use crypto_trading::error::StrategyError;
use crypto_trading::fixed::SCALE;
use crypto_trading::strategy::volatility::{compute_true_range, VolatilityEstimator, WINDOW_SIZE};

fn candle(high: i64, low: i64, close: i64, close_time: i64) -> KlineResp {
    KlineResp {
        open_time: close_time - 86_399_999,
        open: low,
        high,
        low,
        close,
        volume: 0,
        close_time,
        quote_asset_vol: 0,
        num_trades: 0,
        taker_buy_base_asset_vol: 0,
        taker_buy_quote_asset_vol: 0,
    }
}

fn steady_seed(count: i64) -> Vec<KlineResp> {
    (0..count)
        .map(|i| candle((100 + i) * SCALE, (95 + i) * SCALE, (99 + i) * SCALE, (i + 1) * 86_400_000))
        .collect()
}

#[test]
fn true_range_is_the_span_when_the_close_lies_inside() {
    assert_eq!(compute_true_range(110, 100, 105), 10);
}

#[test]
fn true_range_is_the_gap_above_the_previous_close() {
    assert_eq!(compute_true_range(130, 125, 100), 30);
}

#[test]
fn true_range_is_the_gap_below_the_previous_close() {
    assert_eq!(compute_true_range(80, 70, 100), 30);
}

#[test]
fn true_range_of_the_widest_candle_does_not_overflow() {
    assert_eq!(compute_true_range(i64::MAX, i64::MIN, 0), (1i128 << 64) - 1);
}

#[test]
fn constant_true_range_seeds_n_with_that_range() {
    let seeded = VolatilityEstimator::initialize(&steady_seed(21)).unwrap();
    assert_eq!(seeded.n, 5 * SCALE);
    assert_eq!(seeded.prev_close, 119 * SCALE);
}

#[test]
fn seed_average_covers_the_first_twenty_candles_only() {
    let mut seed = steady_seed(20);
    // A wild last candle changes the previous close and nothing else.
    seed.push(candle(1000 * SCALE, 10 * SCALE, 500 * SCALE, 21 * 86_400_000));
    let seeded = VolatilityEstimator::initialize(&seed).unwrap();
    assert_eq!(seeded.n, 5 * SCALE);
    assert_eq!(seeded.prev_close, 500 * SCALE);
}

#[test]
fn seed_average_is_rounded_down() {
    let mut seed: Vec<KlineResp> = (0..21).map(|i| candle(100, 100, 100, i)).collect();
    seed[0] = candle(119, 100, 100, 0);
    // Twenty samples sum to 19, so the average is below one step.
    let seeded = VolatilityEstimator::initialize(&seed).unwrap();
    assert_eq!(seeded.n, 0);
}

#[test]
fn seed_of_twenty_candles_is_too_short_for_the_estimator() {
    assert_eq!(
        VolatilityEstimator::initialize(&steady_seed(WINDOW_SIZE as i64)),
        Err(StrategyError::InsufficientSeedData)
    );
    assert_eq!(VolatilityEstimator::initialize(&Vec::new()), Err(StrategyError::InsufficientSeedData));
}

#[test]
fn seed_volatility_beyond_the_range_is_refused() {
    let seed: Vec<KlineResp> = (0..21).map(|i| candle(i64::MAX, i64::MIN, 0, i)).collect();
    assert_eq!(VolatilityEstimator::initialize(&seed), Err(StrategyError::AmountOutOfRange));
}

#[test]
fn update_smooths_ten_and_thirty_to_eleven() {
    let mut estimator = VolatilityEstimator { n: 10 * SCALE, prev_close: 100 * SCALE };
    // The gap above the previous close is thirty.
    assert_eq!(estimator.update(130 * SCALE, 125 * SCALE, 128 * SCALE), Ok(()));
    assert_eq!(estimator.n, 11 * SCALE);
    assert_eq!(estimator.prev_close, 128 * SCALE);
}

#[test]
fn update_rounds_down() {
    let mut estimator = VolatilityEstimator { n: 1, prev_close: 0 };
    assert_eq!(estimator.update(0, 0, 7), Ok(()));
    // (19 * 1 + 0) / 20 is below one step.
    assert_eq!(estimator.n, 0);
    assert_eq!(estimator.prev_close, 7);
}

#[test]
fn update_never_forgets_the_past_entirely() {
    let mut estimator = VolatilityEstimator { n: 1000 * SCALE, prev_close: 50 * SCALE };
    for _ in 0..40 {
        assert_eq!(estimator.update(50 * SCALE, 50 * SCALE, 50 * SCALE), Ok(()));
    }
    assert!(estimator.n > 0);
    assert!(estimator.n < 1000 * SCALE);
}

#[test]
fn update_beyond_the_range_leaves_the_estimator_alone() {
    let mut estimator = VolatilityEstimator { n: i64::MAX, prev_close: 0 };
    assert_eq!(estimator.update(i64::MAX, i64::MIN, 5), Err(StrategyError::AmountOutOfRange));
    assert_eq!(estimator, VolatilityEstimator { n: i64::MAX, prev_close: 0 });
}
