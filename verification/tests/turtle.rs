use crypto_trading::binance::api::{KlineResp, OrderInput, OrderSide, OrderType};
use crypto_trading::error::StrategyError;
use crypto_trading::fixed::SCALE;
use crypto_trading::strategy::position::{PositionEntry, PositionSide};
use crypto_trading::strategy::turtle_trade::{Signal, Turtle, PERIOD_MS};
use crypto_trading::strategy::CandleStick;

const DAY: i64 = PERIOD_MS;

fn seed_candle(high: i64, low: i64, close: i64, close_time: i64) -> KlineResp {
    KlineResp {
        open_time: close_time - DAY + 1,
        open: close,
        high,
        low,
        close,
        volume: 0,
        close_time,
        quote_asset_vol: 0,
        num_trades: 0,
        taker_buy_base_asset_vol: 0,
        taker_buy_quote_asset_vol: 0,
    }
}

/// Highs from 100 by one a day, each low five below and each close one
/// below its high; the last close time is `count` days.
fn rising_seed(count: i64) -> Vec<KlineResp> {
    (0..count)
        .map(|i| seed_candle((100 + i) * SCALE, (95 + i) * SCALE, (99 + i) * SCALE, (i + 1) * DAY))
        .collect()
}

fn tick(high: i64, low: i64, close: i64, close_time: i64) -> CandleStick {
    CandleStick {
        symbol: String::from("BTCUSDT"),
        open_time: close_time - DAY + 1,
        open: close,
        high,
        low,
        close,
        volume: 0,
        close_time,
    }
}

fn quiet_tick(close: i64, close_time: i64) -> CandleStick {
    tick(close, close, close, close_time)
}

fn assert_market_order(order: &OrderInput, side: OrderSide, notional: i64, now: i64) {
    assert_eq!(order.symbol, "BTCUSDT");
    assert_eq!(order.side, side);
    assert_eq!(order.order_type, OrderType::Market);
    assert_eq!(order.time_in_force, None);
    assert_eq!(order.quantity, None);
    assert_eq!(order.quote_order_qty, Some(notional));
    assert_eq!(order.price, None);
    assert_eq!(order.stop_price, None);
    assert_eq!(order.iceberg_qty, None);
    assert_eq!(order.new_order_resp_type, None);
    assert_eq!(order.recv_window, None);
    assert_eq!(order.timestamp, now);
    let prefix = match side {
        OrderSide::Buy => "long_",
        OrderSide::Sell => "short_",
    };
    assert_eq!(order.new_client_order_id, format!("{}{}", prefix, now));
}

fn long_entries(engine: &Turtle) -> Vec<PositionEntry> {
    let book = engine.positions();
    (0..book.len(PositionSide::Long)).map(|i| book.entry(PositionSide::Long, i).unwrap()).collect()
}

fn short_entries(engine: &Turtle) -> Vec<PositionEntry> {
    let book = engine.positions();
    (0..book.len(PositionSide::Short)).map(|i| book.entry(PositionSide::Short, i).unwrap()).collect()
}

#[test]
fn construction_with_twenty_candles_fails() {
    let built = Turtle::new(rising_seed(20), 10_000 * SCALE, SCALE);
    assert!(matches!(built, Err(StrategyError::InsufficientSeedData)));
    assert!(matches!(Turtle::new(Vec::new(), 0, 0), Err(StrategyError::InsufficientSeedData)));
}

#[test]
fn construction_with_twenty_one_candles_succeeds() {
    let engine = Turtle::new(rising_seed(21), 10_000 * SCALE, SCALE).unwrap();
    assert_eq!(engine.n(), 5 * SCALE);
    assert_eq!(engine.prev_close(), 119 * SCALE);
    assert_eq!(engine.high_20(), 120 * SCALE);
    assert_eq!(engine.low_20(), 95 * SCALE);
    assert_eq!(engine.time_anchor(), 21 * DAY);
    assert_eq!(engine.initial_asset(), 10_119 * SCALE);
    assert_eq!(engine.usdt_balance(), 10_000 * SCALE);
    assert_eq!(engine.btc_balance(), SCALE);
    assert!(long_entries(&engine).is_empty());
    assert!(short_entries(&engine).is_empty());
}

#[test]
fn construction_beyond_the_range_fails() {
    let built = Turtle::new(rising_seed(21), i64::MAX, SCALE);
    assert!(matches!(built, Err(StrategyError::AmountOutOfRange)));
}

#[test]
fn breakout_above_the_rolling_high_buys_one_unit() {
    let mut engine = Turtle::new(rising_seed(21), 10_000 * SCALE, SCALE).unwrap();
    let now = 21 * DAY;
    let orders = engine.execute_at(tick(126 * SCALE, 119 * SCALE, 125 * SCALE, 22 * DAY), now).unwrap();
    // total = 125 * 1 + 10000 = 10125 and n = 5, so one unit is 2025.
    assert_eq!(orders.len(), 1);
    assert_market_order(&orders[0], OrderSide::Buy, 2025 * SCALE, now);
    assert_eq!(
        long_entries(&engine),
        vec![PositionEntry { unit_size: 2025 * SCALE, entry_price: 125 * SCALE }]
    );
    assert!(short_entries(&engine).is_empty());
    // The window did not roll: the statistics are those of the seed.
    assert_eq!(engine.n(), 5 * SCALE);
    assert_eq!(engine.high_20(), 120 * SCALE);
    assert_eq!(engine.time_anchor(), 21 * DAY);
}

#[test]
fn breakout_below_the_rolling_low_sells_one_unit() {
    let mut engine = Turtle::new(rising_seed(21), 10_000 * SCALE, SCALE).unwrap();
    let now = 21 * DAY;
    let orders = engine.execute_at(quiet_tick(90 * SCALE, 22 * DAY), now).unwrap();
    // total = 90 + 10000 = 10090 and n = 5, so one unit is 2018.
    assert_eq!(orders.len(), 1);
    assert_market_order(&orders[0], OrderSide::Sell, 2018 * SCALE, now);
    assert_eq!(
        short_entries(&engine),
        vec![PositionEntry { unit_size: 2018 * SCALE, entry_price: 90 * SCALE }]
    );
    assert!(long_entries(&engine).is_empty());
}

#[test]
fn close_inside_the_channel_holds() {
    let mut engine = Turtle::new(rising_seed(21), 10_000 * SCALE, SCALE).unwrap();
    let orders = engine.execute_at(quiet_tick(110 * SCALE, 22 * DAY), 21 * DAY).unwrap();
    assert!(orders.is_empty());
    assert_eq!(engine.decide(110 * SCALE), Ok(Signal::Hold));
    assert_eq!(engine.decide(120 * SCALE), Ok(Signal::Hold));
    assert_eq!(engine.decide(95 * SCALE), Ok(Signal::Hold));
}

#[test]
fn fifth_breakout_on_a_full_long_side_buys_nothing() {
    let mut engine = Turtle::new(rising_seed(21), 10_000 * SCALE, SCALE).unwrap();
    let now = 21 * DAY;
    for _ in 0..4 {
        let orders = engine.execute_at(quiet_tick(125 * SCALE, 22 * DAY), now).unwrap();
        assert_eq!(orders.len(), 1);
        assert_eq!(orders[0].side, OrderSide::Buy);
    }
    let held = long_entries(&engine);
    assert_eq!(held.len(), 4);
    let orders = engine.execute_at(quiet_tick(125 * SCALE, 22 * DAY), now).unwrap();
    assert!(orders.is_empty());
    assert_eq!(long_entries(&engine), held);
    assert_eq!(engine.decide(126 * SCALE), Ok(Signal::Hold));
}

#[test]
fn fifth_breakout_on_a_full_short_side_sells_nothing() {
    let mut engine = Turtle::new(rising_seed(21), 10_000 * SCALE, SCALE).unwrap();
    let now = 21 * DAY;
    for _ in 0..4 {
        let orders = engine.execute_at(quiet_tick(94 * SCALE, 22 * DAY), now).unwrap();
        assert_eq!(orders.len(), 1);
        assert_eq!(orders[0].side, OrderSide::Sell);
    }
    let held = short_entries(&engine);
    assert_eq!(held.len(), 4);
    let orders = engine.execute_at(quiet_tick(94 * SCALE, 22 * DAY), now).unwrap();
    assert!(orders.is_empty());
    assert_eq!(short_entries(&engine), held);
}

#[test]
fn profit_take_leaves_both_sides() {
    // One base unit and no quote currency: equity follows the price.
    let mut engine = Turtle::new(rising_seed(21), 0, SCALE).unwrap();
    let now = 21 * DAY;
    assert_eq!(engine.initial_asset(), 119 * SCALE);
    for _ in 0..4 {
        engine.execute_at(quiet_tick(125 * SCALE, 22 * DAY), now).unwrap();
    }
    // Each unit is 125 / 5 = 25.
    assert_eq!(long_entries(&engine).len(), 4);
    // 180 / 119 is above one and a half, and the long side is full.
    let orders = engine.execute_at(quiet_tick(180 * SCALE, 22 * DAY), now).unwrap();
    assert_eq!(orders.len(), 1);
    assert_market_order(&orders[0], OrderSide::Sell, 180 * 100 * SCALE, now);
    assert!(long_entries(&engine).is_empty());
    assert!(short_entries(&engine).is_empty());
    assert_eq!(engine.calc_total_asset(180 * SCALE), Ok(180 * SCALE));
    assert_eq!(
        engine.positions().mark_to_market(180 * SCALE, engine.usdt_balance(), engine.btc_balance()),
        Ok(180 * SCALE)
    );
}

#[test]
fn profit_take_with_entries_on_both_sides_asks_for_two_orders() {
    let mut engine = Turtle::new(rising_seed(21), 0, SCALE).unwrap();
    let now = 21 * DAY;
    // Four short entries at 90: equity is 90, so each unit is 18.
    for _ in 0..4 {
        engine.execute_at(quiet_tick(90 * SCALE, 22 * DAY), now).unwrap();
    }
    assert_eq!(
        short_entries(&engine),
        vec![PositionEntry { unit_size: 18 * SCALE, entry_price: 90 * SCALE }; 4]
    );
    // Four long entries at 125: equity is 125 + 4 * (125 - 90) * 18 = 2645,
    // so each unit is 529. The breakout goes before the profit target.
    for _ in 0..4 {
        let orders = engine.execute_at(quiet_tick(125 * SCALE, 22 * DAY), now).unwrap();
        assert_eq!(orders.len(), 1);
        assert_market_order(&orders[0], OrderSide::Buy, 529 * SCALE, now);
    }
    assert_eq!(
        engine.decide(125 * SCALE),
        Ok(Signal::TakeProfit {
            long_notional: Some(125 * 4 * 529 * SCALE),
            short_notional: Some(125 * 4 * 18 * SCALE),
        })
    );
    let orders = engine.execute_at(quiet_tick(125 * SCALE, 22 * DAY), now).unwrap();
    assert_eq!(orders.len(), 2);
    assert_market_order(&orders[0], OrderSide::Sell, 264_500 * SCALE, now);
    assert_market_order(&orders[1], OrderSide::Buy, 9_000 * SCALE, now);
    assert!(long_entries(&engine).is_empty());
    assert!(short_entries(&engine).is_empty());
    assert_eq!(engine.calc_total_asset(125 * SCALE), Ok(125 * SCALE));
}

#[test]
fn profit_take_with_short_entries_only_asks_for_one_buy() {
    let mut engine = Turtle::new(rising_seed(21), 0, SCALE).unwrap();
    let now = 21 * DAY;
    for _ in 0..4 {
        engine.execute_at(quiet_tick(90 * SCALE, 22 * DAY), now).unwrap();
    }
    // At 110 equity is 110 + 4 * 20 * 18 = 1550, far above 1.5 * 119.
    let orders = engine.execute_at(quiet_tick(110 * SCALE, 22 * DAY), now).unwrap();
    assert_eq!(orders.len(), 1);
    assert_market_order(&orders[0], OrderSide::Buy, 110 * 72 * SCALE, now);
    assert!(short_entries(&engine).is_empty());
    assert_eq!(engine.calc_total_asset(110 * SCALE), Ok(110 * SCALE));
}

#[test]
fn profit_target_is_not_reached_at_exactly_one_and_a_half() {
    // One base unit and nothing else: initial equity is the last close, 119.
    let mut engine = Turtle::new(rising_seed(21), 0, SCALE).unwrap();
    let now = 21 * DAY;
    // Fill the long side so that no breakout answers: four units of 25.
    for _ in 0..4 {
        engine.execute_at(quiet_tick(125 * SCALE, 22 * DAY), now).unwrap();
    }
    let exactly = 17_850_000_000;
    assert_eq!(engine.calc_total_asset(exactly), Ok(exactly));
    assert_eq!(engine.decide(exactly), Ok(Signal::Hold));
    assert_eq!(
        engine.decide(exactly + 1),
        Ok(Signal::TakeProfit { long_notional: Some(1_785_000_000_100), short_notional: None })
    );
}

#[test]
fn stop_loss_leaves_the_long_side() {
    let mut engine = Turtle::new(rising_seed(21), 10_000 * SCALE, SCALE).unwrap();
    let now = 21 * DAY;
    engine.execute_at(quiet_tick(125 * SCALE, 22 * DAY), now).unwrap();
    engine.execute_at(quiet_tick(130 * SCALE, 22 * DAY), now).unwrap();
    let units: i64 = long_entries(&engine).iter().map(|e| e.unit_size).sum();
    assert_eq!(units, (2025 + 2026) * SCALE);
    // 130 - 120 is not more than 2 * 5.
    assert!(engine.execute_at(quiet_tick(120 * SCALE, 22 * DAY), now).unwrap().is_empty());
    // 130 - 119 is.
    let orders = engine.execute_at(quiet_tick(119 * SCALE, 22 * DAY), now).unwrap();
    assert_eq!(orders.len(), 1);
    assert_market_order(&orders[0], OrderSide::Sell, 119 * units, now);
    assert!(long_entries(&engine).is_empty());
}

#[test]
fn stop_loss_leaves_the_short_side() {
    let mut engine = Turtle::new(rising_seed(21), 0, SCALE).unwrap();
    let now = 21 * DAY + 1;
    // The window rolls: the low of 30 joins the rolling low, and the true
    // range of 119 - 30 = 89 lifts n to (19 * 5 + 89) / 20 = 9.2.
    assert!(engine.execute_at(tick(41 * SCALE, 30 * SCALE, 40 * SCALE, 22 * DAY), now).unwrap().is_empty());
    assert_eq!(engine.low_20(), 30 * SCALE);
    assert_eq!(engine.high_20(), 120 * SCALE);
    assert_eq!(engine.n(), 920_000_000);
    // A close of 20 breaks below: equity is 20, one unit is 20 / 9.2.
    let orders = engine.execute_at(quiet_tick(20 * SCALE, 22 * DAY), now).unwrap();
    assert_market_order(&orders[0], OrderSide::Sell, 217_391_304, now);
    assert_eq!(
        short_entries(&engine),
        vec![PositionEntry { unit_size: 217_391_304, entry_price: 20 * SCALE }]
    );
    // 38 - 20 is not more than 2 * 9.2.
    assert!(engine.execute_at(quiet_tick(38 * SCALE, 22 * DAY), now).unwrap().is_empty());
    // 39 - 20 is.
    let orders = engine.execute_at(quiet_tick(39 * SCALE, 22 * DAY), now).unwrap();
    assert_eq!(orders.len(), 1);
    assert_market_order(&orders[0], OrderSide::Buy, 39 * 217_391_304, now);
    assert!(short_entries(&engine).is_empty());
}

#[test]
fn window_rolls_once_the_anchor_has_passed() {
    let mut engine = Turtle::new(rising_seed(21), 10_000 * SCALE, SCALE).unwrap();
    let now = 21 * DAY + 1;
    let orders = engine.execute_at(tick(126 * SCALE, 118 * SCALE, 125 * SCALE, 22 * DAY), now).unwrap();
    // The candle's own high has joined the rolling high, so its close is
    // no breakout.
    assert!(orders.is_empty());
    assert_eq!(engine.high_20(), 126 * SCALE);
    // The seed's low of time one day is twenty days and a moment old.
    assert_eq!(engine.low_20(), 118 * SCALE);
    // true range = max(8, 126 - 119, 119 - 118) = 8; n = (19 * 5 + 8) / 20.
    assert_eq!(engine.n(), 515_000_000);
    assert_eq!(engine.prev_close(), 125 * SCALE);
    assert_eq!(engine.time_anchor(), 22 * DAY);
    // A second tick at the same time does not roll again.
    engine.execute_at(tick(300 * SCALE, 1, 125 * SCALE, 22 * DAY), now).unwrap();
    assert_eq!(engine.high_20(), 126 * SCALE);
    assert_eq!(engine.n(), 515_000_000);
}

#[test]
fn roll_keeps_a_seed_point_that_is_exactly_twenty_periods_old() {
    let mut engine = Turtle::new(rising_seed(21), 10_000 * SCALE, SCALE).unwrap();
    // The seed's low was recorded at one day; the threshold is 21 - 20 days.
    let now = 21 * DAY + 1;
    engine.execute_at(tick(110 * SCALE, 100 * SCALE, 105 * SCALE, 22 * DAY), now - 1).unwrap();
    assert_eq!(engine.time_anchor(), 21 * DAY);
    let mut rolled = Turtle::new(rising_seed(21), 10_000 * SCALE, SCALE).unwrap();
    rolled.execute_at(tick(110 * SCALE, 100 * SCALE, 105 * SCALE, 22 * DAY), 21 * DAY + DAY).unwrap();
    // threshold = 2 days: the low of day one has left, the high of day 21 stays.
    assert_eq!(rolled.low_20(), 100 * SCALE);
    assert_eq!(rolled.high_20(), 120 * SCALE);
    assert_eq!(rolled.time_anchor(), 22 * DAY);
}

#[test]
fn flat_market_is_degenerate_volatility() {
    let seed: Vec<KlineResp> =
        (0..21).map(|i| seed_candle(100 * SCALE, 100 * SCALE, 100 * SCALE, (i + 1) * DAY)).collect();
    let mut engine = Turtle::new(seed, 10_000 * SCALE, SCALE).unwrap();
    assert_eq!(engine.n(), 0);
    let failed = engine.execute_at(quiet_tick(125 * SCALE, 22 * DAY), 21 * DAY);
    assert!(matches!(failed, Err(StrategyError::DegenerateVolatility)));
    assert!(long_entries(&engine).is_empty());
    // The statistics are still refreshed on a failing tick, so that the
    // engine recovers when prices move again.
    let failed = engine.execute_at(tick(140 * SCALE, 100 * SCALE, 120 * SCALE, 22 * DAY), 21 * DAY + 1);
    assert!(failed.is_ok());
    assert_eq!(engine.n(), 2 * SCALE);
    assert_eq!(engine.time_anchor(), 22 * DAY);
}

#[test]
fn tiny_volatility_that_blows_the_unit_up_is_degenerate() {
    let mut seed: Vec<KlineResp> =
        (0..21).map(|i| seed_candle(100 * SCALE, 100 * SCALE, 100 * SCALE, (i + 1) * DAY)).collect();
    seed[0] = seed_candle(100 * SCALE + 20, 100 * SCALE, 100 * SCALE, DAY);
    let mut engine = Turtle::new(seed, i64::MAX / 2, 0).unwrap();
    assert_eq!(engine.n(), 1);
    let failed = engine.execute_at(quiet_tick(125 * SCALE, 22 * DAY), 21 * DAY);
    assert!(matches!(failed, Err(StrategyError::DegenerateVolatility)));
}

#[test]
fn equity_beyond_the_range_fails_the_tick() {
    let mut engine = Turtle::new(rising_seed(21), i64::MAX - 200 * SCALE, SCALE).unwrap();
    let failed = engine.execute_at(quiet_tick(300 * SCALE, 22 * DAY), 21 * DAY);
    assert!(matches!(failed, Err(StrategyError::AmountOutOfRange)));
    assert!(long_entries(&engine).is_empty());
}

#[test]
fn same_candle_twice_enters_twice() {
    let mut engine = Turtle::new(rising_seed(21), 10_000 * SCALE, SCALE).unwrap();
    let now = 21 * DAY;
    engine.execute_at(quiet_tick(125 * SCALE, 22 * DAY), now).unwrap();
    engine.execute_at(quiet_tick(125 * SCALE, 22 * DAY), now).unwrap();
    assert_eq!(
        long_entries(&engine),
        vec![
            PositionEntry { unit_size: 2025 * SCALE, entry_price: 125 * SCALE },
            PositionEntry { unit_size: 2025 * SCALE, entry_price: 125 * SCALE },
        ]
    );
}

#[test]
fn buy_and_sell_orders_carry_their_ids() {
    let buy = Turtle::buy_order(String::from("BTCUSDT"), 7, 1_600_000_000_123);
    assert_market_order(&buy, OrderSide::Buy, 7, 1_600_000_000_123);
    assert_eq!(buy.new_client_order_id, "long_1600000000123");
    let sell = Turtle::sell_order(String::from("BTCUSDT"), 9, -5);
    assert_market_order(&sell, OrderSide::Sell, 9, -5);
    assert_eq!(sell.new_client_order_id, "short_-5");
}

#[test]
fn execute_by_the_wall_clock_does_not_roll_before_the_anchor() {
    // Close times a thousand years ahead: the wall clock has not passed
    // the anchor, so the tick sees the seed's statistics.
    let ahead: i64 = 40_000_000_000_000;
    let seed: Vec<KlineResp> = (0..21)
        .map(|i| seed_candle((100 + i) * SCALE, (95 + i) * SCALE, (99 + i) * SCALE, ahead + i * DAY))
        .collect();
    let mut engine = Turtle::new(seed, 10_000 * SCALE, SCALE).unwrap();
    let orders = engine.execute(quiet_tick(125 * SCALE, ahead + 21 * DAY)).unwrap();
    assert_eq!(orders.len(), 1);
    assert_eq!(orders[0].side, OrderSide::Buy);
    assert_eq!(orders[0].quote_order_qty, Some(2025 * SCALE));
    assert!(orders[0].timestamp > 1_600_000_000_000);
    assert!(orders[0].timestamp < ahead);
    assert_eq!(orders[0].new_client_order_id, format!("long_{}", orders[0].timestamp));
    assert_eq!(engine.time_anchor(), ahead + 20 * DAY);
}

#[test]
fn execute_by_the_wall_clock_rolls_after_the_anchor() {
    let mut engine = Turtle::new(rising_seed(21), 10_000 * SCALE, SCALE).unwrap();
    let orders = engine.execute(tick(126 * SCALE, 118 * SCALE, 125 * SCALE, 22 * DAY)).unwrap();
    assert!(orders.is_empty());
    assert_eq!(engine.time_anchor(), 22 * DAY);
    // Every seed point is far older than twenty days by now.
    assert_eq!(engine.high_20(), 126 * SCALE);
    assert_eq!(engine.low_20(), 118 * SCALE);
}
