use crate::binance::api::{KlineResp, OrderInput, OrderSide, OrderType};
use crate::error::StrategyError;
use crate::fixed::{checked_div, div_floor, mul_floor, representable, wide_mul};
use crate::shared::utils::get_timestamp;
use crate::strategy::extremum::{
    after_evict, after_update, is_first_extremum, lemma_evict_keeps_order,
    lemma_update_keeps_order, ordered, ExtremumKind, ExtremumPoint, RollingExtremumTracker,
};
use crate::strategy::position::{
    equity, exit_notional, PositionEntry, PositionManager, PositionSide, MAX_ENTRIES,
};
use crate::strategy::volatility::{
    lemma_constant_seed, seed_sample, seed_volatility, smoothed, true_range, VolatilityEstimator,
    WINDOW_SIZE,
};
use crate::strategy::CandleStick;
use crate::text::{integer_text, integer_to_string};
use vstd::prelude::*;
use vstd::string::StringExecFns;

verus! {

/// Length of one period in milliseconds: a day.
pub const PERIOD_MS: i64 = 86_400_000;

/// Everything the engine remembers between two ticks.
pub struct TurtleState {
    /// Smoothed average true range.
    pub n: i64,
    /// Close against which the next true range is measured.
    pub prev_close: i64,
    /// Deque of the rolling high, front first.
    pub highs: Seq<ExtremumPoint>,
    /// Deque of the rolling low, front first.
    pub lows: Seq<ExtremumPoint>,
    /// Time after which the window rolls next.
    pub time_anchor: i64,
    /// Equity at construction.
    pub initial_asset: i64,
    pub usdt_balance: i64,
    pub btc_balance: i64,
    /// Open long entries, oldest first.
    pub longs: Seq<PositionEntry>,
    /// Open short entries, oldest first.
    pub shorts: Seq<PositionEntry>,
}

/// What the rules decide on a tick.
#[derive(Clone, Copy, Debug, PartialEq, Eq, Structural)]
pub enum Signal {
    /// The close broke above the rolling high: buy one unit.
    EnterLong { unit: i64 },
    /// The close broke below the rolling low: sell one unit.
    EnterShort { unit: i64 },
    /// Equity passed the profit target: leave every side that holds
    /// entries, for what it is worth.
    TakeProfit { long_notional: Option<i64>, short_notional: Option<i64> },
    /// The close fell too far below the last long entry: leave the long side.
    StopLong { notional: i64 },
    /// The close rose too far above the last short entry: leave the short side.
    StopShort { notional: i64 },
    /// No rule matched.
    Hold,
}

/// What holds of the state between ticks.
pub open spec fn valid(s: TurtleState) -> bool {
    &&& s.highs.len() > 0
    &&& s.lows.len() > 0
    &&& ordered(ExtremumKind::Highest, s.highs)
    &&& ordered(ExtremumKind::Lowest, s.lows)
    &&& s.longs.len() <= MAX_ENTRIES
    &&& s.shorts.len() <= MAX_ENTRIES
}

/// The high of a seed candle as a point of the rolling high.
pub open spec fn high_points(candles: Seq<KlineResp>) -> Seq<ExtremumPoint> {
    Seq::new(
        candles.len(),
        |i: int| ExtremumPoint { value: candles[i].high, timestamp: candles[i].close_time },
    )
}

/// The low of a seed candle as a point of the rolling low.
pub open spec fn low_points(candles: Seq<KlineResp>) -> Seq<ExtremumPoint> {
    Seq::new(
        candles.len(),
        |i: int| ExtremumPoint { value: candles[i].low, timestamp: candles[i].close_time },
    )
}

/// Equity that a seed starts with: the base balance at the last close plus
/// the quote balance.
pub open spec fn seed_asset(candles: Seq<KlineResp>, usdt_balance: int, btc_balance: int) -> int {
    mul_floor(candles.last().close as int, btc_balance) + usdt_balance
}

/// Whether `s` is the state that a seed of more than twenty candles and two
/// balances start the engine in.
pub open spec fn seeded(
    s: TurtleState,
    candles: Seq<KlineResp>,
    usdt_balance: i64,
    btc_balance: i64,
) -> bool {
    &&& s.n == seed_volatility(candles)
    &&& s.prev_close == candles.last().close
    &&& exists|i: int| #[trigger]
        is_first_extremum(ExtremumKind::Highest, high_points(candles), i) && s.highs
            == seq![high_points(candles)[i]]
    &&& exists|i: int| #[trigger]
        is_first_extremum(ExtremumKind::Lowest, low_points(candles), i) && s.lows
            == seq![low_points(candles)[i]]
    &&& s.time_anchor == candles.last().close_time
    &&& s.initial_asset == seed_asset(candles, usdt_balance as int, btc_balance as int)
    &&& s.usdt_balance == usdt_balance
    &&& s.btc_balance == btc_balance
    &&& s.longs == Seq::<PositionEntry>::empty()
    &&& s.shorts == Seq::<PositionEntry>::empty()
}

/// The time before which a point has left the window at `now`: twenty
/// periods earlier, or the earliest time there is.
pub open spec fn window_start(now: int) -> int {
    if now - WINDOW_SIZE * PERIOD_MS < i64::MIN {
        i64::MIN as int
    } else {
        now - WINDOW_SIZE * PERIOD_MS
    }
}

/// The anchor one period later, or the latest time there is.
pub open spec fn advanced(anchor: int) -> int {
    if anchor + PERIOD_MS > i64::MAX {
        i64::MAX as int
    } else {
        anchor + PERIOD_MS
    }
}

/// Whether the window rolls at `now`.
pub open spec fn refresh_due(s: TurtleState, now: i64) -> bool {
    now > s.time_anchor
}

/// Whether the volatility after this candle can be stored.
pub open spec fn refresh_fits(s: TurtleState, candle: CandleStick) -> bool {
    representable(
        smoothed(
            s.n as int,
            true_range(candle.high as int, candle.low as int, s.prev_close as int),
        ),
    )
}

/// The state after the window has rolled: expired points have left both
/// deques, the candle's high and low have joined them, the volatility has
/// taken in the candle, and the anchor stands one period later.
pub open spec fn refreshed(s: TurtleState, candle: CandleStick, now: i64) -> TurtleState {
    TurtleState {
        n: smoothed(
            s.n as int,
            true_range(candle.high as int, candle.low as int, s.prev_close as int),
        ) as i64,
        prev_close: candle.close,
        highs: after_update(
            ExtremumKind::Highest,
            after_evict(s.highs, window_start(now as int)),
            ExtremumPoint { value: candle.high, timestamp: candle.close_time },
        ),
        lows: after_update(
            ExtremumKind::Lowest,
            after_evict(s.lows, window_start(now as int)),
            ExtremumPoint { value: candle.low, timestamp: candle.close_time },
        ),
        time_anchor: advanced(s.time_anchor as int) as i64,
        ..s
    }
}

/// The statistics that the rules of a tick see: refreshed when the window
/// rolls and the new volatility can be stored, unchanged otherwise.
pub open spec fn observed(s: TurtleState, candle: CandleStick, now: i64) -> TurtleState {
    if refresh_due(s, now) && refresh_fits(s, candle) {
        refreshed(s, candle, now)
    } else {
        s
    }
}

/// Whether equity stands at more than one and a half times the initial
/// equity. With no initial equity any gain counts.
pub open spec fn exceeds_profit_target(total: int, initial: int) -> bool {
    if initial > 0 {
        2 * total > 3 * initial
    } else if initial < 0 {
        2 * total < 3 * initial
    } else {
        total > 0
    }
}

/// What leaving a side is worth at `close`, when the side holds entries.
pub open spec fn side_notional(close: i64, entries: Seq<PositionEntry>) -> Option<i64> {
    if entries.len() > 0 {
        Some(exit_notional(close as int, entries) as i64)
    } else {
        None
    }
}

/// The rules, in their order of priority, on the statistics `s` and the
/// close of the tick. The first rule that matches decides.
pub open spec fn decision(s: TurtleState, close: i64) -> Result<Signal, StrategyError> {
    let total = equity(close as int, s.usdt_balance as int, s.btc_balance as int, s.shorts);
    if !representable(total) {
        Err(StrategyError::AmountOutOfRange)
    } else if s.n <= 0 || !representable(div_floor(total, s.n as int)) {
        Err(StrategyError::DegenerateVolatility)
    } else if close > s.highs[0].value && s.longs.len() < MAX_ENTRIES {
        Ok(Signal::EnterLong { unit: div_floor(total, s.n as int) as i64 })
    } else if close < s.lows[0].value && s.shorts.len() < MAX_ENTRIES {
        Ok(Signal::EnterShort { unit: div_floor(total, s.n as int) as i64 })
    } else if exceeds_profit_target(total, s.initial_asset as int) {
        if representable(exit_notional(close as int, s.longs)) && representable(
            exit_notional(close as int, s.shorts),
        ) {
            Ok(
                Signal::TakeProfit {
                    long_notional: side_notional(close, s.longs),
                    short_notional: side_notional(close, s.shorts),
                },
            )
        } else {
            Err(StrategyError::AmountOutOfRange)
        }
    } else if s.longs.len() > 0 && s.longs.last().entry_price - close > 2 * s.n {
        if representable(exit_notional(close as int, s.longs)) {
            Ok(Signal::StopLong { notional: exit_notional(close as int, s.longs) as i64 })
        } else {
            Err(StrategyError::AmountOutOfRange)
        }
    } else if s.shorts.len() > 0 && close - s.shorts.last().entry_price > 2 * s.n {
        if representable(exit_notional(close as int, s.shorts)) {
            Ok(Signal::StopShort { notional: exit_notional(close as int, s.shorts) as i64 })
        } else {
            Err(StrategyError::AmountOutOfRange)
        }
    } else {
        Ok(Signal::Hold)
    }
}

/// The state after a signal has been carried out at `close`.
pub open spec fn applied(s: TurtleState, signal: Signal, close: i64) -> TurtleState {
    match signal {
        Signal::EnterLong { unit } => TurtleState {
            longs: s.longs.push(PositionEntry { unit_size: unit, entry_price: close }),
            ..s
        },
        Signal::EnterShort { unit } => TurtleState {
            shorts: s.shorts.push(PositionEntry { unit_size: unit, entry_price: close }),
            ..s
        },
        Signal::TakeProfit { .. } => TurtleState {
            longs: Seq::empty(),
            shorts: Seq::empty(),
            ..s
        },
        Signal::StopLong { .. } => TurtleState { longs: Seq::empty(), ..s },
        Signal::StopShort { .. } => TurtleState { shorts: Seq::empty(), ..s },
        Signal::Hold => s,
    }
}

/// The orders that a signal asks for, each as its side and its notional in
/// quote currency.
pub open spec fn intents(signal: Signal) -> Seq<(OrderSide, i64)> {
    match signal {
        Signal::EnterLong { unit } => seq![(OrderSide::Buy, unit)],
        Signal::EnterShort { unit } => seq![(OrderSide::Sell, unit)],
        Signal::TakeProfit { long_notional, short_notional } => {
            let sells = match long_notional {
                Some(notional) => seq![(OrderSide::Sell, notional)],
                None => Seq::empty(),
            };
            let buys = match short_notional {
                Some(notional) => seq![(OrderSide::Buy, notional)],
                None => Seq::empty(),
            };
            sells + buys
        },
        Signal::StopLong { notional } => seq![(OrderSide::Sell, notional)],
        Signal::StopShort { notional } => seq![(OrderSide::Buy, notional)],
        Signal::Hold => Seq::empty(),
    }
}

/// What a tick decides: the failure of a refresh that cannot be stored, or
/// the decision of the rules on the statistics of the tick.
pub open spec fn tick_signal(s: TurtleState, candle: CandleStick, now: i64) -> Result<
    Signal,
    StrategyError,
> {
    if refresh_due(s, now) && !refresh_fits(s, candle) {
        Err(StrategyError::AmountOutOfRange)
    } else {
        decision(observed(s, candle, now), candle.close)
    }
}

/// The state after a tick. A tick that fails keeps the refreshed
/// statistics and leaves the entries alone.
pub open spec fn tick_state(s: TurtleState, candle: CandleStick, now: i64) -> TurtleState {
    match tick_signal(s, candle, now) {
        Ok(signal) => applied(observed(s, candle, now), signal, candle.close),
        Err(_) => observed(s, candle, now),
    }
}

/// The client order id of an order placed at `now`.
pub open spec fn order_id(side: OrderSide, now: i64) -> Seq<char> {
    match side {
        OrderSide::Buy => "long_"@ + integer_text(now as int),
        OrderSide::Sell => "short_"@ + integer_text(now as int),
    }
}

/// Whether `order` is the market order for `notional` of quote currency on
/// `side`, for `symbol`, placed at `now`.
pub open spec fn is_market_order(
    order: OrderInput,
    symbol: Seq<char>,
    side: OrderSide,
    notional: i64,
    now: i64,
) -> bool {
    &&& order.symbol@ == symbol
    &&& order.side == side
    &&& order.order_type == OrderType::Market
    &&& order.time_in_force is None
    &&& order.quantity is None
    &&& order.quote_order_qty == Some(notional)
    &&& order.price is None
    &&& order.new_client_order_id@ == order_id(side, now)
    &&& order.stop_price is None
    &&& order.iceberg_qty is None
    &&& order.new_order_resp_type is None
    &&& order.recv_window is None
    &&& order.timestamp == now
}

/// Whether `orders` are the market orders that `wanted` asks for, in order.
pub open spec fn carries(
    orders: Seq<OrderInput>,
    wanted: Seq<(OrderSide, i64)>,
    symbol: Seq<char>,
    now: i64,
) -> bool {
    &&& orders.len() == wanted.len()
    &&& forall|i: int|
        0 <= i < orders.len() ==> is_market_order(
            #[trigger] orders[i],
            symbol,
            wanted[i].0,
            wanted[i].1,
            now,
        )
}

/// The outcome of a tick at `now`, as the caller sees it.
pub open spec fn tick_outcome(
    before: TurtleState,
    candle: CandleStick,
    now: i64,
    after: TurtleState,
    orders: Result<Vec<OrderInput>, StrategyError>,
) -> bool {
    &&& after == tick_state(before, candle, now)
    &&& match tick_signal(before, candle, now) {
        Ok(signal) => orders is Ok && carries(orders->Ok_0@, intents(signal), candle.symbol@, now),
        Err(e) => orders is Err && orders->Err_0 == e,
    }
}

/// The strategy engine: it follows the rolling high and low, the smoothed
/// true range and the open entries, and turns each candle into orders.
pub struct Turtle {
    volatility: VolatilityEstimator,
    high_20: RollingExtremumTracker,
    low_20: RollingExtremumTracker,
    time_anchor: i64,
    initial_asset: i64,
    usdt_balance: i64,
    btc_balance: i64,
    positions: PositionManager,
}

impl View for Turtle {
    type V = TurtleState;

    closed spec fn view(&self) -> TurtleState {
        TurtleState {
            n: self.volatility.n,
            prev_close: self.volatility.prev_close,
            highs: self.high_20@,
            lows: self.low_20@,
            time_anchor: self.time_anchor,
            initial_asset: self.initial_asset,
            usdt_balance: self.usdt_balance,
            btc_balance: self.btc_balance,
            longs: self.positions.entries(PositionSide::Long),
            shorts: self.positions.entries(PositionSide::Short),
        }
    }
}

impl Turtle {
    /// The invariant of the engine; it implies [`valid`] of the view.
    pub closed spec fn wf(&self) -> bool {
        &&& self.high_20.wf()
        &&& self.low_20.wf()
        &&& self.high_20.spec_kind() == ExtremumKind::Highest
        &&& self.low_20.spec_kind() == ExtremumKind::Lowest
        &&& self.positions.wf()
        &&& valid(self@)
    }

    /// A well-formed engine has a valid state.
    pub proof fn lemma_wf_is_valid(&self)
        requires
            self.wf(),
        ensures
            valid(self@),
    {
    }

    /// Builds the engine from a seed of candles and the two balances. More
    /// than twenty candles are needed; the starting volatility and the
    /// starting equity must fit the range of an amount.
    pub fn new(candles: Vec<KlineResp>, usdt_balance: i64, btc_balance: i64) -> (built: Result<
        Self,
        StrategyError,
    >)
        ensures
            candles.len() <= WINDOW_SIZE <==> built is Err && built->Err_0
                == StrategyError::InsufficientSeedData,
            candles.len() > WINDOW_SIZE && !(representable(seed_volatility(candles@))
                && representable(seed_asset(candles@, usdt_balance as int, btc_balance as int)))
                <==> built is Err && built->Err_0 == StrategyError::AmountOutOfRange,
            candles.len() > WINDOW_SIZE && representable(seed_volatility(candles@))
                && representable(seed_asset(candles@, usdt_balance as int, btc_balance as int))
                ==> built is Ok,
            built matches Ok(engine) ==> engine.wf() && seeded(
                engine@,
                candles@,
                usdt_balance,
                btc_balance,
            ),
    {
        let volatility = match VolatilityEstimator::initialize(&candles) {
            Ok(volatility) => volatility,
            Err(e) => {
                return Err(e);
            },
        };
        let last: KlineResp = candles[candles.len() - 1];
        let wide_asset: i128 = wide_mul(last.close, btc_balance) + usdt_balance as i128;
        if wide_asset < i64::MIN as i128 || wide_asset > i64::MAX as i128 {
            return Err(StrategyError::AmountOutOfRange);
        }
        let initial_asset: i64 = wide_asset as i64;
        let mut highs: Vec<ExtremumPoint> = Vec::new();
        let mut lows: Vec<ExtremumPoint> = Vec::new();
        let mut i: usize = 0;
        while i < candles.len()
            invariant
                0 <= i <= candles.len(),
                highs@ == high_points(candles@).take(i as int),
                lows@ == low_points(candles@).take(i as int),
            decreases candles.len() - i,
        {
            highs.push(ExtremumPoint { value: candles[i].high, timestamp: candles[i].close_time });
            lows.push(ExtremumPoint { value: candles[i].low, timestamp: candles[i].close_time });
            i = i + 1;
            assert(highs@ == high_points(candles@).take(i as int));
            assert(lows@ == low_points(candles@).take(i as int));
        }
        assert(highs@ == high_points(candles@));
        assert(lows@ == low_points(candles@));
        let high_20 = RollingExtremumTracker::initialize(ExtremumKind::Highest, &highs);
        let low_20 = RollingExtremumTracker::initialize(ExtremumKind::Lowest, &lows);
        let engine = Turtle {
            volatility,
            high_20,
            low_20,
            time_anchor: last.close_time,
            initial_asset,
            usdt_balance,
            btc_balance,
            positions: PositionManager::new(),
        };
        proof {
            let at_high = choose|i: int|
                is_first_extremum(ExtremumKind::Highest, highs@, i) && high_20@[0] == highs@[i];
            assert(is_first_extremum(ExtremumKind::Highest, high_points(candles@), at_high));
            assert(engine@.highs =~= seq![high_points(candles@)[at_high]]);
            let at_low = choose|i: int|
                is_first_extremum(ExtremumKind::Lowest, lows@, i) && low_20@[0] == lows@[i];
            assert(is_first_extremum(ExtremumKind::Lowest, low_points(candles@), at_low));
            assert(engine@.lows =~= seq![low_points(candles@)[at_low]]);
        }
        Ok(engine)
    }

    /// Smoothed average true range.
    pub fn n(&self) -> (n: i64)
        ensures
            n == self@.n,
    {
        self.volatility.n
    }

    /// Close against which the next true range is measured.
    pub fn prev_close(&self) -> (close: i64)
        ensures
            close == self@.prev_close,
    {
        self.volatility.prev_close
    }

    /// Time after which the window rolls next.
    pub fn time_anchor(&self) -> (anchor: i64)
        ensures
            anchor == self@.time_anchor,
    {
        self.time_anchor
    }

    /// Equity at construction.
    pub fn initial_asset(&self) -> (asset: i64)
        ensures
            asset == self@.initial_asset,
    {
        self.initial_asset
    }

    pub fn usdt_balance(&self) -> (balance: i64)
        ensures
            balance == self@.usdt_balance,
    {
        self.usdt_balance
    }

    pub fn btc_balance(&self) -> (balance: i64)
        ensures
            balance == self@.btc_balance,
    {
        self.btc_balance
    }

    /// The rolling high.
    pub fn high_20(&self) -> (high: i64)
        requires
            self.wf(),
        ensures
            high == self@.highs[0].value,
    {
        self.high_20.current()
    }

    /// The rolling low.
    pub fn low_20(&self) -> (low: i64)
        requires
            self.wf(),
        ensures
            low == self@.lows[0].value,
    {
        self.low_20.current()
    }

    /// The open entries.
    pub fn positions(&self) -> (book: &PositionManager)
        ensures
            book.entries(PositionSide::Long) == self@.longs,
            book.entries(PositionSide::Short) == self@.shorts,
            self.wf() ==> book.wf(),
    {
        &self.positions
    }

    /// Equity in quote currency at `curr_price`.
    pub fn calc_total_asset(&self, curr_price: i64) -> (total: Result<i64, StrategyError>)
        requires
            self.wf(),
        ensures
            total == if representable(
                equity(
                    curr_price as int,
                    self@.usdt_balance as int,
                    self@.btc_balance as int,
                    self@.shorts,
                ),
            ) {
                Ok::<i64, StrategyError>(
                    equity(
                        curr_price as int,
                        self@.usdt_balance as int,
                        self@.btc_balance as int,
                        self@.shorts,
                    ) as i64,
                )
            } else {
                Err::<i64, StrategyError>(StrategyError::AmountOutOfRange)
            },
    {
        self.positions.mark_to_market(curr_price, self.usdt_balance, self.btc_balance)
    }

    /// A market buy for `unit` of quote currency, placed at `now`.
    pub fn buy_order(symbol: String, unit: i64, now: i64) -> (order: OrderInput)
        ensures
            is_market_order(order, symbol@, OrderSide::Buy, unit, now),
    {
        let order_id: String = String::from_str("long_").concat(integer_to_string(now).as_str());
        OrderInput {
            symbol,
            side: OrderSide::Buy,
            order_type: OrderType::Market,
            time_in_force: None,
            quantity: None,
            quote_order_qty: Some(unit),
            price: None,
            new_client_order_id: order_id,
            stop_price: None,
            iceberg_qty: None,
            new_order_resp_type: None,
            recv_window: None,
            timestamp: now,
        }
    }

    /// A market sell for `unit` of quote currency, placed at `now`.
    pub fn sell_order(symbol: String, unit: i64, now: i64) -> (order: OrderInput)
        ensures
            is_market_order(order, symbol@, OrderSide::Sell, unit, now),
    {
        let order_id: String = String::from_str("short_").concat(integer_to_string(now).as_str());
        OrderInput {
            symbol,
            side: OrderSide::Sell,
            order_type: OrderType::Market,
            time_in_force: None,
            quantity: None,
            quote_order_qty: Some(unit),
            price: None,
            new_client_order_id: order_id,
            stop_price: None,
            iceberg_qty: None,
            new_order_resp_type: None,
            recv_window: None,
            timestamp: now,
        }
    }

    /// Leaves the long side and returns the sell order for what it is worth.
    /// When the worth cannot be stored the engine is left as it was.
    fn exit_long(&mut self, symbol: String, curr_price: i64, now: i64) -> (order: Result<
        OrderInput,
        StrategyError,
    >)
        requires
            old(self).wf(),
        ensures
            final(self).wf(),
            representable(exit_notional(curr_price as int, old(self)@.longs)) ==> order is Ok
                && is_market_order(
                order->Ok_0,
                symbol@,
                OrderSide::Sell,
                exit_notional(curr_price as int, old(self)@.longs) as i64,
                now,
            ) && final(self)@ == (TurtleState { longs: Seq::empty(), ..old(self)@ }),
            !representable(exit_notional(curr_price as int, old(self)@.longs)) ==> order is Err
                && order->Err_0 == StrategyError::AmountOutOfRange && final(self)@ == old(self)@,
    {
        match self.positions.exit(PositionSide::Long, curr_price) {
            Ok(total_long_amount) => Ok(Turtle::sell_order(symbol, total_long_amount, now)),
            Err(e) => Err(e),
        }
    }

    /// Leaves the short side and returns the buy order for what it is worth.
    /// When the worth cannot be stored the engine is left as it was.
    fn exit_short(&mut self, symbol: String, curr_price: i64, now: i64) -> (order: Result<
        OrderInput,
        StrategyError,
    >)
        requires
            old(self).wf(),
        ensures
            final(self).wf(),
            representable(exit_notional(curr_price as int, old(self)@.shorts)) ==> order is Ok
                && is_market_order(
                order->Ok_0,
                symbol@,
                OrderSide::Buy,
                exit_notional(curr_price as int, old(self)@.shorts) as i64,
                now,
            ) && final(self)@ == (TurtleState { shorts: Seq::empty(), ..old(self)@ }),
            !representable(exit_notional(curr_price as int, old(self)@.shorts)) ==> order is Err
                && order->Err_0 == StrategyError::AmountOutOfRange && final(self)@ == old(self)@,
    {
        match self.positions.exit(PositionSide::Short, curr_price) {
            Ok(total_short_amount) => Ok(Turtle::buy_order(symbol, total_short_amount, now)),
            Err(e) => Err(e),
        }
    }

    /// Lets a new high into the rolling high, which may be empty.
    fn update_high(&mut self, val: i64, timestamp: i64)
        requires
            old(self).high_20.wf(),
        ensures
            final(self).high_20.wf(),
            final(self).high_20.spec_kind() == old(self).high_20.spec_kind(),
            final(self)@ == (TurtleState {
                highs: after_update(
                    old(self).high_20.spec_kind(),
                    old(self)@.highs,
                    ExtremumPoint { value: val, timestamp },
                ),
                ..old(self)@
            }),
            final(self).low_20 == old(self).low_20,
            final(self).positions == old(self).positions,
    {
        self.high_20.update(val, timestamp);
    }

    /// Lets a new low into the rolling low, which may be empty.
    fn update_low(&mut self, val: i64, timestamp: i64)
        requires
            old(self).low_20.wf(),
        ensures
            final(self).low_20.wf(),
            final(self).low_20.spec_kind() == old(self).low_20.spec_kind(),
            final(self)@ == (TurtleState {
                lows: after_update(
                    old(self).low_20.spec_kind(),
                    old(self)@.lows,
                    ExtremumPoint { value: val, timestamp },
                ),
                ..old(self)@
            }),
            final(self).high_20 == old(self).high_20,
            final(self).positions == old(self).positions,
    {
        self.low_20.update(val, timestamp);
    }

    /// Drops from both deques the points that have left the window at
    /// `now`. Both deques may be empty afterwards.
    fn pop_old_high_low(&mut self, now: i64)
        requires
            old(self).high_20.wf(),
            old(self).low_20.wf(),
        ensures
            final(self).high_20.wf(),
            final(self).low_20.wf(),
            final(self).high_20.spec_kind() == old(self).high_20.spec_kind(),
            final(self).low_20.spec_kind() == old(self).low_20.spec_kind(),
            final(self)@ == (TurtleState {
                highs: after_evict(old(self)@.highs, window_start(now as int)),
                lows: after_evict(old(self)@.lows, window_start(now as int)),
                ..old(self)@
            }),
            final(self).positions == old(self).positions,
    {
        assert(WINDOW_SIZE * PERIOD_MS == 1_728_000_000) by (nonlinear_arith)
            requires
                WINDOW_SIZE == 20,
                PERIOD_MS == 86_400_000,
        ;
        let start: i128 = now as i128 - (WINDOW_SIZE as i128) * (PERIOD_MS as i128);
        let time_limit: i64 = if start < i64::MIN as i128 {
            i64::MIN
        } else {
            start as i64
        };
        self.high_20.evict(time_limit);
        self.low_20.evict(time_limit);
    }

    /// Feeds one period into the volatility. When the new value cannot be
    /// stored the engine is left as it was.
    fn update_n(&mut self, curr_high: i64, curr_low: i64, curr_close: i64) -> (done: Result<
        (),
        StrategyError,
    >)
        ensures
            representable(
                smoothed(
                    old(self)@.n as int,
                    true_range(curr_high as int, curr_low as int, old(self)@.prev_close as int),
                ),
            ) ==> done is Ok && final(self)@ == (TurtleState {
                n: smoothed(
                    old(self)@.n as int,
                    true_range(curr_high as int, curr_low as int, old(self)@.prev_close as int),
                ) as i64,
                prev_close: curr_close,
                ..old(self)@
            }),
            !representable(
                smoothed(
                    old(self)@.n as int,
                    true_range(curr_high as int, curr_low as int, old(self)@.prev_close as int),
                ),
            ) ==> done is Err && done->Err_0 == StrategyError::AmountOutOfRange && final(self)@
                == old(self)@,
            final(self).high_20 == old(self).high_20,
            final(self).low_20 == old(self).low_20,
            final(self).positions == old(self).positions,
    {
        self.volatility.update(curr_high, curr_low, curr_close)
    }

    /// Rolls the window when `now` has passed the anchor.
    fn refresh(&mut self, curr_candle: &CandleStick, now: i64) -> (done: Result<(), StrategyError>)
        requires
            old(self).wf(),
        ensures
            final(self).wf(),
            final(self)@ == observed(old(self)@, *curr_candle, now),
            refresh_due(old(self)@, now) && !refresh_fits(old(self)@, *curr_candle) ==> done is Err
                && done->Err_0 == StrategyError::AmountOutOfRange,
            !(refresh_due(old(self)@, now) && !refresh_fits(old(self)@, *curr_candle))
                ==> done is Ok,
    {
        if now > self.time_anchor {
            match self.update_n(curr_candle.high, curr_candle.low, curr_candle.close) {
                Ok(()) => {},
                Err(e) => {
                    return Err(e);
                },
            }
            self.pop_old_high_low(now);
            self.update_high(curr_candle.high, curr_candle.close_time);
            self.update_low(curr_candle.low, curr_candle.close_time);
            let later: i128 = self.time_anchor as i128 + PERIOD_MS as i128;
            self.time_anchor = if later > i64::MAX as i128 {
                i64::MAX
            } else {
                later as i64
            };
        }
        Ok(())
    }

    /// Whether `total` stands at more than one and a half times the initial
    /// equity.
    fn profit_target_reached(&self, total: i64) -> (reached: bool)
        ensures
            reached == exceeds_profit_target(total as int, self@.initial_asset as int),
    {
        let doubled: i128 = 2 * (total as i128);
        let tripled: i128 = 3 * (self.initial_asset as i128);
        if self.initial_asset > 0 {
            doubled > tripled
        } else if self.initial_asset < 0 {
            doubled < tripled
        } else {
            total > 0
        }
    }

    /// What the rules decide at `close` on the statistics as they stand.
    pub fn decide(&self, close: i64) -> (signal: Result<Signal, StrategyError>)
        requires
            self.wf(),
        ensures
            signal == decision(self@, close),
    {
        let total: i64 = match self.calc_total_asset(close) {
            Ok(total) => total,
            Err(e) => {
                return Err(e);
            },
        };
        let n: i64 = self.volatility.n;
        if n <= 0 {
            return Err(StrategyError::DegenerateVolatility);
        }
        let unit: i64 = match checked_div(total, n) {
            Some(unit) => unit,
            None => {
                return Err(StrategyError::DegenerateVolatility);
            },
        };
        if close > self.high_20.current() && self.positions.len(PositionSide::Long) < MAX_ENTRIES {
            return Ok(Signal::EnterLong { unit });
        }
        if close < self.low_20.current() && self.positions.len(PositionSide::Short) < MAX_ENTRIES {
            return Ok(Signal::EnterShort { unit });
        }
        if self.profit_target_reached(total) {
            let long_worth: i64 = match self.positions.notional(PositionSide::Long, close) {
                Ok(worth) => worth,
                Err(e) => {
                    return Err(e);
                },
            };
            let short_worth: i64 = match self.positions.notional(PositionSide::Short, close) {
                Ok(worth) => worth,
                Err(e) => {
                    return Err(e);
                },
            };
            let long_notional: Option<i64> = if self.positions.len(PositionSide::Long) > 0 {
                Some(long_worth)
            } else {
                None
            };
            let short_notional: Option<i64> = if self.positions.len(PositionSide::Short) > 0 {
                Some(short_worth)
            } else {
                None
            };
            return Ok(Signal::TakeProfit { long_notional, short_notional });
        }
        let stop: i128 = 2 * (n as i128);
        match self.positions.last_entry(PositionSide::Long) {
            Some(entry) => {
                if entry.entry_price as i128 - close as i128 > stop {
                    return match self.positions.notional(PositionSide::Long, close) {
                        Ok(notional) => Ok(Signal::StopLong { notional }),
                        Err(e) => Err(e),
                    };
                }
            },
            None => {},
        }
        match self.positions.last_entry(PositionSide::Short) {
            Some(entry) => {
                if close as i128 - entry.entry_price as i128 > stop {
                    return match self.positions.notional(PositionSide::Short, close) {
                        Ok(notional) => Ok(Signal::StopShort { notional }),
                        Err(e) => Err(e),
                    };
                }
            },
            None => {},
        }
        Ok(Signal::Hold)
    }

    /// Carries out what the rules decided at the close of `curr_candle` and
    /// returns the orders that it asks for.
    fn carry_out(&mut self, signal: Signal, curr_candle: CandleStick, now: i64) -> (orders: Vec<
        OrderInput,
    >)
        requires
            old(self).wf(),
            decision(old(self)@, curr_candle.close) == Ok::<Signal, StrategyError>(signal),
        ensures
            final(self).wf(),
            final(self)@ == applied(old(self)@, signal, curr_candle.close),
            carries(orders@, intents(signal), curr_candle.symbol@, now),
    {
        let curr_price: i64 = curr_candle.close;
        let mut orders: Vec<OrderInput> = Vec::new();
        match signal {
            Signal::EnterLong { unit } => {
                let order = Turtle::buy_order(curr_candle.symbol, unit, now);
                let _ = self.positions.add(PositionSide::Long, unit, curr_price);
                orders.push(order);
            },
            Signal::EnterShort { unit } => {
                let order = Turtle::sell_order(curr_candle.symbol, unit, now);
                let _ = self.positions.add(PositionSide::Short, unit, curr_price);
                orders.push(order);
            },
            Signal::TakeProfit { long_notional, short_notional } => {
                let sold = self.exit_long(curr_candle.symbol.clone(), curr_price, now);
                let bought = self.exit_short(curr_candle.symbol, curr_price, now);
                if long_notional.is_some() {
                    match sold {
                        Ok(order) => {
                            orders.push(order);
                        },
                        Err(_) => {},
                    }
                }
                if short_notional.is_some() {
                    match bought {
                        Ok(order) => {
                            orders.push(order);
                        },
                        Err(_) => {},
                    }
                }
            },
            Signal::StopLong { .. } => {
                match self.exit_long(curr_candle.symbol, curr_price, now) {
                    Ok(order) => {
                        orders.push(order);
                    },
                    Err(_) => {},
                }
            },
            Signal::StopShort { .. } => {
                match self.exit_short(curr_candle.symbol, curr_price, now) {
                    Ok(order) => {
                        orders.push(order);
                    },
                    Err(_) => {},
                }
            },
            Signal::Hold => {},
        }
        orders
    }

    /// One tick at the time `now`: the window rolls when `now` has passed
    /// the anchor, then the rules decide on the close of the candle, and
    /// what they decide is carried out.
    pub fn execute_at(&mut self, curr_candle: CandleStick, now: i64) -> (orders: Result<
        Vec<OrderInput>,
        StrategyError,
    >)
        requires
            old(self).wf(),
        ensures
            final(self).wf(),
            tick_outcome(old(self)@, curr_candle, now, final(self)@, orders),
    {
        match self.refresh(&curr_candle, now) {
            Ok(()) => {},
            Err(e) => {
                return Err(e);
            },
        }
        match self.decide(curr_candle.close) {
            Ok(signal) => Ok(self.carry_out(signal, curr_candle, now)),
            Err(e) => Err(e),
        }
    }

    /// One tick at the time that the wall clock shows.
    pub fn execute(&mut self, curr_candle: CandleStick) -> (orders: Result<
        Vec<OrderInput>,
        StrategyError,
    >)
        requires
            old(self).wf(),
        ensures
            final(self).wf(),
            exists|now: i64| tick_outcome(old(self)@, curr_candle, now, final(self)@, orders),
    {
        let now: i64 = get_timestamp();
        let orders = self.execute_at(curr_candle, now);
        assert(tick_outcome(old(self)@, curr_candle, now, self@, orders));
        orders
    }
}

/// A tick keeps the state valid: both deques stay ordered and hold a
/// point, and no side holds more than four entries.
pub proof fn lemma_tick_keeps_valid(s: TurtleState, candle: CandleStick, now: i64)
    requires
        valid(s),
    ensures
        valid(observed(s, candle, now)),
        valid(tick_state(s, candle, now)),
{
    if refresh_due(s, now) && refresh_fits(s, candle) {
        let start = window_start(now as int);
        lemma_evict_keeps_order(ExtremumKind::Highest, s.highs, start);
        lemma_evict_keeps_order(ExtremumKind::Lowest, s.lows, start);
        lemma_update_keeps_order(
            ExtremumKind::Highest,
            after_evict(s.highs, start),
            ExtremumPoint { value: candle.high, timestamp: candle.close_time },
        );
        lemma_update_keeps_order(
            ExtremumKind::Lowest,
            after_evict(s.lows, start),
            ExtremumPoint { value: candle.low, timestamp: candle.close_time },
        );
    }
}

/// A long side that holds four entries takes no fifth: the tick does not
/// decide to enter long, the long entries stay as they are or all leave,
/// and a buy order, if there is one, closes the short side.
pub proof fn lemma_full_long_side_takes_no_entry(s: TurtleState, candle: CandleStick, now: i64)
    requires
        s.longs.len() >= MAX_ENTRIES,
    ensures
        !(tick_signal(s, candle, now) matches Ok(Signal::EnterLong { .. })),
        tick_state(s, candle, now).longs == s.longs || tick_state(s, candle, now).longs
            == Seq::<PositionEntry>::empty(),
        tick_signal(s, candle, now) matches Ok(signal) ==> forall|i: int|
            0 <= i < intents(signal).len() && (#[trigger] intents(signal)[i]).0 == OrderSide::Buy
                ==> s.shorts.len() > 0 && intents(signal)[i].1 == exit_notional(
                candle.close as int,
                s.shorts,
            ),
{
}

/// A short side that holds four entries takes no fifth: the tick does not
/// decide to enter short, the short entries stay as they are or all leave,
/// and a sell order, if there is one, closes the long side.
pub proof fn lemma_full_short_side_takes_no_entry(s: TurtleState, candle: CandleStick, now: i64)
    requires
        s.shorts.len() >= MAX_ENTRIES,
    ensures
        !(tick_signal(s, candle, now) matches Ok(Signal::EnterShort { .. })),
        tick_state(s, candle, now).shorts == s.shorts || tick_state(s, candle, now).shorts
            == Seq::<PositionEntry>::empty(),
        tick_signal(s, candle, now) matches Ok(signal) ==> forall|i: int|
            0 <= i < intents(signal).len() && (#[trigger] intents(signal)[i]).0 == OrderSide::Sell
                ==> s.longs.len() > 0 && intents(signal)[i].1 == exit_notional(
                candle.close as int,
                s.longs,
            ),
{
}

/// Taking profit clears both sides, and the equity right after it is the
/// base balance at the close plus the quote balance, with nothing left
/// from short entries.
pub proof fn lemma_profit_take_clears_both_sides(s: TurtleState, candle: CandleStick, now: i64)
    requires
        tick_signal(s, candle, now) matches Ok(Signal::TakeProfit { .. }),
    ensures
        tick_state(s, candle, now).longs == Seq::<PositionEntry>::empty(),
        tick_state(s, candle, now).shorts == Seq::<PositionEntry>::empty(),
        equity(
            candle.close as int,
            tick_state(s, candle, now).usdt_balance as int,
            tick_state(s, candle, now).btc_balance as int,
            tick_state(s, candle, now).shorts,
        ) == mul_floor(candle.close as int, s.btc_balance as int) + s.usdt_balance,
{
}

/// A tick asks for at most two orders.
pub proof fn lemma_at_most_two_orders(signal: Signal)
    ensures
        intents(signal).len() <= 2,
{
}

/// An engine that was built from a seed whose first twenty true ranges are
/// all `range` starts with a volatility of exactly `range`.
pub proof fn lemma_constant_seed_starts_engine(
    s: TurtleState,
    candles: Seq<KlineResp>,
    usdt_balance: i64,
    btc_balance: i64,
    range: int,
)
    requires
        forall|i: int| 0 <= i < WINDOW_SIZE ==> seed_sample(candles, i) == range,
        seeded(s, candles, usdt_balance, btc_balance),
    ensures
        seed_volatility(candles) == range,
        s.n == range,
{
    lemma_constant_seed(candles, range);
}

/// A tick that succeeds on a full long side without short entries asks for
/// no buy order: whatever it asks for sells.
pub proof fn lemma_full_long_side_buys_nothing(s: TurtleState, candle: CandleStick, now: i64)
    requires
        s.longs.len() >= MAX_ENTRIES,
        s.shorts.len() == 0,
        tick_signal(s, candle, now) is Ok,
    ensures
        forall|i: int|
            0 <= i < intents(tick_signal(s, candle, now)->Ok_0).len() ==> (#[trigger] intents(
                tick_signal(s, candle, now)->Ok_0,
            )[i]).0 == OrderSide::Sell,
{
}

/// A tick that succeeds on a full short side without long entries asks for
/// no sell order: whatever it asks for buys.
pub proof fn lemma_full_short_side_sells_nothing(s: TurtleState, candle: CandleStick, now: i64)
    requires
        s.shorts.len() >= MAX_ENTRIES,
        s.longs.len() == 0,
        tick_signal(s, candle, now) is Ok,
    ensures
        forall|i: int|
            0 <= i < intents(tick_signal(s, candle, now)->Ok_0).len() ==> (#[trigger] intents(
                tick_signal(s, candle, now)->Ok_0,
            )[i]).0 == OrderSide::Buy,
{
}

/// The orders that leave the sides that hold entries: first a sell for the
/// long entries, then a buy for the short entries, each for the close
/// times the sum of the units.
pub open spec fn exit_orders(
    close: i64,
    longs: Seq<PositionEntry>,
    shorts: Seq<PositionEntry>,
) -> Seq<(OrderSide, i64)> {
    let sells = if longs.len() > 0 {
        seq![(OrderSide::Sell, exit_notional(close as int, longs) as i64)]
    } else {
        Seq::empty()
    };
    let buys = if shorts.len() > 0 {
        seq![(OrderSide::Buy, exit_notional(close as int, shorts) as i64)]
    } else {
        Seq::empty()
    };
    sells + buys
}

/// On a tick that succeeds, when no breakout answers on the statistics of
/// the tick and equity has passed the profit target, profit is taken: both
/// sides are empty afterwards, and the orders are exactly a sell for the
/// long entries, if there were any, and a buy for the short entries, if
/// there were any.
pub proof fn lemma_profit_take_outcome(s: TurtleState, candle: CandleStick, now: i64)
    requires
        tick_signal(s, candle, now) is Ok,
        !(candle.close > observed(s, candle, now).highs[0].value && s.longs.len() < MAX_ENTRIES),
        !(candle.close < observed(s, candle, now).lows[0].value && s.shorts.len() < MAX_ENTRIES),
        exceeds_profit_target(
            equity(candle.close as int, s.usdt_balance as int, s.btc_balance as int, s.shorts),
            s.initial_asset as int,
        ),
    ensures
        tick_signal(s, candle, now) == Ok::<Signal, StrategyError>(
            Signal::TakeProfit {
                long_notional: side_notional(candle.close, s.longs),
                short_notional: side_notional(candle.close, s.shorts),
            },
        ),
        tick_state(s, candle, now).longs == Seq::<PositionEntry>::empty(),
        tick_state(s, candle, now).shorts == Seq::<PositionEntry>::empty(),
        intents(tick_signal(s, candle, now)->Ok_0) == exit_orders(candle.close, s.longs, s.shorts),
        intents(tick_signal(s, candle, now)->Ok_0).len() <= 2,
{
}

} // verus!
