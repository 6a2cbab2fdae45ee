use crate::binance::websocket::StreamCandle;
use crate::error::StrategyError;
use crate::text::{parse_amount, parsed_amount};
use vstd::prelude::*;

pub mod extremum;
pub mod position;
pub mod turtle_trade;
pub mod volatility;

verus! {

/// One candle of the live feed. Prices and volumes are amounts with eight
/// decimals; times are milliseconds. The close time marks the end of the
/// period.
#[derive(Clone, Debug)]
pub struct CandleStick {
    pub symbol: String,
    pub open_time: i64,
    pub open: i64,
    pub high: i64,
    pub low: i64,
    pub close: i64,
    pub volume: i64,
    pub close_time: i64,
}

impl CandleStick {
    /// Whether `candle` is what the streamed record `raw` says, with its
    /// numbers read from text.
    pub open spec fn reads(candle: CandleStick, raw: StreamCandle) -> bool {
        &&& candle.symbol@ == raw.symbol@
        &&& candle.open_time == raw.start_time
        &&& parsed_amount(raw.open@) == Some(candle.open)
        &&& parsed_amount(raw.high@) == Some(candle.high)
        &&& parsed_amount(raw.low@) == Some(candle.low)
        &&& parsed_amount(raw.close@) == Some(candle.close)
        &&& parsed_amount(raw.base_asset_vol@) == Some(candle.volume)
        &&& candle.close_time == raw.close_time
    }

    /// Whether every number that a candle takes from `raw` is a decimal
    /// within range.
    pub open spec fn readable(raw: StreamCandle) -> bool {
        &&& parsed_amount(raw.open@) is Some
        &&& parsed_amount(raw.high@) is Some
        &&& parsed_amount(raw.low@) is Some
        &&& parsed_amount(raw.close@) is Some
        &&& parsed_amount(raw.base_asset_vol@) is Some
    }

    /// Brings a streamed record into the shape that the engine takes. A
    /// number that cannot be read makes the record malformed.
    pub fn from_stream(stream_candle: StreamCandle) -> (candle: Result<Self, StrategyError>)
        ensures
            match candle {
                Ok(candle) => Self::reads(candle, stream_candle),
                Err(e) => e == StrategyError::MalformedCandle && !Self::readable(stream_candle),
            },
    {
        let open: Option<i64> = parse_amount(stream_candle.open.as_str());
        let high: Option<i64> = parse_amount(stream_candle.high.as_str());
        let low: Option<i64> = parse_amount(stream_candle.low.as_str());
        let close: Option<i64> = parse_amount(stream_candle.close.as_str());
        let volume: Option<i64> = parse_amount(stream_candle.base_asset_vol.as_str());
        match (open, high, low, close, volume) {
            (Some(open), Some(high), Some(low), Some(close), Some(volume)) => Ok(
                Self {
                    symbol: stream_candle.symbol,
                    open_time: stream_candle.start_time,
                    open,
                    high,
                    low,
                    close,
                    volume,
                    close_time: stream_candle.close_time,
                },
            ),
            _ => Err(StrategyError::MalformedCandle),
        }
    }
}

} // verus!
