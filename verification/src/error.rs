use vstd::prelude::*;
use vstd::string::StringExecFns;

verus! {

/// Why the strategy engine refused to be built or failed a tick.
#[derive(Clone, Copy, Debug, PartialEq, Eq, Structural)]
pub enum StrategyError {
    /// Fewer seed candles than the window needs.
    InsufficientSeedData,
    /// A side already holds the greatest number of entries.
    PositionLimitExceeded,
    /// A numeric field of a streamed record is not a decimal number.
    MalformedCandle,
    /// The volatility is zero, negative, or so small that the sizing unit
    /// cannot be stored.
    DegenerateVolatility,
    /// An exact result does not fit the range of an amount.
    AmountOutOfRange,
}

impl StrategyError {
    /// A short text for logs.
    pub fn message(&self) -> (text: String)
        ensures
            text@ == match *self {
                StrategyError::InsufficientSeedData => "Not enough data supplied"@,
                StrategyError::PositionLimitExceeded => "Position limit exceeded"@,
                StrategyError::MalformedCandle => "Malformed candle"@,
                StrategyError::DegenerateVolatility => "Degenerate volatility"@,
                StrategyError::AmountOutOfRange => "Amount out of range"@,
            },
    {
        match self {
            StrategyError::InsufficientSeedData => String::from_str("Not enough data supplied"),
            StrategyError::PositionLimitExceeded => String::from_str("Position limit exceeded"),
            StrategyError::MalformedCandle => String::from_str("Malformed candle"),
            StrategyError::DegenerateVolatility => String::from_str("Degenerate volatility"),
            StrategyError::AmountOutOfRange => String::from_str("Amount out of range"),
        }
    }
}

/// Why a request could not be put into a query.
#[derive(Clone, Copy, Debug, PartialEq, Eq, Structural)]
pub enum QueryError {
    MissingTimeInForce,
    MissingQuantity,
    MissingPrice,
    MissingQuantityOrQuoteOrderQty,
    MissingStopPrice,
    /// A start time was given without an end time.
    MissingEndTime,
    /// More than a thousand candles were asked for.
    LimitTooLarge,
    /// The receive window is sixty seconds or longer.
    RecvWindowTooLong,
}

impl QueryError {
    /// A short text for logs.
    pub fn message(&self) -> (text: String)
        ensures
            text@ == match *self {
                QueryError::MissingTimeInForce => "Missing Time In Force"@,
                QueryError::MissingQuantity => "Missing Quantity"@,
                QueryError::MissingPrice => "Missing Price"@,
                QueryError::MissingQuantityOrQuoteOrderQty => "Missing Quantity or Quote Order Qty"@,
                QueryError::MissingStopPrice => "Missing Stop Price"@,
                QueryError::MissingEndTime => "End time can't be None if start time is set"@,
                QueryError::LimitTooLarge => "Limit value exceeds 1000"@,
                QueryError::RecvWindowTooLong => "Recv window too long, can't exceed 60000"@,
            },
    {
        match self {
            QueryError::MissingTimeInForce => String::from_str("Missing Time In Force"),
            QueryError::MissingQuantity => String::from_str("Missing Quantity"),
            QueryError::MissingPrice => String::from_str("Missing Price"),
            QueryError::MissingQuantityOrQuoteOrderQty => String::from_str(
                "Missing Quantity or Quote Order Qty",
            ),
            QueryError::MissingStopPrice => String::from_str("Missing Stop Price"),
            QueryError::MissingEndTime => String::from_str(
                "End time can't be None if start time is set",
            ),
            QueryError::LimitTooLarge => String::from_str("Limit value exceeds 1000"),
            QueryError::RecvWindowTooLong => String::from_str(
                "Recv window too long, can't exceed 60000",
            ),
        }
    }
}

} // verus!
