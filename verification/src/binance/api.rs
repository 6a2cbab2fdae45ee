use crate::error::StrategyError;
use crate::text::{parse_amount, parsed_amount};
use vstd::prelude::*;
use vstd::std_specs::convert::FromSpecImpl;
use vstd::string::StringExecFns;

verus! {

/// Endpoints of the spot account and trade interface.
#[derive(Clone, Copy, Debug, PartialEq, Eq, Structural)]
pub enum Spot {
    OpenOrders,
    TestNewOrder,
    NewOrder,
    AccountInfo,
}

impl Spot {
    /// The path of the endpoint.
    pub open spec fn text(self) -> Seq<char> {
        match self {
            Spot::OpenOrders => "/api/v3/openOrders"@,
            Spot::TestNewOrder => "/api/v3/order/test"@,
            Spot::NewOrder => "/api/v3/order"@,
            Spot::AccountInfo => "/api/v3/account"@,
        }
    }

    /// The path of the endpoint.
    pub fn as_str(&self) -> (path: &'static str)
        ensures
            path@ == self.text(),
    {
        match self {
            Spot::OpenOrders => "/api/v3/openOrders",
            Spot::TestNewOrder => "/api/v3/order/test",
            Spot::NewOrder => "/api/v3/order",
            Spot::AccountInfo => "/api/v3/account",
        }
    }
}

impl From<Spot> for String {
    fn from(endpoint: Spot) -> (path: String)
        ensures
            path@ == endpoint.text(),
    {
        String::from_str(endpoint.as_str())
    }
}

impl FromSpecImpl<Spot> for String {
    /// The conversion is specified on `from` itself, by the text it returns.
    open spec fn obeys_from_spec() -> bool {
        false
    }

    open spec fn from_spec(endpoint: Spot) -> String {
        arbitrary()
    }
}

/// Direction of an order.
#[derive(Clone, Copy, Debug, PartialEq, Eq, Structural)]
pub enum OrderSide {
    Buy,
    Sell,
}

impl OrderSide {
    /// The name that the exchange gives the side.
    pub open spec fn text(self) -> Seq<char> {
        match self {
            OrderSide::Buy => "BUY"@,
            OrderSide::Sell => "SELL"@,
        }
    }

    /// The name that the exchange gives the side.
    pub fn as_str(&self) -> (text: &'static str)
        ensures
            text@ == self.text(),
    {
        match self {
            OrderSide::Buy => "BUY",
            OrderSide::Sell => "SELL",
        }
    }
}

impl From<OrderSide> for String {
    fn from(item: OrderSide) -> (text: String)
        ensures
            text@ == item.text(),
    {
        String::from_str(item.as_str())
    }
}

impl FromSpecImpl<OrderSide> for String {
    /// The conversion is specified on `from` itself, by the text it returns.
    open spec fn obeys_from_spec() -> bool {
        false
    }

    open spec fn from_spec(item: OrderSide) -> String {
        arbitrary()
    }
}

/// Kind of an order.
#[derive(Clone, Copy, Debug, PartialEq, Eq, Structural)]
pub enum OrderType {
    Limit,
    Market,
    StopLoss,
    StopLossLimit,
    TakeProfit,
    TakeProfitLimit,
    LimitMaker,
}

impl OrderType {
    /// The name that the exchange gives the kind.
    pub open spec fn text(self) -> Seq<char> {
        match self {
            OrderType::Limit => "LIMIT"@,
            OrderType::Market => "MARKET"@,
            OrderType::StopLoss => "STOP_LOSS"@,
            OrderType::StopLossLimit => "STOP_LOSS_LIMIT"@,
            OrderType::TakeProfit => "TAKE_PROFIT"@,
            OrderType::TakeProfitLimit => "TAKE_PROFIT_LIMIT"@,
            OrderType::LimitMaker => "LIMIT_MAKER"@,
        }
    }

    /// The name that the exchange gives the kind.
    pub fn as_str(&self) -> (text: &'static str)
        ensures
            text@ == self.text(),
    {
        match self {
            OrderType::Limit => "LIMIT",
            OrderType::Market => "MARKET",
            OrderType::StopLoss => "STOP_LOSS",
            OrderType::StopLossLimit => "STOP_LOSS_LIMIT",
            OrderType::TakeProfit => "TAKE_PROFIT",
            OrderType::TakeProfitLimit => "TAKE_PROFIT_LIMIT",
            OrderType::LimitMaker => "LIMIT_MAKER",
        }
    }
}

impl From<OrderType> for String {
    fn from(item: OrderType) -> (text: String)
        ensures
            text@ == item.text(),
    {
        String::from_str(item.as_str())
    }
}

impl FromSpecImpl<OrderType> for String {
    /// The conversion is specified on `from` itself, by the text it returns.
    open spec fn obeys_from_spec() -> bool {
        false
    }

    open spec fn from_spec(item: OrderType) -> String {
        arbitrary()
    }
}

/// How long an order stays active: good until cancelled, immediate or
/// cancel, fill or kill.
#[derive(Clone, Copy, Debug, PartialEq, Eq, Structural)]
#[allow(clippy::upper_case_acronyms)]
pub enum TimeInForce {
    GTC,
    IOC,
    FOK,
}

impl TimeInForce {
    /// The name that the exchange gives the rule.
    pub open spec fn text(self) -> Seq<char> {
        match self {
            TimeInForce::GTC => "GTC"@,
            TimeInForce::IOC => "IOC"@,
            TimeInForce::FOK => "FOK"@,
        }
    }

    /// The name that the exchange gives the rule.
    pub fn as_str(&self) -> (text: &'static str)
        ensures
            text@ == self.text(),
    {
        match self {
            TimeInForce::GTC => "GTC",
            TimeInForce::IOC => "IOC",
            TimeInForce::FOK => "FOK",
        }
    }
}

impl From<TimeInForce> for String {
    fn from(item: TimeInForce) -> (text: String)
        ensures
            text@ == item.text(),
    {
        String::from_str(item.as_str())
    }
}

impl FromSpecImpl<TimeInForce> for String {
    /// The conversion is specified on `from` itself, by the text it returns.
    open spec fn obeys_from_spec() -> bool {
        false
    }

    open spec fn from_spec(item: TimeInForce) -> String {
        arbitrary()
    }
}

/// How much of an order the exchange reports back.
#[derive(Clone, Copy, Debug, PartialEq, Eq, Structural)]
pub enum OrderRespType {
    Ack,
    Result,
    Full,
}

impl OrderRespType {
    /// The name that the exchange gives the level.
    pub open spec fn text(self) -> Seq<char> {
        match self {
            OrderRespType::Ack => "ACK"@,
            OrderRespType::Result => "RESULT"@,
            OrderRespType::Full => "FULL"@,
        }
    }

    /// The name that the exchange gives the level.
    pub fn as_str(&self) -> (text: &'static str)
        ensures
            text@ == self.text(),
    {
        match self {
            OrderRespType::Ack => "ACK",
            OrderRespType::Result => "RESULT",
            OrderRespType::Full => "FULL",
        }
    }
}

impl From<OrderRespType> for String {
    fn from(item: OrderRespType) -> (text: String)
        ensures
            text@ == item.text(),
    {
        String::from_str(item.as_str())
    }
}

impl FromSpecImpl<OrderRespType> for String {
    /// The conversion is specified on `from` itself, by the text it returns.
    open spec fn obeys_from_spec() -> bool {
        false
    }

    open spec fn from_spec(item: OrderRespType) -> String {
        arbitrary()
    }
}

/// An order as the engine or a caller intends it, before it is signed and
/// sent. Quantities and prices are amounts with eight decimals.
#[derive(Clone, Debug)]
pub struct OrderInput {
    pub symbol: String,
    pub side: OrderSide,
    pub order_type: OrderType,
    pub time_in_force: Option<TimeInForce>,
    pub quantity: Option<i64>,
    pub quote_order_qty: Option<i64>,
    pub price: Option<i64>,
    pub new_client_order_id: String,
    pub stop_price: Option<i64>,
    pub iceberg_qty: Option<i64>,
    pub new_order_resp_type: Option<OrderRespType>,
    /// Cannot be greater than 60000.
    pub recv_window: Option<u64>,
    pub timestamp: i64,
}

/// The balance of one asset, as the exchange reports it in text.
#[derive(Clone, Debug)]
pub struct AccountBalanceInfo {
    pub asset: String,
    pub free: String,
    pub locked: String,
}

/// The account as the exchange reports it.
#[derive(Clone, Debug)]
pub struct AccountInfoResp {
    pub maker_commission: i64,
    pub taker_commission: i64,
    pub buyer_commission: i64,
    pub seller_commission: i64,
    pub can_trade: bool,
    pub can_withdraw: bool,
    pub can_deposit: bool,
    pub update_time: i64,
    pub account_type: String,
    pub balances: Vec<AccountBalanceInfo>,
}


/// Endpoints of the market data interface.
#[derive(Clone, Copy, Debug, PartialEq, Eq, Structural)]
pub enum Market {
    Kline,
}

impl Market {
    /// The path of the endpoint.
    pub open spec fn text(self) -> Seq<char> {
        match self {
            Market::Kline => "/api/v3/klines"@,
        }
    }

    /// The path of the endpoint.
    pub fn as_str(&self) -> (path: &'static str)
        ensures
            path@ == self.text(),
    {
        match self {
            Market::Kline => "/api/v3/klines",
        }
    }
}

impl From<Market> for String {
    fn from(endpoint: Market) -> (path: String)
        ensures
            path@ == endpoint.text(),
    {
        String::from_str(endpoint.as_str())
    }
}

impl FromSpecImpl<Market> for String {
    /// The conversion is specified on `from` itself, by the text it returns.
    open spec fn obeys_from_spec() -> bool {
        false
    }

    open spec fn from_spec(endpoint: Market) -> String {
        arbitrary()
    }
}

/// What to ask of the candle endpoint.
#[derive(Clone, Debug)]
pub struct KlineInput {
    pub symbol: String,
    pub interval: String,
    pub start_time: Option<i64>,
    pub end_time: Option<i64>,
    /// The exchange takes 500 when none is given, and at most 1000.
    pub limit: Option<u64>,
}

/// One historical candle as the exchange reports it. Prices and volumes are
/// amounts with eight decimals; times are milliseconds.
#[derive(Clone, Copy, Debug, PartialEq, Eq, Structural)]
pub struct KlineResp {
    pub open_time: i64,
    pub open: i64,
    pub high: i64,
    pub low: i64,
    pub close: i64,
    pub volume: i64,
    pub close_time: i64,
    pub quote_asset_vol: i64,
    pub num_trades: i64,
    pub taker_buy_base_asset_vol: i64,
    pub taker_buy_quote_asset_vol: i64,
}

/// One historical candle as it arrives: numbers come as text.
#[derive(Clone, Debug)]
pub struct KlineRow {
    pub open_time: i64,
    pub open: String,
    pub high: String,
    pub low: String,
    pub close: String,
    pub volume: String,
    pub close_time: i64,
    pub quote_asset_vol: String,
    pub num_trades: i64,
    pub taker_buy_base_asset_vol: String,
    pub taker_buy_quote_asset_vol: String,
}

impl KlineResp {
    /// Whether `candle` is what the row `raw` says, with its numbers read
    /// from text.
    pub open spec fn reads(candle: KlineResp, raw: KlineRow) -> bool {
        &&& candle.open_time == raw.open_time
        &&& parsed_amount(raw.open@) == Some(candle.open)
        &&& parsed_amount(raw.high@) == Some(candle.high)
        &&& parsed_amount(raw.low@) == Some(candle.low)
        &&& parsed_amount(raw.close@) == Some(candle.close)
        &&& parsed_amount(raw.volume@) == Some(candle.volume)
        &&& candle.close_time == raw.close_time
        &&& parsed_amount(raw.quote_asset_vol@) == Some(candle.quote_asset_vol)
        &&& candle.num_trades == raw.num_trades
        &&& parsed_amount(raw.taker_buy_base_asset_vol@) == Some(candle.taker_buy_base_asset_vol)
        &&& parsed_amount(raw.taker_buy_quote_asset_vol@) == Some(
            candle.taker_buy_quote_asset_vol,
        )
    }

    /// Whether every number of `raw` is a decimal within range.
    pub open spec fn readable(raw: KlineRow) -> bool {
        &&& parsed_amount(raw.open@) is Some
        &&& parsed_amount(raw.high@) is Some
        &&& parsed_amount(raw.low@) is Some
        &&& parsed_amount(raw.close@) is Some
        &&& parsed_amount(raw.volume@) is Some
        &&& parsed_amount(raw.quote_asset_vol@) is Some
        &&& parsed_amount(raw.taker_buy_base_asset_vol@) is Some
        &&& parsed_amount(raw.taker_buy_quote_asset_vol@) is Some
    }

    /// Reads a row. A number that cannot be read makes the row malformed.
    pub fn from_row(row: &KlineRow) -> (candle: Result<Self, StrategyError>)
        ensures
            match candle {
                Ok(candle) => Self::reads(candle, *row),
                Err(e) => e == StrategyError::MalformedCandle && !Self::readable(*row),
            },
    {
        let open: Option<i64> = parse_amount(row.open.as_str());
        let high: Option<i64> = parse_amount(row.high.as_str());
        let low: Option<i64> = parse_amount(row.low.as_str());
        let close: Option<i64> = parse_amount(row.close.as_str());
        let volume: Option<i64> = parse_amount(row.volume.as_str());
        let quote: Option<i64> = parse_amount(row.quote_asset_vol.as_str());
        let taker_base: Option<i64> = parse_amount(row.taker_buy_base_asset_vol.as_str());
        let taker_quote: Option<i64> = parse_amount(row.taker_buy_quote_asset_vol.as_str());
        match (open, high, low, close) {
            (Some(open), Some(high), Some(low), Some(close)) => match (
                volume,
                quote,
                taker_base,
                taker_quote,
            ) {
                (Some(volume), Some(quote), Some(taker_base), Some(taker_quote)) => Ok(
                    KlineResp {
                        open_time: row.open_time,
                        open,
                        high,
                        low,
                        close,
                        volume,
                        close_time: row.close_time,
                        quote_asset_vol: quote,
                        num_trades: row.num_trades,
                        taker_buy_base_asset_vol: taker_base,
                        taker_buy_quote_asset_vol: taker_quote,
                    },
                ),
                _ => Err(StrategyError::MalformedCandle),
            },
            _ => Err(StrategyError::MalformedCandle),
        }
    }
}

/// The free balances of the assets `base` and `quote` after the first
/// `count` entries have been read, base first. Both start at zero; an entry
/// of either asset sets its balance; once both are set to something other
/// than zero the rest is not read. `None` when a balance that is read is
/// no decimal within range.
pub open spec fn balances_read(
    balances: Seq<AccountBalanceInfo>,
    base: Seq<char>,
    quote: Seq<char>,
    count: nat,
) -> Option<(i64, i64)>
    decreases count,
{
    if count == 0 {
        Some((0i64, 0i64))
    } else {
        match balances_read(balances, base, quote, (count - 1) as nat) {
            None => None,
            Some((held_base, held_quote)) => {
                let entry = balances[count - 1];
                if held_base != 0 && held_quote != 0 {
                    Some((held_base, held_quote))
                } else {
                    let new_base = if entry.asset@ == base {
                        parsed_amount(entry.free@)
                    } else {
                        Some(held_base)
                    };
                    let new_quote = if entry.asset@ == quote {
                        parsed_amount(entry.free@)
                    } else {
                        Some(held_quote)
                    };
                    match (new_base, new_quote) {
                        (Some(b), Some(q)) => Some((b, q)),
                        _ => None,
                    }
                }
            },
        }
    }
}

impl AccountInfoResp {
    /// The free balances of the assets `base` and `quote`, base first; an
    /// asset that the account does not list counts as zero.
    pub fn free_balances(&self, base: &str, quote: &str) -> (held: Option<(i64, i64)>)
        ensures
            held == balances_read(self.balances@, base@, quote@, self.balances@.len()),
    {
        let base_name: String = String::from_str(base);
        let quote_name: String = String::from_str(quote);
        let mut held_base: i64 = 0;
        let mut held_quote: i64 = 0;
        let mut i: usize = 0;
        while i < self.balances.len()
            invariant
                0 <= i <= self.balances.len(),
                base_name@ == base@,
                quote_name@ == quote@,
                balances_read(self.balances@, base@, quote@, i as nat) == Some(
                    (held_base, held_quote),
                ),
            decreases self.balances.len() - i,
        {
            if !(held_base != 0 && held_quote != 0) {
                let is_base: bool = self.balances[i].asset == base_name;
                let is_quote: bool = self.balances[i].asset == quote_name;
                if is_base || is_quote {
                    match parse_amount(self.balances[i].free.as_str()) {
                        Some(free) => {
                            if is_base {
                                held_base = free;
                            }
                            if is_quote {
                                held_quote = free;
                            }
                        },
                        None => {
                            proof {
                                lemma_balances_stay_unread(
                                    self.balances@,
                                    base@,
                                    quote@,
                                    (i + 1) as nat,
                                    self.balances@.len(),
                                );
                            }
                            return None;
                        },
                    }
                }
            }
            i = i + 1;
        }
        Some((held_base, held_quote))
    }
}

/// Once a balance could not be read, reading further entries does not help.
proof fn lemma_balances_stay_unread(
    balances: Seq<AccountBalanceInfo>,
    base: Seq<char>,
    quote: Seq<char>,
    failed: nat,
    count: nat,
)
    requires
        failed <= count,
        balances_read(balances, base, quote, failed) is None,
    ensures
        balances_read(balances, base, quote, count) is None,
    decreases count,
{
    if count > failed {
        lemma_balances_stay_unread(balances, base, quote, failed, (count - 1) as nat);
    }
}

} // verus!
