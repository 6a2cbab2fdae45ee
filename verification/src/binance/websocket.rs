use crate::fixed::floor_div;
use crate::text::{
    amount_text, amount_to_string, integer_text, integer_to_string, parse_amount, parsed_amount,
};
use vstd::prelude::*;

verus! {

/// One candle of the live feed as it arrives: numbers come as text.
#[derive(Clone, Debug)]
pub struct StreamCandle {
    pub start_time: i64,
    pub close_time: i64,
    pub symbol: String,
    pub interval: String,
    pub first_trade_id: u128,
    pub last_trade_id: u128,
    pub open: String,
    pub close: String,
    pub high: String,
    pub low: String,
    pub base_asset_vol: String,
    pub num_of_trades: u128,
    pub closed: bool,
    pub quote_asset_vol: String,
    pub taker_buy_base_asset_vol: String,
    pub taker_buy_quote_asset_vol: String,
    pub ignore: String,
}

/// A candle event of the live feed.
#[derive(Clone, Debug)]
pub struct Kline {
    pub event_type: String,
    pub event_time: i64,
    pub symbol: String,
    pub candle: StreamCandle,
}

/// A trade event of the live feed.
#[derive(Clone, Debug)]
pub struct StreamTrade {
    pub event_type: String,
    /// Time of the event.
    pub event_time: i64,
    pub symbol: String,
    pub trade_id: u64,
    pub price: String,
    pub quantity: String,
    pub buyer_order_id: u64,
    pub seller_order_id: u64,
    /// Time of the transaction.
    pub trade_time: i64,
}

/// A snapshot of the order book: each level is a price and an amount.
#[derive(Clone, Debug)]
pub struct StreamOrderbook {
    pub last_update_id: i64,
    pub bids: Vec<Vec<String>>,
    pub asks: Vec<Vec<String>>,
}

/// Number of levels of each side that a record of the order book holds.
pub const RECORD_DEPTH: usize = 10;

/// Best bid, best ask and their amounts at one level of the book.
pub struct BookLevel {
    pub bid: i64,
    pub bid_amount: i64,
    pub ask: i64,
    pub ask_amount: i64,
}

/// The price half way between bid and ask, rounded down.
pub open spec fn mid_price(bid: int, ask: int) -> int {
    (bid + ask) / 2
}

/// The level `i` of the book, when both sides give a price and an amount
/// there and all four are decimals within range.
pub open spec fn level_at(book: StreamOrderbook, i: int) -> Option<BookLevel> {
    if book.bids[i].len() >= 2 && book.asks[i].len() >= 2 {
        match (
            parsed_amount(book.bids[i][0]@),
            parsed_amount(book.bids[i][1]@),
            parsed_amount(book.asks[i][0]@),
            parsed_amount(book.asks[i][1]@),
        ) {
            (Some(bid), Some(bid_amount), Some(ask), Some(ask_amount)) => Some(
                BookLevel { bid, bid_amount, ask, ask_amount },
            ),
            _ => None,
        }
    } else {
        None
    }
}

/// The five fields that a level adds to a record: bid, ask, their amounts,
/// and the mid price.
pub open spec fn level_texts(level: BookLevel) -> Seq<Seq<char>> {
    seq![
        amount_text(level.bid as int),
        amount_text(level.ask as int),
        amount_text(level.bid_amount as int),
        amount_text(level.ask_amount as int),
        amount_text(mid_price(level.bid as int, level.ask as int)),
    ]
}

/// The record of the first `levels` levels of the book, taken at `now`: the
/// time, then the fields of each level. `None` when a level cannot be read.
pub open spec fn record_texts(book: StreamOrderbook, now: i64, levels: nat) -> Option<
    Seq<Seq<char>>,
>
    decreases levels,
{
    if levels == 0 {
        Some(seq![integer_text(now as int)])
    } else {
        match (record_texts(book, now, (levels - 1) as nat), level_at(book, levels - 1)) {
            (Some(record), Some(level)) => Some(record + level_texts(level)),
            _ => None,
        }
    }
}

/// The fields of a record as plain text.
pub open spec fn field_texts(record: Seq<String>) -> Seq<Seq<char>> {
    Seq::new(record.len(), |i: int| record[i]@)
}

/// Appends one field to a record.
fn push_field(fields: &mut Vec<String>, text: String)
    ensures
        field_texts(final(fields)@) == field_texts(old(fields)@).push(text@),
{
    fields.push(text);
    assert(field_texts(fields@) =~= field_texts(old(fields)@).push(text@));
}

/// Appends the five fields of a level to a record.
fn push_level(fields: &mut Vec<String>, level: &BookLevel)
    ensures
        field_texts(final(fields)@) == field_texts(old(fields)@) + level_texts(*level),
{
    let mid: i128 = floor_div(level.bid as i128 + level.ask as i128, 2);
    push_field(fields, amount_to_string(level.bid));
    push_field(fields, amount_to_string(level.ask));
    push_field(fields, amount_to_string(level.bid_amount));
    push_field(fields, amount_to_string(level.ask_amount));
    push_field(fields, amount_to_string(mid as i64));
    assert(field_texts(fields@) =~= field_texts(old(fields)@) + level_texts(*level));
}

impl StreamOrderbook {
    /// Reads the level `i` of the book.
    fn level(&self, i: usize) -> (level: Option<BookLevel>)
        requires
            i < self.bids.len(),
            i < self.asks.len(),
        ensures
            level == level_at(*self, i as int),
    {
        if self.bids[i].len() < 2 || self.asks[i].len() < 2 {
            return None;
        }
        let bid: Option<i64> = parse_amount(self.bids[i][0].as_str());
        let bid_amount: Option<i64> = parse_amount(self.bids[i][1].as_str());
        let ask: Option<i64> = parse_amount(self.asks[i][0].as_str());
        let ask_amount: Option<i64> = parse_amount(self.asks[i][1].as_str());
        match (bid, bid_amount, ask, ask_amount) {
            (Some(bid), Some(bid_amount), Some(ask), Some(ask_amount)) => Some(
                BookLevel { bid, bid_amount, ask, ask_amount },
            ),
            _ => None,
        }
    }

    /// The record of the ten best levels of the book, taken at `now`: the
    /// time, then bid, ask, their amounts and the mid price of each level.
    /// `None` when a side has fewer than ten levels or a level cannot be
    /// read.
    pub fn record(&self, now: i64) -> (record: Option<Vec<String>>)
        ensures
            match record {
                Some(fields) => self.bids.len() >= RECORD_DEPTH && self.asks.len() >= RECORD_DEPTH
                    && record_texts(*self, now, RECORD_DEPTH as nat) == Some(
                    field_texts(fields@),
                ),
                None => self.bids.len() < RECORD_DEPTH || self.asks.len() < RECORD_DEPTH
                    || record_texts(*self, now, RECORD_DEPTH as nat) is None,
            },
    {
        if self.bids.len() < RECORD_DEPTH || self.asks.len() < RECORD_DEPTH {
            return None;
        }
        let mut fields: Vec<String> = Vec::new();
        fields.push(integer_to_string(now));
        assert(field_texts(fields@) =~= seq![integer_text(now as int)]);
        let mut i: usize = 0;
        while i < RECORD_DEPTH
            invariant
                0 <= i <= RECORD_DEPTH,
                self.bids.len() >= RECORD_DEPTH,
                self.asks.len() >= RECORD_DEPTH,
                record_texts(*self, now, i as nat) == Some(field_texts(fields@)),
            decreases RECORD_DEPTH - i,
        {
            match self.level(i) {
                Some(level) => {
                    push_level(&mut fields, &level);
                },
                None => {
                    proof {
                        lemma_record_stays_unread(
                            *self,
                            now,
                            (i + 1) as nat,
                            RECORD_DEPTH as nat,
                        );
                    }
                    return None;
                },
            }
            i = i + 1;
        }
        Some(fields)
    }
}

/// Once a level could not be read, reading further levels does not help.
proof fn lemma_record_stays_unread(book: StreamOrderbook, now: i64, failed: nat, levels: nat)
    requires
        failed <= levels,
        record_texts(book, now, failed) is None,
    ensures
        record_texts(book, now, levels) is None,
    decreases levels,
{
    if levels > failed {
        lemma_record_stays_unread(book, now, failed, (levels - 1) as nat);
    }
}

} // verus!
