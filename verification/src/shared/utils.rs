use crate::binance::api::{KlineInput, OrderInput, OrderType};
use crate::error::QueryError;
use crate::shared::query_params::{
    all_below, lemma_account_keys, lemma_insert_behind, lemma_kline_keys, lemma_order_keys,
    lemma_text_less_transitive, text_less, Params, QueryParams,
};
use crate::text::{
    amount_text, amount_to_string, integer_text, integer_to_string, natural_text,
    natural_to_string,
};
use vstd::prelude::*;
use vstd::string::StringExecFns;

verus! {

/// The wall clock in milliseconds since the Unix epoch, read with
/// `chrono::Utc::now().timestamp_millis()`. Nothing is claimed of the value:
/// two readings may differ in either direction. `Utc::now` panics on a
/// machine whose clock stands before the epoch.
#[verifier::external_body]
pub fn get_timestamp() -> (now: i64) {
    chrono::Utc::now().timestamp_millis()
}

/// One parameter as it stands in a query.
pub open spec fn pair_text(key: Seq<char>, value: Seq<char>) -> Seq<char> {
    key + seq!['='] + value
}

/// The query of a list of parameters: the pairs in the order given, with
/// an ampersand between two of them.
pub open spec fn query_text(params: Params) -> Seq<char>
    decreases params.len(),
{
    if params.len() == 0 {
        Seq::empty()
    } else if params.len() == 1 {
        pair_text(params[0].0, params[0].1)
    } else {
        query_text(params.drop_last()) + seq!['&'] + pair_text(params.last().0, params.last().1)
    }
}

/// The one parameter `key`, when it is present; nothing otherwise.
pub open spec fn optional(present: bool, key: Seq<char>, value: Seq<char>) -> Params {
    if present {
        seq![(key, value)]
    } else {
        Seq::empty()
    }
}

/// Writes the parameters out as a query: the pairs in the order of their
/// keys, with an ampersand between two of them.
pub fn construct_query(params: QueryParams) -> (req: String)
    requires
        params.wf(),
    ensures
        req@ == query_text(params@),
{
    proof {
        reveal_strlit("=");
        reveal_strlit("&");
    }
    let mut req: String = String::new();
    let mut i: usize = 0;
    while i < params.len()
        invariant
            0 <= i <= params@.len(),
            "="@ == seq!['='],
            "&"@ == seq!['&'],
            req@ == query_text(params@.take(i as int)),
        decreases params@.len() - i,
    {
        proof {
            let upto = params@.take(i + 1);
            assert(upto.drop_last() =~= params@.take(i as int));
            assert(upto.last() == params@[i as int]);
            if i == 0 {
                assert(upto[0] == upto.last());
            }
        }
        if i > 0 {
            req.append("&");
        }
        req.append(params.key(i));
        req.append("=");
        req.append(params.value(i));
        proof {
            let upto = params@.take(i + 1);
            assert(req@ =~= query_text(upto));
        }
        i = i + 1;
    }
    assert(params@.take(params@.len() as int) =~= params@);
    req
}

/// Gives the parameter `key`, which stands behind every key so far, its
/// value: it joins the back.
fn push_param(params: &mut QueryParams, key: &str, value: String)
    requires
        old(params).wf(),
        all_below(old(params)@, key@),
    ensures
        final(params).wf(),
        final(params)@ == old(params)@ + seq![(key@, value@)],
        forall|next: Seq<char>| #[trigger] text_less(key@, next) ==> all_below(final(params)@, next),
{
    proof {
        lemma_insert_behind(params@, key@, value@);
    }
    params.insert(String::from_str(key), value);
    assert(params@ =~= old(params)@ + seq![(key@, value@)]);
    assert forall|next: Seq<char>| #[trigger] text_less(key@, next) implies all_below(
        params@,
        next,
    ) by {
        assert forall|i: int| 0 <= i < params@.len() implies text_less(
            (#[trigger] params@[i]).0,
            next,
        ) by {
            if i < old(params)@.len() {
                assert(params@[i] == old(params)@[i]);
                lemma_text_less_transitive(params@[i].0, key@, next);
            }
        }
    }
}

/// Gives the parameter `key`, which stands behind every key so far, its
/// value when it has one.
fn push_optional(params: &mut QueryParams, key: &str, value: Option<String>)
    requires
        old(params).wf(),
        all_below(old(params)@, key@),
    ensures
        final(params).wf(),
        final(params)@ == old(params)@ + optional(value is Some, key@, value->0@),
        forall|next: Seq<char>| #[trigger] text_less(key@, next) ==> all_below(final(params)@, next),
{
    match value {
        Some(value) => {
            push_param(params, key, value);
        },
        None => {
            assert(params@ =~= params@ + Seq::empty());
            assert forall|next: Seq<char>| #[trigger] text_less(key@, next) implies all_below(
                params@,
                next,
            ) by {
                assert forall|i: int| 0 <= i < params@.len() implies text_less(
                    (#[trigger] params@[i]).0,
                    next,
                ) by {
                    lemma_text_less_transitive(params@[i].0, key@, next);
                }
            }
        },
    }
}

/// An amount in decimal, when there is one.
fn amount_option(amount: Option<i64>) -> (text: Option<String>)
    ensures
        text is Some == amount is Some,
        amount is Some ==> text->0@ == amount_text(amount->0 as int),
{
    match amount {
        Some(amount) => Some(amount_to_string(amount)),
        None => None,
    }
}

/// A time in decimal, when there is one.
fn time_option(time: Option<i64>) -> (text: Option<String>)
    ensures
        text is Some == time is Some,
        time is Some ==> text->0@ == integer_text(time->0 as int),
{
    match time {
        Some(time) => Some(integer_to_string(time)),
        None => None,
    }
}

/// A count in decimal, when there is one.
fn count_option(count: Option<u64>) -> (text: Option<String>)
    ensures
        text is Some == count is Some,
        count is Some ==> text->0@ == natural_text(count->0 as nat),
{
    match count {
        Some(count) => Some(natural_to_string(count as u128)),
        None => None,
    }
}

/// What an order lacks for its kind, if anything. The checks stand in the
/// order in which they are made.
pub open spec fn order_defect(request: OrderInput) -> Option<QueryError> {
    match request.order_type {
        OrderType::Limit => {
            if request.time_in_force is None {
                Some(QueryError::MissingTimeInForce)
            } else if request.quantity is None {
                Some(QueryError::MissingQuantity)
            } else if request.price is None {
                Some(QueryError::MissingPrice)
            } else {
                None
            }
        },
        OrderType::Market => {
            if request.quantity is None && request.quote_order_qty is None {
                Some(QueryError::MissingQuantityOrQuoteOrderQty)
            } else {
                None
            }
        },
        OrderType::StopLoss | OrderType::TakeProfit => {
            if request.quantity is None {
                Some(QueryError::MissingQuantity)
            } else if request.stop_price is None {
                Some(QueryError::MissingStopPrice)
            } else {
                None
            }
        },
        OrderType::StopLossLimit | OrderType::TakeProfitLimit => {
            if request.time_in_force is None {
                Some(QueryError::MissingTimeInForce)
            } else if request.quantity is None {
                Some(QueryError::MissingQuantity)
            } else if request.price is None {
                Some(QueryError::MissingPrice)
            } else if request.stop_price is None {
                Some(QueryError::MissingStopPrice)
            } else {
                None
            }
        },
        OrderType::LimitMaker => {
            if request.quantity is None {
                Some(QueryError::MissingQuantity)
            } else if request.price is None {
                Some(QueryError::MissingPrice)
            } else {
                None
            }
        },
    }
}

/// The parameters of an order, in the order of their keys. A field that is absent
/// leaves its parameter out.
pub open spec fn order_params(request: OrderInput) -> Params {
    optional(
        request.iceberg_qty is Some,
        "icebergQty"@,
        amount_text(request.iceberg_qty->0 as int),
    ) + seq![("newClientOrderId"@, request.new_client_order_id@)] + optional(
        request.new_order_resp_type is Some,
        "newOrderRespType"@,
        request.new_order_resp_type->0.text(),
    ) + optional(request.price is Some, "price"@, amount_text(request.price->0 as int))
        + optional(request.quantity is Some, "quantity"@, amount_text(request.quantity->0 as int))
        + optional(
        request.quote_order_qty is Some,
        "quoteOrderQty"@,
        amount_text(request.quote_order_qty->0 as int),
    ) + optional(
        request.recv_window is Some,
        "recvWindow"@,
        natural_text(request.recv_window->0 as nat),
    ) + seq![("side"@, request.side.text())] + optional(
        request.stop_price is Some,
        "stopPrice"@,
        amount_text(request.stop_price->0 as int),
    ) + seq![("symbol"@, request.symbol@)] + optional(
        request.time_in_force is Some,
        "timeInForce"@,
        request.time_in_force->0.text(),
    ) + seq![("timestamp"@, integer_text(request.timestamp as int))] + seq![
        ("type"@, request.order_type.text()),
    ]
}

/// Checks an order against what its kind needs.
fn check_order(request: &OrderInput) -> (defect: Option<QueryError>)
    ensures
        defect == order_defect(*request),
{
    match request.order_type {
        OrderType::Limit => {
            if request.time_in_force.is_none() {
                return Some(QueryError::MissingTimeInForce);
            }
            if request.quantity.is_none() {
                return Some(QueryError::MissingQuantity);
            }
            if request.price.is_none() {
                return Some(QueryError::MissingPrice);
            }
        },
        OrderType::Market => {
            if request.quantity.is_none() && request.quote_order_qty.is_none() {
                return Some(QueryError::MissingQuantityOrQuoteOrderQty);
            }
        },
        OrderType::StopLoss | OrderType::TakeProfit => {
            if request.quantity.is_none() {
                return Some(QueryError::MissingQuantity);
            }
            if request.stop_price.is_none() {
                return Some(QueryError::MissingStopPrice);
            }
        },
        OrderType::StopLossLimit | OrderType::TakeProfitLimit => {
            if request.time_in_force.is_none() {
                return Some(QueryError::MissingTimeInForce);
            }
            if request.quantity.is_none() {
                return Some(QueryError::MissingQuantity);
            }
            if request.price.is_none() {
                return Some(QueryError::MissingPrice);
            }
            if request.stop_price.is_none() {
                return Some(QueryError::MissingStopPrice);
            }
        },
        OrderType::LimitMaker => {
            if request.quantity.is_none() {
                return Some(QueryError::MissingQuantity);
            }
            if request.price.is_none() {
                return Some(QueryError::MissingPrice);
            }
        },
    }
    None
}

/// The query of an order, or what the order lacks for its kind.
pub fn build_order_query(request: OrderInput) -> (query: Result<String, QueryError>)
    ensures
        match order_defect(request) {
            Some(e) => query is Err && query->Err_0 == e,
            None => query is Ok && query->Ok_0@ == query_text(order_params(request)),
        },
{
    match check_order(&request) {
        Some(e) => {
            return Err(e);
        },
        None => {},
    }
    let side_text: String = String::from_str(request.side.as_str());
    let type_text: String = String::from_str(request.order_type.as_str());
    let resp_text: Option<String> = match request.new_order_resp_type {
        Some(resp_type) => Some(String::from_str(resp_type.as_str())),
        None => None,
    };
    let force_text: Option<String> = match request.time_in_force {
        Some(time_in_force) => Some(String::from_str(time_in_force.as_str())),
        None => None,
    };
    proof {
        lemma_order_keys();
    }
    let mut params: QueryParams = QueryParams::new();
    push_optional(&mut params, "icebergQty", amount_option(request.iceberg_qty));
    assert(params@ =~= optional(
        request.iceberg_qty is Some,
        "icebergQty"@,
        amount_text(request.iceberg_qty->0 as int),
    ));
    push_param(&mut params, "newClientOrderId", request.new_client_order_id);
    push_optional(&mut params, "newOrderRespType", resp_text);
    push_optional(&mut params, "price", amount_option(request.price));
    push_optional(&mut params, "quantity", amount_option(request.quantity));
    push_optional(&mut params, "quoteOrderQty", amount_option(request.quote_order_qty));
    push_optional(&mut params, "recvWindow", count_option(request.recv_window));
    push_param(&mut params, "side", side_text);
    push_optional(&mut params, "stopPrice", amount_option(request.stop_price));
    push_param(&mut params, "symbol", request.symbol);
    push_optional(&mut params, "timeInForce", force_text);
    push_param(&mut params, "timestamp", integer_to_string(request.timestamp));
    push_param(&mut params, "type", type_text);
    Ok(construct_query(params))
}

/// What a request for candles lacks, if anything.
pub open spec fn kline_defect(req: KlineInput) -> Option<QueryError> {
    if req.start_time is Some && req.end_time is None {
        Some(QueryError::MissingEndTime)
    } else if req.limit is Some && req.limit->0 > 1000 {
        Some(QueryError::LimitTooLarge)
    } else {
        None
    }
}

/// The parameters of a request for candles, in the order of their keys. The end time
/// is sent only together with a start time.
pub open spec fn kline_params(req: KlineInput) -> Params {
    optional(req.start_time is Some, "endTime"@, integer_text(req.end_time->0 as int)) + seq![
        ("interval"@, req.interval@),
    ] + optional(req.limit is Some, "limit"@, natural_text(req.limit->0 as nat)) + optional(
        req.start_time is Some,
        "startTime"@,
        integer_text(req.start_time->0 as int),
    ) + seq![("symbol"@, req.symbol@)]
}

/// The query of a request for candles, or what the request lacks.
pub fn build_kline_query(req: KlineInput) -> (query: Result<String, QueryError>)
    ensures
        match kline_defect(req) {
            Some(e) => query is Err && query->Err_0 == e,
            None => query is Ok && query->Ok_0@ == query_text(kline_params(req)),
        },
{
    if req.start_time.is_some() && req.end_time.is_none() {
        return Err(QueryError::MissingEndTime);
    }
    match req.limit {
        Some(limit) => {
            if limit > 1000 {
                return Err(QueryError::LimitTooLarge);
            }
        },
        None => {},
    }
    let end_text: Option<String> = if req.start_time.is_some() {
        time_option(req.end_time)
    } else {
        None
    };
    proof {
        lemma_kline_keys();
    }
    let mut params: QueryParams = QueryParams::new();
    push_optional(&mut params, "endTime", end_text);
    assert(params@ =~= optional(
        req.start_time is Some,
        "endTime"@,
        integer_text(req.end_time->0 as int),
    ));
    push_param(&mut params, "interval", req.interval);
    push_optional(&mut params, "limit", count_option(req.limit));
    push_optional(&mut params, "startTime", time_option(req.start_time));
    push_param(&mut params, "symbol", req.symbol);
    Ok(construct_query(params))
}

/// The parameters of a request for the account, in the order of their keys.
pub open spec fn account_info_params(recv_window: Option<i64>, now: i64) -> Params {
    optional(recv_window is Some, "recvWindow"@, integer_text(recv_window->0 as int)) + seq![
        ("timestamp"@, integer_text(now as int)),
    ]
}

/// The query of a request for the account that is made at `now`. A receive
/// window of sixty seconds or more is refused.
pub fn build_spot_account_info_query_at(recv_window: Option<i64>, now: i64) -> (query: Result<
    String,
    QueryError,
>)
    ensures
        recv_window is Some && recv_window->0 >= 60000 ==> query is Err && query->Err_0
            == QueryError::RecvWindowTooLong,
        !(recv_window is Some && recv_window->0 >= 60000) ==> query is Ok && query->Ok_0@
            == query_text(account_info_params(recv_window, now)),
{
    match recv_window {
        Some(window) => {
            if window >= 60000 {
                return Err(QueryError::RecvWindowTooLong);
            }
        },
        None => {},
    }
    proof {
        lemma_account_keys();
    }
    let mut params: QueryParams = QueryParams::new();
    push_optional(&mut params, "recvWindow", time_option(recv_window));
    assert(params@ =~= optional(
        recv_window is Some,
        "recvWindow"@,
        integer_text(recv_window->0 as int),
    ));
    push_param(&mut params, "timestamp", integer_to_string(now));
    Ok(construct_query(params))
}

/// The query of a request for the account that is made now, by the wall
/// clock.
pub fn build_spot_account_info_query(recv_window: Option<i64>) -> (query: Result<
    String,
    QueryError,
>)
    ensures
        recv_window is Some && recv_window->0 >= 60000 ==> query is Err && query->Err_0
            == QueryError::RecvWindowTooLong,
        !(recv_window is Some && recv_window->0 >= 60000) ==> query is Ok && exists|now: i64|
            query->Ok_0@ == query_text(account_info_params(recv_window, now)),
{
    let now: i64 = get_timestamp();
    build_spot_account_info_query_at(recv_window, now)
}

} // verus!
