use crypto_trading::binance::api::{
    KlineInput, Market, OrderInput, OrderRespType, OrderSide, OrderType, Spot, TimeInForce,
};
use crypto_trading::error::{QueryError, StrategyError};
use crypto_trading::fixed::SCALE;
use crypto_trading::shared::csv_schema::CsvDataType;
use crypto_trading::shared::query_params::{compare_text, KeyOrder, QueryParams};
use crypto_trading::shared::utils::{
    build_kline_query, build_order_query, build_spot_account_info_query,
    build_spot_account_info_query_at, construct_query, get_timestamp,
};

fn params(pairs: &[(&str, &str)]) -> QueryParams {
    let mut params = QueryParams::new();
    for (key, value) in pairs {
        params.insert(String::from(*key), String::from(*value));
    }
    params
}

fn order(order_type: OrderType) -> OrderInput {
    OrderInput {
        symbol: String::from("BTCUSDT"),
        side: OrderSide::Buy,
        order_type,
        time_in_force: None,
        quantity: None,
        quote_order_qty: None,
        price: None,
        new_client_order_id: String::from("long_1"),
        stop_price: None,
        iceberg_qty: None,
        new_order_resp_type: None,
        recv_window: None,
        timestamp: 1_600_000_000_000,
    }
}

#[test]
fn query_joins_the_pairs_with_ampersands() {
    assert_eq!(construct_query(QueryParams::new()), "");
    assert_eq!(construct_query(params(&[("symbol", "BTCUSDT")])), "symbol=BTCUSDT");
    assert_eq!(construct_query(params(&[("a", "1"), ("b", ""), ("c", "x=y")])), "a=1&b=&c=x=y");
}

#[test]
fn query_lists_the_keys_in_their_order_whatever_the_order_of_insertion() {
    let wanted = "interval=1d&limit=5&symbol=BTCUSDT";
    let orders = [
        [("symbol", "BTCUSDT"), ("limit", "5"), ("interval", "1d")],
        [("interval", "1d"), ("limit", "5"), ("symbol", "BTCUSDT")],
        [("limit", "5"), ("symbol", "BTCUSDT"), ("interval", "1d")],
        [("limit", "5"), ("interval", "1d"), ("symbol", "BTCUSDT")],
    ];
    for pairs in orders {
        assert_eq!(construct_query(params(&pairs)), wanted);
    }
}

#[test]
fn query_holds_each_key_once_with_its_last_value() {
    let twice = params(&[("b", "1"), ("a", "2"), ("b", "3"), ("c", "4"), ("a", "5")]);
    assert_eq!(twice.len(), 3);
    assert_eq!(twice.key(0), "a");
    assert_eq!(twice.value(0), "5");
    assert_eq!(twice.key(1), "b");
    assert_eq!(twice.value(1), "3");
    assert_eq!(construct_query(twice), "a=5&b=3&c=4");
}

#[test]
fn keys_are_ordered_character_by_character() {
    // Capitals stand before small letters, and a text before every longer
    // text that starts with it.
    let mixed = params(&[("b", "1"), ("ab", "2"), ("a", "3"), ("B", "4"), ("", "5"), ("é", "6")]);
    assert_eq!(construct_query(mixed), "=5&B=4&a=3&ab=2&b=1&é=6");
    assert_eq!(compare_text("timeInForce", "timestamp"), KeyOrder::Before);
    assert_eq!(compare_text("symbol", "stopPrice"), KeyOrder::After);
    assert_eq!(compare_text("price", "price"), KeyOrder::Same);
    assert_eq!(compare_text("", ""), KeyOrder::Same);
    assert_eq!(compare_text("", "a"), KeyOrder::Before);
    assert_eq!(compare_text("limit", "limi"), KeyOrder::After);
}

#[test]
fn keys_are_ordered_as_a_sorted_map_orders_them() {
    let keys = ["type", "symbol", "side", "", "Z", "a", "zz", "z", "é", "日本", "stopPrice", "a b"];
    let mut map = std::collections::BTreeMap::new();
    let mut ours = QueryParams::new();
    for (i, key) in keys.iter().enumerate() {
        map.insert(key.to_string(), i.to_string());
        ours.insert(key.to_string(), i.to_string());
    }
    let sorted: Vec<String> = map.iter().map(|(k, v)| format!("{}={}", k, v)).collect();
    assert_eq!(construct_query(ours), sorted.join("&"));
}

#[test]
fn kline_query_lists_its_keys_in_order() {
    let req = KlineInput {
        symbol: String::from("BTCUSDT"),
        interval: String::from("1d"),
        start_time: Some(1_000),
        end_time: Some(2_000),
        limit: Some(21),
    };
    assert_eq!(
        build_kline_query(req),
        Ok(String::from("endTime=2000&interval=1d&limit=21&startTime=1000&symbol=BTCUSDT"))
    );
}

#[test]
fn kline_query_without_times_leaves_them_out() {
    let req = KlineInput {
        symbol: String::from("ETHUSDT"),
        interval: String::from("1h"),
        start_time: None,
        end_time: Some(2_000),
        limit: None,
    };
    assert_eq!(build_kline_query(req), Ok(String::from("interval=1h&symbol=ETHUSDT")));
}

#[test]
fn kline_query_needs_an_end_for_a_start() {
    let req = KlineInput {
        symbol: String::from("BTCUSDT"),
        interval: String::from("1d"),
        start_time: Some(1_000),
        end_time: None,
        limit: Some(5_000),
    };
    assert_eq!(build_kline_query(req), Err(QueryError::MissingEndTime));
}

#[test]
fn kline_query_takes_at_most_a_thousand_candles() {
    let mut req = KlineInput {
        symbol: String::from("BTCUSDT"),
        interval: String::from("1d"),
        start_time: None,
        end_time: None,
        limit: Some(1_000),
    };
    assert_eq!(
        build_kline_query(req.clone()),
        Ok(String::from("interval=1d&limit=1000&symbol=BTCUSDT"))
    );
    req.limit = Some(1_001);
    assert_eq!(build_kline_query(req), Err(QueryError::LimitTooLarge));
}

#[test]
fn market_order_query_lists_its_keys_in_order() {
    let mut request = order(OrderType::Market);
    request.quote_order_qty = Some(2025 * SCALE);
    assert_eq!(
        build_order_query(request),
        Ok(String::from(
            "newClientOrderId=long_1&quoteOrderQty=2025&side=BUY&symbol=BTCUSDT&timestamp=1600000000000&type=MARKET"
        ))
    );
}

#[test]
fn full_order_query_lists_every_key() {
    let request = OrderInput {
        symbol: String::from("BTCUSDT"),
        side: OrderSide::Sell,
        order_type: OrderType::StopLossLimit,
        time_in_force: Some(TimeInForce::GTC),
        quantity: Some(150_000_000),
        quote_order_qty: Some(2 * SCALE),
        price: Some(40_000 * SCALE),
        new_client_order_id: String::from("short_9"),
        stop_price: Some(39_000 * SCALE),
        iceberg_qty: Some(1),
        new_order_resp_type: Some(OrderRespType::Full),
        recv_window: Some(5_000),
        timestamp: 12,
    };
    assert_eq!(
        build_order_query(request),
        Ok(String::from(
            "icebergQty=0.00000001&newClientOrderId=short_9&newOrderRespType=FULL&price=40000&quantity=1.5&quoteOrderQty=2&recvWindow=5000&side=SELL&stopPrice=39000&symbol=BTCUSDT&timeInForce=GTC&timestamp=12&type=STOP_LOSS_LIMIT"
        ))
    );
}

#[test]
fn limit_order_needs_time_in_force_quantity_and_price() {
    let mut request = order(OrderType::Limit);
    assert_eq!(build_order_query(request.clone()), Err(QueryError::MissingTimeInForce));
    request.time_in_force = Some(TimeInForce::IOC);
    assert_eq!(build_order_query(request.clone()), Err(QueryError::MissingQuantity));
    request.quantity = Some(SCALE);
    assert_eq!(build_order_query(request.clone()), Err(QueryError::MissingPrice));
    request.price = Some(SCALE);
    assert!(build_order_query(request).is_ok());
}

#[test]
fn market_order_needs_a_quantity_of_either_kind() {
    let mut request = order(OrderType::Market);
    assert_eq!(
        build_order_query(request.clone()),
        Err(QueryError::MissingQuantityOrQuoteOrderQty)
    );
    request.quantity = Some(SCALE);
    assert!(build_order_query(request).is_ok());
}

#[test]
fn stop_orders_need_quantity_and_stop_price() {
    for order_type in [OrderType::StopLoss, OrderType::TakeProfit] {
        let mut request = order(order_type);
        assert_eq!(build_order_query(request.clone()), Err(QueryError::MissingQuantity));
        request.quantity = Some(SCALE);
        assert_eq!(build_order_query(request.clone()), Err(QueryError::MissingStopPrice));
        request.stop_price = Some(SCALE);
        assert!(build_order_query(request).is_ok());
    }
}

#[test]
fn stop_limit_orders_need_all_four() {
    for order_type in [OrderType::StopLossLimit, OrderType::TakeProfitLimit] {
        let mut request = order(order_type);
        assert_eq!(build_order_query(request.clone()), Err(QueryError::MissingTimeInForce));
        request.time_in_force = Some(TimeInForce::FOK);
        assert_eq!(build_order_query(request.clone()), Err(QueryError::MissingQuantity));
        request.quantity = Some(SCALE);
        assert_eq!(build_order_query(request.clone()), Err(QueryError::MissingPrice));
        request.price = Some(SCALE);
        assert_eq!(build_order_query(request.clone()), Err(QueryError::MissingStopPrice));
        request.stop_price = Some(SCALE);
        assert!(build_order_query(request).is_ok());
    }
}

#[test]
fn limit_maker_order_needs_quantity_and_price() {
    let mut request = order(OrderType::LimitMaker);
    assert_eq!(build_order_query(request.clone()), Err(QueryError::MissingQuantity));
    request.quantity = Some(SCALE);
    assert_eq!(build_order_query(request.clone()), Err(QueryError::MissingPrice));
    request.price = Some(SCALE);
    assert_eq!(
        build_order_query(request),
        Ok(String::from(
            "newClientOrderId=long_1&price=1&quantity=1&side=BUY&symbol=BTCUSDT&timestamp=1600000000000&type=LIMIT_MAKER"
        ))
    );
}

#[test]
fn account_query_carries_the_time() {
    assert_eq!(
        build_spot_account_info_query_at(None, 1_600_000_000_000),
        Ok(String::from("timestamp=1600000000000"))
    );
    assert_eq!(
        build_spot_account_info_query_at(Some(59_999), 7),
        Ok(String::from("recvWindow=59999&timestamp=7"))
    );
    assert_eq!(
        build_spot_account_info_query_at(Some(-1), 7),
        Ok(String::from("recvWindow=-1&timestamp=7"))
    );
}

#[test]
fn account_query_refuses_a_long_receive_window() {
    assert_eq!(
        build_spot_account_info_query_at(Some(60_000), 7),
        Err(QueryError::RecvWindowTooLong)
    );
    assert_eq!(build_spot_account_info_query(Some(60_000)), Err(QueryError::RecvWindowTooLong));
}

#[test]
fn account_query_by_the_wall_clock_carries_a_present_time() {
    let before = get_timestamp();
    let query = build_spot_account_info_query(Some(5)).unwrap();
    let after = get_timestamp();
    let time: i64 = query.strip_prefix("recvWindow=5&timestamp=").unwrap().parse().unwrap();
    assert!(before <= time && time <= after);
    assert!(before > 1_600_000_000_000);
}

#[test]
fn names_of_the_exchange_are_spelled_out() {
    assert_eq!(String::from(Spot::OpenOrders), "/api/v3/openOrders");
    assert_eq!(String::from(Spot::TestNewOrder), "/api/v3/order/test");
    assert_eq!(String::from(Spot::NewOrder), "/api/v3/order");
    assert_eq!(String::from(Spot::AccountInfo), "/api/v3/account");
    assert_eq!(String::from(Market::Kline), "/api/v3/klines");
    assert_eq!(String::from(OrderSide::Buy), "BUY");
    assert_eq!(String::from(OrderSide::Sell), "SELL");
    assert_eq!(String::from(OrderType::Limit), "LIMIT");
    assert_eq!(String::from(OrderType::Market), "MARKET");
    assert_eq!(String::from(OrderType::StopLoss), "STOP_LOSS");
    assert_eq!(String::from(OrderType::StopLossLimit), "STOP_LOSS_LIMIT");
    assert_eq!(String::from(OrderType::TakeProfit), "TAKE_PROFIT");
    assert_eq!(String::from(OrderType::TakeProfitLimit), "TAKE_PROFIT_LIMIT");
    assert_eq!(String::from(OrderType::LimitMaker), "LIMIT_MAKER");
    assert_eq!(String::from(TimeInForce::GTC), "GTC");
    assert_eq!(String::from(TimeInForce::IOC), "IOC");
    assert_eq!(String::from(TimeInForce::FOK), "FOK");
    assert_eq!(String::from(OrderRespType::Ack), "ACK");
    assert_eq!(String::from(OrderRespType::Result), "RESULT");
    assert_eq!(String::from(OrderRespType::Full), "FULL");
    assert_eq!(String::from(CsvDataType::Trade), "trade");
    assert_eq!(String::from(CsvDataType::OrderBook), "orderbook");
    let endpoint: String = Spot::NewOrder.into();
    assert_eq!(endpoint, Spot::NewOrder.as_str());
}

#[test]
fn errors_say_what_went_wrong() {
    assert_eq!(StrategyError::InsufficientSeedData.message(), "Not enough data supplied");
    assert_eq!(StrategyError::PositionLimitExceeded.message(), "Position limit exceeded");
    assert_eq!(StrategyError::MalformedCandle.message(), "Malformed candle");
    assert_eq!(StrategyError::DegenerateVolatility.message(), "Degenerate volatility");
    assert_eq!(StrategyError::AmountOutOfRange.message(), "Amount out of range");
    assert_eq!(QueryError::MissingTimeInForce.message(), "Missing Time In Force");
    assert_eq!(QueryError::MissingQuantity.message(), "Missing Quantity");
    assert_eq!(QueryError::MissingPrice.message(), "Missing Price");
    assert_eq!(
        QueryError::MissingQuantityOrQuoteOrderQty.message(),
        "Missing Quantity or Quote Order Qty"
    );
    assert_eq!(QueryError::MissingStopPrice.message(), "Missing Stop Price");
    assert_eq!(QueryError::MissingEndTime.message(), "End time can't be None if start time is set");
    assert_eq!(QueryError::LimitTooLarge.message(), "Limit value exceeds 1000");
    assert_eq!(
        QueryError::RecvWindowTooLong.message(),
        "Recv window too long, can't exceed 60000"
    );
}

#[test]
fn market_order_for_half_a_unit_writes_the_shortest_decimal() {
    let mut request = order(OrderType::Market);
    request.quote_order_qty = Some(SCALE / 2);
    request.new_client_order_id = String::from("x");
    request.timestamp = 1;
    assert_eq!(
        build_order_query(request),
        Ok(String::from(
            "newClientOrderId=x&quoteOrderQty=0.5&side=BUY&symbol=BTCUSDT&timestamp=1&type=MARKET"
        ))
    );
}

#[test]
fn limit_order_writes_price_and_quantity_in_the_shortest_decimal() {
    let mut request = order(OrderType::Limit);
    request.side = OrderSide::Sell;
    request.time_in_force = Some(TimeInForce::GTC);
    request.quantity = Some(150_000_000);
    request.price = Some(2_000_050_000_000);
    request.new_client_order_id = String::from("abc");
    request.timestamp = 1;
    assert_eq!(
        build_order_query(request),
        Ok(String::from(
            "newClientOrderId=abc&price=20000.5&quantity=1.5&side=SELL&symbol=BTCUSDT&timeInForce=GTC&timestamp=1&type=LIMIT"
        ))
    );
}
