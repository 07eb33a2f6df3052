use mm_gateway::decimal::{chars_of, parse_scaled_decimal, parse_scaled_float, parse_u64_literal};
use mm_gateway::json::{parse_json, JsonValue};
use mm_gateway::metrics::latency::now_us;
use mm_gateway::venue::binance::{
    parse_depth_snapshot, parse_depth_update, parse_levels, price_to_ticks, qty_to_units,
};
use mm_gateway::venue::feed_error::FeedParseError;
use mm_gateway::venue::{coinbase, kraken};

#[test]
fn converts_decimal_price_to_cent_ticks() {
    assert_eq!(price_to_ticks("81633.47").unwrap(), 8_163_347);
    assert_eq!(price_to_ticks("86.62").unwrap(), 8_662);
    assert_eq!(price_to_ticks("2382.18").unwrap(), 238_218);
}

#[test]
fn parses_binance_depth_update() {
    let raw = r#"{
        "e": "depthUpdate",
        "E": 1778014907000,
        "s": "BTCUSDT",
        "U": 101,
        "u": 102,
        "b": [["81633.47", "1.25"]],
        "a": [["81633.48", "2.50"]]
    }"#;

    let update = parse_depth_update("BINANCE", "BTCUSDT", "BTCUSDT", raw, now_us()).unwrap();

    assert_eq!(update.venue, "BINANCE");
    assert_eq!(update.symbol, "BTCUSDT");
    assert_eq!(update.first_update_id, 101);
    assert_eq!(update.final_update_id, 102);
    assert_eq!(update.bids[0].price, 8_163_347);
    assert_eq!(update.asks[0].price, 8_163_348);
}

#[test]
fn depth_update_keeps_quantities_in_fixed_point() {
    let raw = r#"{"e": "depthUpdate", "E": 5, "s": "BTCUSDT", "U": 1, "u": 2, "b": [["10.00", "1.25"], ["9.99", "0"]], "a": []}"#;
    let update = parse_depth_update("BINANCE", "BTCUSDT", "BTCUSDT", raw, 7).unwrap();
    assert_eq!(update.bids.len(), 2);
    assert_eq!(update.bids[0].qty, 125_000_000);
    assert_eq!(update.bids[1].price, 999);
    assert_eq!(update.bids[1].qty, 0);
    assert!(update.asks.is_empty());
    assert_eq!(update.receive_ts_us, 7);
    assert_eq!(update.venue_symbol, "BTCUSDT");
}

#[test]
fn depth_update_errors_name_the_cause() {
    let bad_json = parse_depth_update("BINANCE", "BTCUSDT", "BTCUSDT", "{not json", 0);
    assert!(matches!(bad_json, Err(FeedParseError::InvalidJson)));

    let missing = parse_depth_update("BINANCE", "BTCUSDT", "BTCUSDT", r#"{"e": "depthUpdate", "E": 5, "s": "BTCUSDT", "U": 1, "b": [], "a": []}"#, 0);
    match missing {
        Err(FeedParseError::MissingField(f)) => assert_eq!(f, "u"),
        other => panic!("unexpected {:?}", other),
    }

    let bad_price = parse_depth_update(
        "BINANCE",
        "BTCUSDT",
        "BTCUSDT",
        r#"{"e": "depthUpdate", "E": 5, "s": "BTCUSDT", "U": 1, "u": 2, "b": [["abc", "1"]], "a": []}"#,
        0,
    );
    match bad_price {
        Err(FeedParseError::InvalidNumber(t)) => assert_eq!(t, "abc"),
        other => panic!("unexpected {:?}", other),
    }
}

#[test]
fn parses_binance_depth_snapshot() {
    let body = r#"{"lastUpdateId": 1027024, "bids": [["4.00000000", "431.00000000"]], "asks": [["4.00000200", "12.00000000"]]}"#;
    let snap = parse_depth_snapshot("BINANCE", "BTCUSDT", "BTCUSDT", body, 99).unwrap();
    assert_eq!(snap.last_update_id, 1_027_024);
    assert_eq!(snap.bids[0].price, 400);
    assert_eq!(snap.bids[0].qty, 43_100_000_000);
    assert_eq!(snap.asks[0].price, 400);
    assert_eq!(snap.asks[0].qty, 1_200_000_000);
    assert_eq!(snap.receive_ts_us, 99);
}

#[test]
fn parse_levels_reads_pairs_in_order() {
    let raw = vec![
        ["1.005".to_string(), "0.000000015".to_string()],
        ["-2.5".to_string(), "1e-2".to_string()],
    ];
    let levels = parse_levels(&raw).unwrap();
    assert_eq!(levels[0].price, 101);
    assert_eq!(levels[0].qty, 2);
    assert_eq!(levels[1].price, -250);
    assert_eq!(levels[1].qty, 1_000_000);
}

#[test]
fn decimal_rounding_and_exponents() {
    assert_eq!(price_to_ticks("0.125").unwrap(), 13);
    assert_eq!(price_to_ticks("-0.125").unwrap(), -13);
    assert_eq!(price_to_ticks("0.124").unwrap(), 12);
    assert_eq!(price_to_ticks("1.5e2").unwrap(), 15_000);
    assert_eq!(price_to_ticks("81630.1").unwrap(), 8_163_010);
    assert_eq!(price_to_ticks("+7").unwrap(), 700);
    assert_eq!(price_to_ticks(".5").unwrap(), 50);
    assert_eq!(price_to_ticks("5.").unwrap(), 500);
    assert_eq!(qty_to_units("0.4").unwrap(), 40_000_000);
    assert!(matches!(price_to_ticks(""), Err(FeedParseError::InvalidNumber(_))));
    assert!(matches!(price_to_ticks("1.2.3"), Err(FeedParseError::InvalidNumber(_))));
    assert_eq!(price_to_ticks("1e400").unwrap(), i64::MAX);
    assert_eq!(price_to_ticks("-1e30").unwrap(), i64::MIN);
    assert!(matches!(price_to_ticks("in"), Err(FeedParseError::InvalidNumber(_))));
    assert_eq!(parse_scaled_decimal(&chars_of("12.345"), 0), Some(12));
    assert_eq!(parse_scaled_decimal(&chars_of("nan"), 2), None);
}

#[test]
fn reads_u64_literals() {
    assert_eq!(parse_u64_literal(&chars_of("123")), Some(123));
    assert_eq!(parse_u64_literal(&chars_of("18446744073709551615")), Some(u64::MAX));
    assert_eq!(parse_u64_literal(&chars_of("18446744073709551616")), None);
    assert_eq!(parse_u64_literal(&chars_of("-1")), None);
    assert_eq!(parse_u64_literal(&chars_of("")), None);
}

#[test]
fn json_documents_keep_number_text() {
    let doc = parse_json(r#"{"a": [1, 2.50, "x"], "b": null}"#).unwrap();
    let a = doc.get("a").unwrap().as_array().unwrap();
    assert_eq!(a[0].as_u64(), Some(1));
    assert!(matches!(&a[1], JsonValue::Number(t) if t == "2.5"));
    assert_eq!(a[2].as_str().map(|s| s.as_str()), Some("x"));
    assert!(matches!(doc.get("b"), Some(JsonValue::Null)));
    assert!(doc.get("c").is_none());
    assert!(parse_json("[1,").is_none());
}

#[test]
fn creates_coinbase_subscribe_message() {
    let msg = coinbase::subscribe_message("BTC-USD");

    assert!(msg.contains("subscribe"));
    assert!(msg.contains("BTC-USD"));
    assert!(msg.contains("ticker"));
}

#[test]
fn coinbase_subscribe_message_is_exact_json() {
    let msg = coinbase::subscribe_message("BTC-\"USD");
    assert_eq!(
        msg,
        r#"{"channels":["ticker"],"product_ids":["BTC-\"USD"],"type":"subscribe"}"#
    );
}

#[test]
fn parses_coinbase_ticker() {
    let raw = r#"{
        "type": "ticker",
        "product_id": "BTC-USD",
        "best_bid": "81628.20",
        "best_bid_size": "0.5",
        "best_ask": "81628.21",
        "best_ask_size": "0.7",
        "sequence": 123
    }"#;

    let update = coinbase::parse_ticker("COINBASE", "BTCUSDT", "BTC-USD", raw, now_us())
        .unwrap()
        .unwrap();

    assert_eq!(update.venue, "COINBASE");
    assert_eq!(update.symbol, "BTCUSDT");
    assert_eq!(update.bid_price, 8_162_820);
    assert_eq!(update.ask_price, 8_162_821);
    assert_eq!(update.bid_qty, 50_000_000);
    assert_eq!(update.ask_qty, 70_000_000);
    assert_eq!(update.sequence, 123);
}

#[test]
fn coinbase_ignores_non_ticker_message() {
    let raw = r#"{"type":"subscriptions"}"#;

    let update = coinbase::parse_ticker("COINBASE", "BTCUSDT", "BTC-USD", raw, now_us()).unwrap();

    assert!(update.is_none());
}

#[test]
fn coinbase_ticker_edge_cases() {
    let other_product = r#"{"type":"ticker","product_id":"ETH-USD","best_bid":"1","best_ask":"2"}"#;
    assert!(coinbase::parse_ticker("COINBASE", "BTCUSDT", "BTC-USD", other_product, 0)
        .unwrap()
        .is_none());

    let string_sequence = r#"{"type":"ticker","product_id":"BTC-USD","best_bid":"1","best_ask":"2","sequence":"77"}"#;
    let u = coinbase::parse_ticker("COINBASE", "BTCUSDT", "BTC-USD", string_sequence, 5)
        .unwrap()
        .unwrap();
    assert_eq!(u.sequence, 77);
    assert_eq!(u.bid_qty, 0);
    assert_eq!(u.ask_qty, 0);
    assert_eq!(u.receive_ts_us, 5);

    let missing_ask = r#"{"type":"ticker","product_id":"BTC-USD","best_bid":"1"}"#;
    match coinbase::parse_ticker("COINBASE", "BTCUSDT", "BTC-USD", missing_ask, 0) {
        Err(FeedParseError::MissingField(f)) => assert_eq!(f, "best_ask"),
        other => panic!("unexpected {:?}", other),
    }

    let numeric_bid = r#"{"type":"ticker","product_id":"BTC-USD","best_bid":1,"best_ask":"2"}"#;
    assert!(matches!(
        coinbase::parse_ticker("COINBASE", "BTCUSDT", "BTC-USD", numeric_bid, 0),
        Err(FeedParseError::MissingField(_))
    ));

    assert!(matches!(
        coinbase::parse_ticker("COINBASE", "BTCUSDT", "BTC-USD", "nope", 0),
        Err(FeedParseError::InvalidJson)
    ));
}

#[test]
fn creates_kraken_subscribe_message() {
    let msg = kraken::subscribe_message("BTC/USD");

    assert!(msg.contains("subscribe"));
    assert!(msg.contains("BTC/USD"));
    assert!(msg.contains("ticker"));
}

#[test]
fn kraken_subscribe_message_is_exact_json() {
    assert_eq!(
        kraken::subscribe_message("BTC/USD"),
        r#"{"method":"subscribe","params":{"channel":"ticker","event_trigger":"bbo","snapshot":true,"symbol":["BTC/USD"]}}"#
    );
}

#[test]
fn parses_kraken_ticker() {
    let raw = r#"{
        "channel": "ticker",
        "type": "snapshot",
        "data": [
            {
                "symbol": "BTC/USD",
                "bid": 81630.00,
                "bid_qty": 0.25,
                "ask": 81630.10,
                "ask_qty": 0.40
            }
        ]
    }"#;

    let update = kraken::parse_ticker("KRAKEN", "BTCUSDT", "BTC/USD", raw, now_us())
        .unwrap()
        .unwrap();

    assert_eq!(update.venue, "KRAKEN");
    assert_eq!(update.symbol, "BTCUSDT");
    assert_eq!(update.bid_price, 8_163_000);
    assert_eq!(update.ask_price, 8_163_010);
    assert_eq!(update.bid_qty, 25_000_000);
    assert_eq!(update.ask_qty, 40_000_000);
}

#[test]
fn kraken_ignores_non_ticker_message() {
    let raw = r#"{"method":"pong"}"#;

    let update = kraken::parse_ticker("KRAKEN", "BTCUSDT", "BTC/USD", raw, now_us()).unwrap();

    assert!(update.is_none());
}

#[test]
fn kraken_ticker_edge_cases() {
    let empty_data = r#"{"channel":"ticker","data":[]}"#;
    assert!(kraken::parse_ticker("KRAKEN", "BTCUSDT", "BTC/USD", empty_data, 0)
        .unwrap()
        .is_none());

    let string_prices = r#"{"channel":"ticker","data":[{"symbol":"BTC/USD","bid":"10.5","ask":"10.6","bid_qty":"x"}]}"#;
    let u = kraken::parse_ticker("KRAKEN", "BTCUSDT", "BTC/USD", string_prices, 3)
        .unwrap()
        .unwrap();
    assert_eq!(u.bid_price, 1050);
    assert_eq!(u.ask_price, 1060);
    assert_eq!(u.bid_qty, 0);
    assert_eq!(u.ask_qty, 0);

    let bool_bid = r#"{"channel":"ticker","data":[{"symbol":"BTC/USD","bid":true,"ask":"1"}]}"#;
    match kraken::parse_ticker("KRAKEN", "BTCUSDT", "BTC/USD", bool_bid, 0) {
        Err(FeedParseError::InvalidNumber(f)) => assert_eq!(f, "bid"),
        other => panic!("unexpected {:?}", other),
    }

    let no_ask = r#"{"channel":"ticker","data":[{"symbol":"BTC/USD","bid":1}]}"#;
    match kraken::parse_ticker("KRAKEN", "BTCUSDT", "BTC/USD", no_ask, 0) {
        Err(FeedParseError::MissingField(f)) => assert_eq!(f, "ask"),
        other => panic!("unexpected {:?}", other),
    }
}

#[test]
fn kraken_ticker_from_document_uses_given_sequence() {
    let doc = parse_json(r#"{"channel":"ticker","data":[{"symbol":"X","bid":1,"ask":2}]}"#).unwrap();
    let u = kraken::ticker_from_json("KRAKEN", "XUSD", "X", &doc, 1, 42).unwrap().unwrap();
    assert_eq!(u.sequence, 42);
    assert_eq!(u.bid_price, 100);
    assert_eq!(u.ask_price, 200);
}

#[test]
fn coinbase_ticker_from_document_falls_back_without_sequence() {
    let doc = parse_json(r#"{"type":"ticker","product_id":"P","best_bid":"1","best_ask":"2"}"#).unwrap();
    let u = coinbase::ticker_from_json("COINBASE", "S", "P", &doc, 1, 9).unwrap().unwrap();
    assert_eq!(u.sequence, 9);
}

#[test]
fn non_finite_spellings_read_as_floats_do() {
    assert_eq!(price_to_ticks("inf").unwrap(), i64::MAX);
    assert_eq!(price_to_ticks("+Infinity").unwrap(), i64::MAX);
    assert_eq!(price_to_ticks("-INF").unwrap(), i64::MIN);
    assert_eq!(price_to_ticks("NaN").unwrap(), 0);
    assert_eq!(price_to_ticks("-nan").unwrap(), 0);
    assert!(price_to_ticks("infinit").is_err());
    assert!(price_to_ticks("nan1").is_err());
    assert_eq!(qty_to_units("Inf").unwrap(), i64::MAX);
    assert_eq!(parse_scaled_float(&chars_of("2.5"), 1), Some(25));
    assert_eq!(parse_scaled_float(&chars_of("9e18"), 1), Some(i64::MAX));
    assert_eq!(parse_scaled_float(&chars_of("x"), 1), None);
}

#[test]
fn subscribe_messages_escape_control_characters() {
    assert_eq!(
        coinbase::subscribe_message("a\u{1}\n\\é"),
        "{\"channels\":[\"ticker\"],\"product_ids\":[\"a\\u0001\\n\\\\é\"],\"type\":\"subscribe\"}"
    );
}
