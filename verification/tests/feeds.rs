use mm_gateway::book::top_of_book::SharedTopOfBook;
use mm_gateway::config::{VenueKind, VenueRuntimeConfig};
use mm_gateway::metrics::counters::Metrics;
use mm_gateway::metrics::latency::{micros_since_epoch, millis_from_micros, now_ms, now_us};
use mm_gateway::types::{DepthSnapshot, PriceLevel};
use mm_gateway::venue::feed_error::FeedParseError;
use mm_gateway::venue::supervisor::{StreamAction, VenueSupervisor};
use std::sync::Arc;

fn runtime(kind: VenueKind, name: &str, venue_symbol: &str) -> VenueRuntimeConfig {
    VenueRuntimeConfig {
        name: name.to_string(),
        kind,
        symbol: "BTCUSDT".to_string(),
        venue_symbol: venue_symbol.to_string(),
        stream_url: "wss://example".to_string(),
        snapshot_url: None,
        heartbeat_timeout_ms: 1000,
        reconnect_base_delay_ms: 100,
        reconnect_max_delay_ms: 1000,
        stale_after_ms: 3000,
    }
}

fn snapshot() -> DepthSnapshot {
    DepthSnapshot {
        venue: "BINANCE".to_string(),
        symbol: "BTCUSDT".to_string(),
        venue_symbol: "BTCUSDT".to_string(),
        last_update_id: 100,
        bids: vec![PriceLevel { price: 99, qty: 100_000_000 }],
        asks: vec![PriceLevel { price: 101, qty: 100_000_000 }],
        receive_ts_us: 5,
    }
}

fn depth(first: u64, last: u64, bid: &str, qty: &str) -> String {
    format!(
        r#"{{"e":"depthUpdate","E":1,"s":"BTCUSDT","U":{},"u":{},"b":[["{}","{}"]],"a":[]}}"#,
        first, last, bid, qty
    )
}

#[test]
fn depth_feed_returns_the_top_to_publish() {
    let store = SharedTopOfBook::default();
    let metrics = Arc::new(Metrics::default());
    let sup = VenueSupervisor::new(runtime(VenueKind::Binance, "BINANCE", "BTCUSDT"), metrics.clone(), store.clone());
    assert!(Arc::ptr_eq(sup.metrics(), &metrics));

    let (mut book, top) = sup.start_book(snapshot());
    let top = top.unwrap();
    assert_eq!(top.bid_price, 99);
    assert_eq!(top.ask_price, 101);
    sup.publish(top);
    assert_eq!(store.get("BINANCE", "BTCUSDT").unwrap().sequence, 100);

    let (action, top) = sup.handle_binance_depth_message(&depth(101, 101, "100.00", "1"), &mut book);
    assert_eq!(action, StreamAction::Continue);
    let top = top.unwrap();
    assert_eq!(top.bid_price, 10_000);
    assert_eq!(top.sequence, 101);

    let (action, top) = sup.handle_binance_depth_message(&depth(101, 101, "1.00", "1"), &mut book);
    assert_eq!(action, StreamAction::Continue);
    assert!(top.is_none());

    let (action, top) = sup.handle_binance_depth_message(&depth(200, 201, "1.00", "1"), &mut book);
    assert_eq!(action, StreamAction::ResyncRequired);
    assert!(top.is_none());

    let (action, top) = sup.handle_binance_depth_message("not json", &mut book);
    assert_eq!(action, StreamAction::Continue);
    assert!(top.is_none());
    assert_eq!(book.last_update_id(), 101);
    assert_eq!(metrics.snapshot().parse_errors, 1);
    assert_eq!(metrics.snapshot().sequence_gaps_detected, 1);
}

#[test]
fn ticker_feed_returns_the_top_to_publish() {
    let sup = VenueSupervisor::new(
        runtime(VenueKind::Kraken, "KRAKEN", "BTC/USD"),
        Arc::new(Metrics::default()),
        SharedTopOfBook::default(),
    );
    let raw = r#"{"channel":"ticker","data":[{"symbol":"BTC/USD","bid":10.5,"ask":10.6,"bid_qty":2}]}"#;
    let top = sup.handle_top_of_book_message(raw).unwrap().unwrap();
    assert_eq!(top.venue, "KRAKEN");
    assert_eq!(top.symbol, "BTCUSDT");
    assert_eq!(top.bid_price, 1050);
    assert_eq!(top.ask_price, 1060);
    assert_eq!(top.bid_qty, 200_000_000);
    assert!(sup.handle_top_of_book_message(r#"{"method":"pong"}"#).unwrap().is_none());
    assert!(matches!(sup.handle_top_of_book_message("{"), Err(FeedParseError::InvalidJson)));
    assert!(sup.subscribe_request().unwrap().contains("BTC/USD"));
}

#[test]
fn clock_readings_convert_exactly() {
    assert_eq!(micros_since_epoch(None), 0);
    assert_eq!(micros_since_epoch(Some(42)), 42);
    assert_eq!(micros_since_epoch(Some(u128::MAX)), i64::MAX);
    assert_eq!(millis_from_micros(1_999_999), 1_999);
    assert_eq!(millis_from_micros(-1_500), -1);
    assert!(now_us() > 1_600_000_000_000_000);
    assert!(now_ms() > 1_600_000_000_000);
}
