use mm_gateway::api::http::{
    aggregate_books, aggregate_for_symbol, route_for_symbol, best_ask_index, best_bid_index, book_response, book_statuses,
    fresh_books_for_symbol, market_status, parse_route_side, quote_decision, readiness,
    route_books, stale_after_or_default, QuoteOutcome, RouteOutcome, RouteSide,
    DEFAULT_STALE_AFTER_MS,
};
use mm_gateway::book::top_of_book::TopOfBookStore;
use mm_gateway::config::{
    parse_venue_kind, AppConfig, ConfigError, MarketConfig, RateLimitConfig, ServiceConfig,
    VenueConfig, VenueKind,
};
use mm_gateway::types::TopOfBook;

fn market(symbol: &str, venue_symbol: &str) -> MarketConfig {
    MarketConfig { symbol: symbol.to_string(), venue_symbol: venue_symbol.to_string() }
}

fn venue(name: &str, kind: &str, markets: Vec<MarketConfig>) -> VenueConfig {
    VenueConfig {
        name: name.to_string(),
        kind: kind.to_string(),
        ws_base_url: Some("wss://stream.example/ws".to_string()),
        rest_base_url: Some("https://api.example".to_string()),
        ws_url: Some("wss://feed.example".to_string()),
        heartbeat_timeout_ms: 10_000,
        reconnect_base_delay_ms: 500,
        reconnect_max_delay_ms: 30_000,
        stale_after_ms: 2_000,
        markets,
    }
}

fn config(venues: Vec<VenueConfig>) -> AppConfig {
    AppConfig {
        service: ServiceConfig { name: "gw".to_string(), http_addr: "127.0.0.1:8080".to_string() },
        venues,
        rate_limits: RateLimitConfig { outbound_messages_per_second: 5 },
    }
}

fn sample_config() -> AppConfig {
    config(vec![
        venue("BINANCE", "binance", vec![market("btcusdt", "BtcUsdt"), market("ethusdt", "ETHUSDT")]),
        venue("COINBASE", "Coinbase", vec![market("BTCUSDT", "BTC-USD")]),
        venue("KRAKEN", "KRAKEN", vec![market("BTCUSDT", "BTC/USD")]),
    ])
}

fn book(venue: &str, symbol: &str, bid: i64, ask: i64, ts: i64) -> TopOfBook {
    TopOfBook {
        venue: venue.to_string(),
        symbol: symbol.to_string(),
        venue_symbol: symbol.to_string(),
        bid_price: bid,
        bid_qty: 100_000_000,
        ask_price: ask,
        ask_qty: 200_000_000,
        sequence: 1,
        receive_ts_us: ts,
        last_update_latency_us: 0,
    }
}

#[test]
fn runtime_configs_follow_venue_kind() {
    let cfg = sample_config();
    let rt = cfg.venue_runtime_configs().unwrap();
    assert_eq!(rt.len(), 4);
    assert_eq!(rt[0].kind, VenueKind::Binance);
    assert_eq!(rt[0].symbol, "BTCUSDT");
    assert_eq!(rt[0].venue_symbol, "BTCUSDT");
    assert_eq!(rt[0].stream_url, "wss://stream.example/ws/btcusdt@depth@100ms");
    assert_eq!(
        rt[0].snapshot_url.as_deref(),
        Some("https://api.example/api/v3/depth?symbol=BTCUSDT&limit=1000")
    );
    assert_eq!(rt[1].symbol, "ETHUSDT");
    assert_eq!(rt[2].kind, VenueKind::Coinbase);
    assert_eq!(rt[2].venue_symbol, "BTC-USD");
    assert_eq!(rt[2].stream_url, "wss://feed.example");
    assert!(rt[2].snapshot_url.is_none());
    assert_eq!(rt[3].kind, VenueKind::Kraken);
    assert_eq!(rt[3].heartbeat_timeout_ms, 10_000);
    assert_eq!(rt[3].reconnect_base_delay_ms, 500);
    assert_eq!(rt[3].reconnect_max_delay_ms, 30_000);
    assert_eq!(rt[3].stale_after_ms, 2_000);
}

#[test]
fn runtime_config_errors() {
    let mut bad_kind = sample_config();
    bad_kind.venues[1].kind = "Bitstamp".to_string();
    match bad_kind.venue_runtime_configs() {
        Err(ConfigError::UnsupportedVenueKind(k)) => assert_eq!(k, "bitstamp"),
        other => panic!("unexpected {:?}", other),
    }

    let mut no_ws_base = sample_config();
    no_ws_base.venues[0].ws_base_url = None;
    assert!(matches!(no_ws_base.venue_runtime_configs(), Err(ConfigError::MissingWsBaseUrl)));

    let mut no_rest = sample_config();
    no_rest.venues[0].rest_base_url = None;
    assert!(matches!(no_rest.venue_runtime_configs(), Err(ConfigError::MissingRestBaseUrl)));

    let mut no_ws = sample_config();
    no_ws.venues[2].ws_url = None;
    match no_ws.venue_runtime_configs() {
        Err(ConfigError::MissingWsUrl(n)) => assert_eq!(n, "KRAKEN"),
        other => panic!("unexpected {:?}", other),
    }

    let mut unused = sample_config();
    unused.venues[2].ws_url = None;
    unused.venues[2].markets.clear();
    assert_eq!(unused.venue_runtime_configs().unwrap().len(), 3);

    let mut empty_bad_kind = sample_config();
    empty_bad_kind.venues[2].kind = "ftx".to_string();
    empty_bad_kind.venues[2].markets.clear();
    assert!(matches!(
        empty_bad_kind.venue_runtime_configs(),
        Err(ConfigError::UnsupportedVenueKind(_))
    ));
}

#[test]
fn venue_kinds_are_case_insensitive() {
    assert_eq!(parse_venue_kind("BiNaNcE").unwrap(), VenueKind::Binance);
    assert_eq!(parse_venue_kind("coinbase").unwrap(), VenueKind::Coinbase);
    assert_eq!(parse_venue_kind("KRAKEN").unwrap(), VenueKind::Kraken);
    assert!(parse_venue_kind("okx").is_err());
}

#[test]
fn config_lookups() {
    let cfg = sample_config();
    assert_eq!(cfg.default_market(), Some(("BINANCE".to_string(), "BTCUSDT".to_string())));
    assert_eq!(config(vec![]).default_market(), None);
    assert_eq!(config(vec![venue("X", "kraken", vec![])]).default_market(), None);
    assert_eq!(cfg.stale_after_ms_for("coinbase"), Some(2_000));
    assert_eq!(cfg.stale_after_ms_for("bitstamp"), None);
    assert_eq!(
        cfg.all_configured_markets(),
        vec![
            ("BINANCE".to_string(), "BTCUSDT".to_string()),
            ("BINANCE".to_string(), "ETHUSDT".to_string()),
            ("COINBASE".to_string(), "BTCUSDT".to_string()),
            ("KRAKEN".to_string(), "BTCUSDT".to_string()),
        ]
    );
    assert_eq!(stale_after_or_default(&cfg, "Kraken"), 2_000);
    assert_eq!(stale_after_or_default(&cfg, "OKX"), DEFAULT_STALE_AFTER_MS);
}

#[test]
fn best_bid_is_last_highest_and_best_ask_first_lowest() {
    let books = vec![
        book("A", "BTCUSDT", 100, 105, 0),
        book("B", "BTCUSDT", 102, 103, 0),
        book("C", "BTCUSDT", 102, 103, 0),
    ];
    assert_eq!(best_bid_index(&books), Some(2));
    assert_eq!(best_ask_index(&books), Some(1));
    assert_eq!(best_bid_index(&Vec::new()), None);
}

#[test]
fn aggregation_reports_cross_venue_arbitrage() {
    let books = vec![book("A", "BTCUSDT", 110, 111, 0), book("B", "BTCUSDT", 100, 105, 0)];
    let agg = aggregate_books(&books);
    let arb = agg.arbitrage.unwrap();
    assert!(arb.exists);
    assert_eq!(arb.edge_ticks, 5);
    assert_eq!(arb.buy_venue, "B");
    assert_eq!(arb.sell_venue, "A");
    assert_eq!(agg.best_bid.unwrap().price, 110);
    assert_eq!(agg.best_ask.unwrap().price, 105);

    let same_venue = vec![book("A", "BTCUSDT", 110, 100, 0)];
    let arb = aggregate_books(&same_venue).arbitrage.unwrap();
    assert!(!arb.exists);
    assert_eq!(arb.edge_ticks, 10);

    let none = aggregate_books(&Vec::new());
    assert!(none.best_bid.is_none() && none.best_ask.is_none() && none.arbitrage.is_none());
}

#[test]
fn routing_picks_best_side_and_caps_quantity() {
    let books = vec![book("A", "BTCUSDT", 100, 104, 0), book("B", "BTCUSDT", 101, 103, 0)];
    match route_books(&books, "buy_base", 500_000_000) {
        RouteOutcome::Routed(d) => {
            assert_eq!(d.side, RouteSide::Buy);
            assert_eq!(d.venue, "B");
            assert_eq!(d.price, 103);
            assert_eq!(d.available_qty, 200_000_000);
            assert_eq!(d.routable_qty, 200_000_000);
        }
        other => panic!("unexpected {:?}", other),
    }
    match route_books(&books, "Sell", 50_000_000) {
        RouteOutcome::Routed(d) => {
            assert_eq!(d.side, RouteSide::Sell);
            assert_eq!(d.venue, "B");
            assert_eq!(d.price, 101);
            assert_eq!(d.routable_qty, 50_000_000);
        }
        other => panic!("unexpected {:?}", other),
    }
    assert!(matches!(route_books(&books, "hold", 1), RouteOutcome::BadSide));
    assert!(matches!(route_books(&Vec::new(), "hold", 1), RouteOutcome::NoFreshBooks));
    assert_eq!(parse_route_side("sell_yes"), Some(RouteSide::Sell));
    assert_eq!(parse_route_side("BUY_YES"), Some(RouteSide::Buy));
    assert_eq!(parse_route_side("buyx"), None);
}

#[test]
fn freshness_uses_each_venue_threshold() {
    let cfg = sample_config();
    let mut store = TopOfBookStore::new();
    store.update(book("BINANCE", "BTCUSDT", 1, 2, 1_000_000));
    store.update(book("OKX", "BTCUSDT", 1, 2, 1_000_000));
    store.update(book("COINBASE", "ETHUSDT", 1, 2, 1_000_000));
    let now = 3_500_000;
    let fresh = fresh_books_for_symbol(&cfg, &store, "btcusdt", now);
    assert_eq!(fresh.len(), 1);
    assert_eq!(fresh[0].venue, "OKX");

    let st = market_status(&cfg, &store, "BINANCE", "BTCUSDT", now);
    assert!(!st.fresh);
    assert_eq!(st.age_us, Some(2_500_000));
    assert_eq!(st.age_ms, Some(2_500));
    assert_eq!(st.stale_after_ms, 2_000);

    let missing = market_status(&cfg, &store, "KRAKEN", "BTCUSDT", now);
    assert!(!missing.fresh && missing.age_us.is_none() && missing.age_ms.is_none());
}

#[test]
fn readiness_requires_every_configured_market_fresh() {
    let cfg = config(vec![venue("BINANCE", "binance", vec![market("btcusdt", "BTCUSDT")])]);
    let mut store = TopOfBookStore::new();
    let (ready, statuses) = readiness(&cfg, &store, 10);
    assert!(!ready);
    assert_eq!(statuses.len(), 1);
    assert_eq!(statuses[0].venue, "BINANCE");
    assert_eq!(statuses[0].symbol, "BTCUSDT");
    store.update(book("binance", "btcusdt", 1, 2, 0));
    let (ready, _) = readiness(&cfg, &store, 10);
    assert!(ready);
    let (ready, _) = readiness(&config(vec![]), &store, 10);
    assert!(ready);

    let listed = book_statuses(&cfg, &store, 10);
    assert_eq!(listed.len(), 1);
    assert!(listed[0].status.fresh);
    let view = book_response(&cfg, &store, "binance", "btcusdt", 10);
    assert_eq!(view.status.venue, "BINANCE");
    assert_eq!(view.book.unwrap().bid_price, 1);
}

#[test]
fn quote_decisions_cover_every_outcome() {
    let cfg = sample_config();
    let mut store = TopOfBookStore::new();
    store.update(book("BINANCE", "BTCUSDT", 100, 102, 1_000));
    store.update(book("COINBASE", "BTCUSDT", i64::MAX, i64::MAX, 1_000));

    assert!(matches!(
        quote_decision(false, &cfg, &store, "BINANCE", "BTCUSDT", 1_000),
        QuoteOutcome::RateLimited
    ));
    assert!(matches!(
        quote_decision(true, &cfg, &store, "KRAKEN", "BTCUSDT", 1_000),
        QuoteOutcome::StaleBook(_)
    ));
    assert!(matches!(
        quote_decision(true, &cfg, &store, "BINANCE", "BTCUSDT", 10_000_000),
        QuoteOutcome::StaleBook(_)
    ));
    assert!(matches!(
        quote_decision(true, &cfg, &store, "COINBASE", "BTCUSDT", 1_000),
        QuoteOutcome::PriceOverflow(_)
    ));
    match quote_decision(true, &cfg, &store, "binance", "btcusdt", 1_000) {
        QuoteOutcome::Quoted { status, book, quote, .. } => {
            assert!(status.fresh);
            assert_eq!(book.venue, "BINANCE");
            assert_eq!(quote.mid_price, 101);
            assert_eq!(quote.bid_price, 100);
            assert_eq!(quote.ask_price, 102);
        }
        other => panic!("unexpected {:?}", other),
    }
}

#[test]
fn routing_and_aggregation_use_only_fresh_books() {
    let cfg = sample_config();
    let mut store = TopOfBookStore::new();
    // Stale under BINANCE's 2 s threshold, though it has the best prices.
    store.update(book("BINANCE", "BTCUSDT", 200, 90, 0));
    store.update(book("OKX", "BTCUSDT", 100, 105, 2_500_000));
    store.update(book("BYBIT", "btcusdt", 101, 106, 2_500_000));
    store.update(book("OKX", "ETHUSDT", 500, 10, 2_500_000));
    let now = 3_000_000;

    let (books, outcome) = route_for_symbol(&cfg, &store, "BtcUsdt", "BUY", 1, now);
    assert_eq!(books.len(), 2);
    assert_eq!(books[0].venue, "BYBIT");
    match outcome {
        RouteOutcome::Routed(d) => {
            assert_eq!(d.venue, "OKX");
            assert_eq!(d.price, 105);
            assert_eq!(d.routable_qty, 1);
        }
        other => panic!("unexpected {:?}", other),
    }
    let (_, outcome) = route_for_symbol(&cfg, &store, "BTCUSDT", "sell", 1, now);
    assert!(matches!(outcome, RouteOutcome::Routed(d) if d.venue == "BYBIT" && d.price == 101));
    let (books, outcome) = route_for_symbol(&cfg, &store, "SOLUSDT", "sell", 1, now);
    assert!(books.is_empty());
    assert!(matches!(outcome, RouteOutcome::NoFreshBooks));

    let (books, agg) = aggregate_for_symbol(&cfg, &store, "btcusdt", now);
    assert_eq!(books.len(), 2);
    assert_eq!(agg.best_bid.unwrap().venue, "BYBIT");
    assert_eq!(agg.best_ask.unwrap().venue, "OKX");
    let arb = agg.arbitrage.unwrap();
    assert!(!arb.exists);
    assert_eq!(arb.edge_ticks, -4);
}

#[test]
fn equal_prices_break_ties_by_venue_order() {
    let cfg = sample_config();
    let mut store = TopOfBookStore::new();
    store.update(book("AAA", "BTCUSDT", 100, 105, 1_000));
    store.update(book("BBB", "BTCUSDT", 100, 105, 1_000));
    let (_, buy) = route_for_symbol(&cfg, &store, "BTCUSDT", "BUY", 1, 1_000);
    assert!(matches!(buy, RouteOutcome::Routed(d) if d.venue == "AAA"));
    let (_, sell) = route_for_symbol(&cfg, &store, "BTCUSDT", "SELL", 1, 1_000);
    assert!(matches!(sell, RouteOutcome::Routed(d) if d.venue == "BBB"));
    let (_, agg) = aggregate_for_symbol(&cfg, &store, "BTCUSDT", 1_000);
    assert_eq!(agg.best_bid.unwrap().venue, "BBB");
    assert_eq!(agg.best_ask.unwrap().venue, "AAA");
}
