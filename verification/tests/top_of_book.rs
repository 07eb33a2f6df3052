use mm_gateway::book::top_of_book::{SharedTopOfBook, TopOfBookStore};
use mm_gateway::metrics::latency::now_us;
use mm_gateway::types::TopOfBook;

fn book(venue: &str, symbol: &str, receive_ts_us: i64) -> TopOfBook {
    TopOfBook {
        venue: venue.to_string(),
        symbol: symbol.to_string(),
        venue_symbol: symbol.to_string(),
        bid_price: 100,
        bid_qty: 100_000_000,
        ask_price: 101,
        ask_qty: 200_000_000,
        sequence: 1,
        receive_ts_us,
        last_update_latency_us: 5,
    }
}

#[test]
fn stores_and_retrieves_by_venue_and_symbol_case_insensitive() {
    let shared = SharedTopOfBook::default();
    shared.update(book("BINANCE", "BTCUSDT", now_us()));

    let found = shared.get("binance", "btcusdt").unwrap();

    assert_eq!(found.venue, "BINANCE");
    assert_eq!(found.symbol, "BTCUSDT");
}

#[test]
fn returns_all_books_for_symbol_across_venues() {
    let shared = SharedTopOfBook::default();
    let ts = now_us();

    shared.update(book("BINANCE", "BTCUSDT", ts));
    shared.update(book("COINBASE", "BTCUSDT", ts));
    shared.update(book("KRAKEN", "ETHUSDT", ts));

    let btc_books = shared.all_for_symbol("BTCUSDT");

    assert_eq!(btc_books.len(), 2);
}

#[test]
fn detects_fresh_book() {
    let shared = SharedTopOfBook::default();
    shared.update(book("BINANCE", "BTCUSDT", now_us()));

    assert!(shared.is_fresh("BINANCE", "BTCUSDT", 3000));
}

#[test]
fn detects_stale_book() {
    let shared = SharedTopOfBook::default();
    let old_ts = now_us() - 10_000_000;

    shared.update(book("BINANCE", "BTCUSDT", old_ts));

    assert!(!shared.is_fresh("BINANCE", "BTCUSDT", 3000));
}

#[test]
fn later_update_replaces_earlier_for_same_key() {
    let mut store = TopOfBookStore::new();
    store.update(book("binance", "btcusdt", 1));
    let mut newer = book("BINANCE", "BTCUSDT", 2);
    newer.bid_price = 555;
    store.update(newer);
    let all = store.all();
    assert_eq!(all.len(), 1);
    assert_eq!(all[0].bid_price, 555);
    assert_eq!(store.active_keys(), vec!["BINANCE:BTCUSDT".to_string()]);
}

#[test]
fn all_is_sorted_by_venue_then_symbol() {
    let shared = SharedTopOfBook::new();
    shared.update(book("KRAKEN", "ETHUSDT", 1));
    shared.update(book("BINANCE", "SOLUSDT", 1));
    shared.update(book("BINANCE", "BTCUSDT", 1));
    shared.update(book("COINBASE", "BTCUSDT", 1));
    let names: Vec<(String, String)> = shared.all().into_iter().map(|b| (b.venue, b.symbol)).collect();
    assert_eq!(
        names,
        vec![
            ("BINANCE".to_string(), "BTCUSDT".to_string()),
            ("BINANCE".to_string(), "SOLUSDT".to_string()),
            ("COINBASE".to_string(), "BTCUSDT".to_string()),
            ("KRAKEN".to_string(), "ETHUSDT".to_string()),
        ]
    );
    assert_eq!(
        shared.active_keys(),
        vec![
            "BINANCE:BTCUSDT".to_string(),
            "BINANCE:SOLUSDT".to_string(),
            "COINBASE:BTCUSDT".to_string(),
            "KRAKEN:ETHUSDT".to_string(),
        ]
    );
}

#[test]
fn ages_are_measured_from_receive_time() {
    let mut store = TopOfBookStore::new();
    store.update(book("BINANCE", "BTCUSDT", 1_000_000));
    assert_eq!(store.age_us_at("binance", "BTCUSDT", 3_500_000), Some(2_500_000));
    assert_eq!(store.age_ms_at("BINANCE", "BTCUSDT", 3_500_000), Some(2_500));
    assert!(store.is_fresh_at("BINANCE", "BTCUSDT", 2_500, 3_500_000));
    assert!(!store.is_fresh_at("BINANCE", "BTCUSDT", 2_499, 3_500_000));
    assert_eq!(store.age_us_at("KRAKEN", "BTCUSDT", 3_500_000), None);
    assert!(!store.is_fresh_at("KRAKEN", "BTCUSDT", 1_000_000, 3_500_000));
    assert_eq!(store.age_ms_at("BINANCE", "BTCUSDT", 0), Some(-1_000));
}

#[test]
fn missing_book_is_none() {
    let shared = SharedTopOfBook::default();
    assert!(shared.get("BINANCE", "BTCUSDT").is_none());
    assert!(shared.age_us("BINANCE", "BTCUSDT").is_none());
    assert!(shared.age_ms("BINANCE", "BTCUSDT").is_none());
}
