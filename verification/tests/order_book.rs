use mm_gateway::book::order_book::{top_update_to_book, BookApplyResult, LocalOrderBook};
use mm_gateway::metrics::latency::now_us;
use mm_gateway::types::{DepthSnapshot, NormalizedDepthUpdate, NormalizedTopOfBookUpdate, PriceLevel};

const ONE: i64 = 100_000_000;

fn snapshot() -> DepthSnapshot {
    DepthSnapshot {
        venue: "BINANCE".to_string(),
        symbol: "BTCUSDT".to_string(),
        venue_symbol: "BTCUSDT".to_string(),
        last_update_id: 100,
        bids: vec![
            PriceLevel { price: 99, qty: ONE },
            PriceLevel { price: 98, qty: 2 * ONE },
        ],
        asks: vec![
            PriceLevel { price: 101, qty: ONE },
            PriceLevel { price: 102, qty: 2 * ONE },
        ],
        receive_ts_us: now_us(),
    }
}

fn update(first: u64, last: u64, bids: Vec<PriceLevel>, asks: Vec<PriceLevel>) -> NormalizedDepthUpdate {
    NormalizedDepthUpdate {
        venue: "BINANCE".to_string(),
        symbol: "BTCUSDT".to_string(),
        venue_symbol: "BTCUSDT".to_string(),
        first_update_id: first,
        final_update_id: last,
        bids,
        asks,
        receive_ts_us: now_us(),
    }
}

#[test]
fn builds_top_of_book_from_snapshot() {
    let book = LocalOrderBook::from_snapshot(snapshot());
    let top = book.top_of_book().unwrap();

    assert_eq!(top.bid_price, 99);
    assert_eq!(top.ask_price, 101);
    assert_eq!(top.sequence, 100);
}

#[test]
fn applies_in_order_depth_update() {
    let mut book = LocalOrderBook::from_snapshot(snapshot());

    let result = book.apply_depth_update(update(
        101,
        101,
        vec![PriceLevel { price: 100, qty: 3 * ONE }],
        vec![PriceLevel { price: 101, qty: 0 }],
    ));

    assert!(matches!(result, BookApplyResult::Applied));

    let top = book.top_of_book().unwrap();
    assert_eq!(top.bid_price, 100);
    assert_eq!(top.ask_price, 102);
    assert_eq!(top.sequence, 101);
}

#[test]
fn ignores_old_update() {
    let mut book = LocalOrderBook::from_snapshot(snapshot());

    let result = book.apply_depth_update(update(
        99,
        100,
        vec![PriceLevel { price: 100, qty: 3 * ONE }],
        vec![],
    ));

    assert!(matches!(result, BookApplyResult::IgnoredOldUpdate));
}

#[test]
fn detects_sequence_gap() {
    let mut book = LocalOrderBook::from_snapshot(snapshot());

    let result = book.apply_depth_update(update(105, 106, vec![], vec![]));

    assert!(matches!(result, BookApplyResult::SequenceGap { .. }));
}

#[test]
fn converts_top_update_to_book() {
    let update = NormalizedTopOfBookUpdate {
        venue: "COINBASE".to_string(),
        symbol: "BTCUSDT".to_string(),
        venue_symbol: "BTC-USD".to_string(),
        bid_price: 100,
        bid_qty: ONE,
        ask_price: 101,
        ask_qty: 2 * ONE,
        sequence: 7,
        receive_ts_us: now_us(),
    };

    let book = top_update_to_book(update);

    assert_eq!(book.venue, "COINBASE");
    assert_eq!(book.bid_price, 100);
    assert_eq!(book.ask_price, 101);
}

#[test]
fn replayed_update_is_ignored_and_changes_nothing() {
    let mut book = LocalOrderBook::from_snapshot(snapshot());
    let first = book.apply_depth_update(update(101, 102, vec![PriceLevel { price: 100, qty: ONE }], vec![]));
    assert!(matches!(first, BookApplyResult::Applied));
    let again = book.apply_depth_update(update(101, 102, vec![PriceLevel { price: 100, qty: 0 }], vec![]));
    assert!(matches!(again, BookApplyResult::IgnoredOldUpdate));
    let top = book.top_of_book().unwrap();
    assert_eq!(top.bid_price, 100);
    assert_eq!(top.bid_qty, ONE);
    assert_eq!(book.last_update_id(), 102);
}

#[test]
fn gap_reports_expected_and_received_ids() {
    let mut book = LocalOrderBook::from_snapshot(snapshot());
    match book.apply_depth_update(update(103, 104, vec![], vec![])) {
        BookApplyResult::SequenceGap { expected_next, received_first, received_final } => {
            assert_eq!(expected_next, 101);
            assert_eq!(received_first, 103);
            assert_eq!(received_final, 104);
        }
        other => panic!("unexpected {:?}", other),
    }
    assert_eq!(book.last_update_id(), 100);
}

#[test]
fn snapshot_keeps_only_positive_levels_and_last_duplicate() {
    let mut snap = snapshot();
    snap.bids = vec![
        PriceLevel { price: 97, qty: 0 },
        PriceLevel { price: 98, qty: ONE },
        PriceLevel { price: 98, qty: 5 * ONE },
        PriceLevel { price: 96, qty: -ONE },
    ];
    let book = LocalOrderBook::from_snapshot(snap);
    assert_eq!(book.bid_depth_len(), 1);
    assert_eq!(book.ask_depth_len(), 2);
    let top = book.top_of_book().unwrap();
    assert_eq!(top.bid_price, 98);
    assert_eq!(top.bid_qty, 5 * ONE);
}

#[test]
fn emptied_side_gives_no_top_of_book() {
    let mut book = LocalOrderBook::from_snapshot(snapshot());
    let r = book.apply_depth_update(update(
        101,
        101,
        vec![],
        vec![PriceLevel { price: 101, qty: 0 }, PriceLevel { price: 102, qty: -5 }],
    ));
    assert!(matches!(r, BookApplyResult::Applied));
    assert_eq!(book.ask_depth_len(), 0);
    assert!(book.top_of_book().is_none());
}

#[test]
fn overlapping_update_is_applied() {
    let mut book = LocalOrderBook::from_snapshot(snapshot());
    let r = book.apply_depth_update(update(95, 103, vec![PriceLevel { price: 99, qty: 0 }], vec![]));
    assert!(matches!(r, BookApplyResult::Applied));
    let top = book.top_of_book().unwrap();
    assert_eq!(top.bid_price, 98);
    assert_eq!(top.sequence, 103);
}

#[test]
fn apply_latency_starts_at_zero_and_survives_rejected_updates() {
    let mut book = LocalOrderBook::from_snapshot(snapshot());
    assert_eq!(book.top_of_book().unwrap().last_update_latency_us, 0);
    let r = book.apply_depth_update(update(90, 100, vec![PriceLevel { price: 99, qty: 0 }], vec![]));
    assert!(matches!(r, BookApplyResult::IgnoredOldUpdate));
    let r = book.apply_depth_update(update(150, 160, vec![], vec![]));
    assert!(matches!(r, BookApplyResult::SequenceGap { .. }));
    assert_eq!(book.top_of_book().unwrap().last_update_latency_us, 0);
}
