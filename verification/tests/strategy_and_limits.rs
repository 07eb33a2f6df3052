use mm_gateway::strategy::market_maker::generate_quote;
use mm_gateway::types::TopOfBook;
use mm_gateway::venue::rate_limit::TokenBucket;
use mm_gateway::venue::sequence::{SequenceStatus, SequenceTracker};
use mm_gateway::venue::supervisor::{next_feed_action, FeedAction, FeedEvent, FeedFailure, ReconnectBackoff};

fn sample_book() -> TopOfBook {
    TopOfBook {
        venue: "BINANCE".to_string(),
        symbol: "BTCUSDT".to_string(),
        venue_symbol: "BTCUSDT".to_string(),
        bid_price: 100,
        bid_qty: 200_000_000,
        ask_price: 102,
        ask_qty: 300_000_000,
        sequence: 1,
        receive_ts_us: 1000,
        last_update_latency_us: 10,
    }
}

#[test]
fn generates_quote_around_mid_price() {
    let book = sample_book();
    let quote = generate_quote(&book);

    assert_eq!(quote.mid_price, 101);
    assert_eq!(quote.bid_price, 100);
    assert_eq!(quote.ask_price, 102);
    assert_eq!(quote.half_spread_ticks, 1);
}

#[test]
fn handles_one_tick_market_spread() {
    let mut book = sample_book();
    book.bid_price = 100;
    book.ask_price = 101;

    let quote = generate_quote(&book);

    assert_eq!(quote.mid_price, 100);
    assert_eq!(quote.bid_price, 99);
    assert_eq!(quote.ask_price, 101);
}

#[test]
fn mid_of_negative_sum_truncates_toward_zero() {
    let mut book = sample_book();
    book.bid_price = -3;
    book.ask_price = 0;
    assert_eq!(generate_quote(&book).mid_price, -1);
}

#[test]
fn allows_requests_until_bucket_empty() {
    let mut bucket = TokenBucket::new(2, 2);

    assert!(bucket.try_acquire());
    assert!(bucket.try_acquire());
    assert!(!bucket.try_acquire());
}

#[test]
fn refills_after_one_second() {
    let mut bucket = TokenBucket::new(2, 2);

    assert!(bucket.try_acquire());
    assert!(bucket.try_acquire());
    assert!(!bucket.try_acquire());

    bucket.force_refill_after_seconds(1);

    assert!(bucket.try_acquire());
    assert_eq!(bucket.tokens(), 1);
}

#[test]
fn refill_does_not_exceed_capacity() {
    let mut bucket = TokenBucket::new(3, 10);

    assert!(bucket.try_acquire());
    bucket.force_refill_after_seconds(10);
    assert!(bucket.try_acquire());

    assert!(bucket.tokens() <= 2);
}

#[test]
fn refill_adds_rate_per_whole_second_up_to_capacity() {
    let mut bucket = TokenBucket::new(10, 3);
    for _ in 0..10 {
        assert!(bucket.try_acquire_after(0));
    }
    assert!(!bucket.try_acquire_after(0));
    assert_eq!(bucket.tokens(), 0);
    bucket.refill_after(2);
    assert_eq!(bucket.tokens(), 6);
    bucket.refill_after(100);
    assert_eq!(bucket.tokens(), 10);
    let mut zero_rate = TokenBucket::new(1, 0);
    assert!(zero_rate.try_acquire_after(0));
    assert!(!zero_rate.try_acquire_after(50));
}

#[test]
fn sequence_tracker_orders_tickers() {
    let mut t = SequenceTracker::default();
    assert_eq!(t.check_book_ticker(10), SequenceStatus::First);
    assert_eq!(t.check_book_ticker(10), SequenceStatus::DuplicateOrOld);
    assert_eq!(t.check_book_ticker(9), SequenceStatus::DuplicateOrOld);
    assert_eq!(t.check_book_ticker(11), SequenceStatus::Newer);
    assert_eq!(t.check_book_ticker(11), SequenceStatus::DuplicateOrOld);
}

#[test]
fn backoff_doubles_up_to_max_and_resets() {
    let mut b = ReconnectBackoff::new(500, 3000);
    assert_eq!(b.on_failure(), 500);
    assert_eq!(b.on_failure(), 1000);
    assert_eq!(b.on_failure(), 2000);
    assert_eq!(b.on_failure(), 3000);
    assert_eq!(b.on_failure(), 3000);
    b.on_success();
    assert_eq!(b.on_failure(), 500);
    let mut huge = ReconnectBackoff::new(u64::MAX, u64::MAX);
    assert_eq!(huge.on_failure(), u64::MAX);
    assert_eq!(huge.current_ms, u64::MAX);
}

#[test]
fn feed_actions_follow_events() {
    assert_eq!(next_feed_action(FeedEvent::Text, 1000), FeedAction::HandleText);
    assert_eq!(next_feed_action(FeedEvent::Ping, 1000), FeedAction::ReplyPong);
    assert_eq!(next_feed_action(FeedEvent::Binary, 1000), FeedAction::Ignore);
    assert_eq!(next_feed_action(FeedEvent::Close, 1000), FeedAction::Fail(FeedFailure::Closed));
    assert_eq!(
        next_feed_action(FeedEvent::HeartbeatTick { silent_us: 1_000_000 }, 1000),
        FeedAction::Ignore
    );
    assert_eq!(
        next_feed_action(FeedEvent::HeartbeatTick { silent_us: 1_000_001 }, 1000),
        FeedAction::Fail(FeedFailure::HeartbeatTimeout)
    );
    assert_eq!(next_feed_action(FeedEvent::Shutdown, 1000), FeedAction::CloseAndStop);
}
