//! The decisions of a venue feed task: what to do with each message and
//! stream event, and how long to wait before reconnecting.
use crate::book::order_book::{
    depth_outcome, has_top, is_top_of, snapshot_model, top_update_to_book, BookApplyResult,
    BookModel, LocalOrderBook,
};
use crate::book::top_of_book::SharedTopOfBook;
use crate::config::{VenueKind, VenueRuntimeConfig};
use crate::json::json_document;
use crate::metrics::counters::Metrics;
use crate::metrics::latency::{clock_micros, now_us};
use crate::types::{DepthSnapshot, Sequence, TopOfBook};
use crate::venue::binance::{depth_fields_from_doc, parse_depth_update, DepthFields};
use crate::venue::feed_error::{FeedParseError, ParseFailure};
use crate::venue::ticker::TickerFields;
use crate::venue::{coinbase, kraken};
use std::sync::Arc;
use vstd::prelude::*;

verus! {

/// What the feed does after a message.
#[derive(Debug, Clone, Copy, PartialEq, Eq, Structural)]
pub enum StreamAction {
    Continue,
    ResyncRequired,
}

/// The depth event a Binance message holds, or why it holds none.
pub open spec fn depth_message(raw: Seq<char>) -> Result<DepthFields, ParseFailure> {
    match json_document(raw) {
        None => Err(ParseFailure::InvalidJson),
        Some(doc) => depth_fields_from_doc(doc),
    }
}

/// The ticker a Coinbase or Kraken message holds for a venue symbol, with
/// the given stand-in sequence number, or why it cannot be read.
pub open spec fn ticker_message(kind: VenueKind, raw: Seq<char>, venue_symbol: Seq<char>, sequence: Sequence) -> Result<
    Option<TickerFields>,
    ParseFailure,
> {
    match json_document(raw) {
        None => Err(ParseFailure::InvalidJson),
        Some(doc) => if kind == VenueKind::Coinbase {
            coinbase::coinbase_ticker(doc, venue_symbol, sequence)
        } else {
            kraken::kraken_ticker(doc, venue_symbol, sequence)
        },
    }
}

/// A feed task for one venue and market, publishing into the shared store.
pub struct VenueSupervisor {
    config: VenueRuntimeConfig,
    metrics: Arc<Metrics>,
    top_of_book: SharedTopOfBook,
}

impl VenueSupervisor {
    /// A supervisor for the given market.
    pub fn new(config: VenueRuntimeConfig, metrics: Arc<Metrics>, top_of_book: SharedTopOfBook) -> (r: Self)
        ensures
            r.config() == config,
            r.counters() == metrics,
    {
        VenueSupervisor { config, metrics, top_of_book }
    }

    /// The counters the supervisor was given.
    pub closed spec fn counters(&self) -> Arc<Metrics> {
        self.metrics
    }

    /// The market's runtime settings.
    pub closed spec fn config(&self) -> VenueRuntimeConfig {
        self.config
    }

    /// The market's runtime settings.
    pub fn runtime_config(&self) -> (r: &VenueRuntimeConfig)
        ensures
            *r == self.config(),
    {
        &self.config
    }

    /// The shared counters: those the supervisor was given.
    pub fn metrics(&self) -> (r: &Arc<Metrics>)
        ensures
            *r == self.counters(),
    {
        &self.metrics
    }

    /// The subscription request to send once connected: the venue's ticker
    /// subscription for the venue symbol; none for Binance, whose stream URL
    /// names the market.
    pub fn subscribe_request(&self) -> (r: Option<String>)
        ensures
            match self.config().kind {
                VenueKind::Binance => r is None,
                VenueKind::Coinbase => r matches Some(m) && m@ == coinbase::subscribe_text(
                    self.config().venue_symbol@,
                ),
                VenueKind::Kraken => r matches Some(m) && m@ == kraken::subscribe_text(
                    self.config().venue_symbol@,
                ),
            },
    {
        match self.config.kind {
            VenueKind::Binance => None,
            VenueKind::Coinbase => Some(coinbase::subscribe_message(self.config.venue_symbol.as_str())),
            VenueKind::Kraken => Some(kraken::subscribe_message(self.config.venue_symbol.as_str())),
        }
    }

    /// Starts the local book from a depth snapshot. Returns the book and the
    /// top of book to publish to the shared store: the book's top when both
    /// sides hold a level, otherwise none.
    pub fn start_book(&self, snapshot: DepthSnapshot) -> (r: (LocalOrderBook, Option<TopOfBook>))
        ensures
            r.0@ == snapshot_model(snapshot),
            r.1 is None <==> !has_top(r.0@),
            r.1 matches Some(t) ==> is_top_of(t, r.0@),
    {
        let book = LocalOrderBook::from_snapshot(snapshot);
        let top = book.top_of_book();
        (book, top)
    }

    /// Stores a top of book in the shared store (see
    /// [`SharedTopOfBook::update`]).
    pub fn publish(&self, top: TopOfBook) {
        self.top_of_book.update(top);
    }

    /// Handles one Binance depth message against the local book, and
    /// returns what the feed does next with the top of book to publish.
    ///
    /// A message that cannot be read is counted as a parse error; the feed
    /// continues with the book unchanged and publishes nothing. Otherwise
    /// the update is offered to the book (see [`depth_step_is`]): a sequence
    /// gap is counted and asks for a resync, anything else continues; after
    /// an applied update the book's new top is to be published when both
    /// sides hold a level, and is counted. The update's receive time is the
    /// microsecond clock's reading (see [`clock_micros`]).
    pub fn handle_binance_depth_message(&self, raw: &str, local_book: &mut LocalOrderBook) -> (r: (
        StreamAction,
        Option<TopOfBook>,
    ))
        ensures
            match depth_message(raw@) {
                Err(_) => r == (StreamAction::Continue, None::<TopOfBook>) && final(local_book)@ == old(
                    local_book,
                )@,
                Ok(f) => exists|elapsed_us: Option<u128>|
                    #[trigger] depth_step_is(
                        r,
                        old(local_book)@,
                        final(local_book)@,
                        f,
                        clock_micros(elapsed_us),
                    ),
            },
    {
        let receive_ts_us = now_us();
        let ghost reading = choose|e: Option<u128>| receive_ts_us == #[trigger] clock_micros(e);
        self.metrics.inc_messages_received();
        let update = match parse_depth_update(
            self.config.name.as_str(),
            self.config.symbol.as_str(),
            self.config.venue_symbol.as_str(),
            raw,
            receive_ts_us,
        ) {
            Ok(u) => u,
            Err(_) => {
                self.metrics.inc_parse_errors();
                return (StreamAction::Continue, None);
            },
        };
        self.metrics.inc_messages_parsed();
        let result = local_book.apply_depth_update(update);
        let r = match result {
            BookApplyResult::IgnoredOldUpdate => (StreamAction::Continue, None),
            BookApplyResult::SequenceGap { .. } => {
                self.metrics.inc_sequence_gaps_detected();
                (StreamAction::ResyncRequired, None)
            },
            BookApplyResult::Applied => {
                let top = local_book.top_of_book();
                if top.is_some() {
                    self.metrics.inc_book_updates_applied();
                }
                (StreamAction::Continue, top)
            },
        };
        assert(depth_step_is(r, old(local_book)@, local_book@, depth_message(raw@)->Ok_0, receive_ts_us));
        r
    }

    /// Handles one Coinbase or Kraken ticker message: a message that cannot
    /// be read is the error; a ticker for the market gives the top of book
    /// to publish, and is counted; any other message gives nothing (see
    /// [`ticker_step_is`]). The book's receive time is the microsecond
    /// clock's reading (see [`clock_micros`]).
    pub fn handle_top_of_book_message(&self, raw: &str) -> (r: Result<Option<TopOfBook>, FeedParseError>)
        requires
            self.config().kind != VenueKind::Binance,
        ensures
            exists|sequence: Sequence, elapsed_us: Option<u128>|
                #[trigger] ticker_step_is(r, self.config(), raw@, sequence, clock_micros(elapsed_us)),
    {
        let receive_ts_us = now_us();
        let ghost reading = choose|e: Option<u128>| receive_ts_us == #[trigger] clock_micros(e);
        self.metrics.inc_messages_received();
        let parsed = match self.config.kind {
            VenueKind::Coinbase => coinbase::parse_ticker(
                self.config.name.as_str(),
                self.config.symbol.as_str(),
                self.config.venue_symbol.as_str(),
                raw,
                receive_ts_us,
            ),
            _ => kraken::parse_ticker(
                self.config.name.as_str(),
                self.config.symbol.as_str(),
                self.config.venue_symbol.as_str(),
                raw,
                receive_ts_us,
            ),
        };
        let ghost kind = self.config.kind;
        let ghost vs = self.config.venue_symbol@;
        let ghost w: Sequence = match json_document(raw@) {
            None => 0,
            Some(doc) => if kind == VenueKind::Coinbase {
                choose|s: Sequence|
                    crate::venue::ticker::ticker_result_is(
                        parsed,
                        #[trigger] coinbase::coinbase_ticker(doc, vs, s),
                        self.config.name@,
                        self.config.symbol@,
                        vs,
                        receive_ts_us,
                    )
            } else {
                choose|s: Sequence|
                    crate::venue::ticker::ticker_result_is(
                        parsed,
                        #[trigger] kraken::kraken_ticker(doc, vs, s),
                        self.config.name@,
                        self.config.symbol@,
                        vs,
                        receive_ts_us,
                    )
            },
        };
        proof {
            if json_document(raw@) is Some {
                assert(crate::venue::ticker::ticker_result_is(
                    parsed,
                    ticker_message(kind, raw@, vs, w),
                    self.config.name@,
                    self.config.symbol@,
                    vs,
                    receive_ts_us,
                ));
            }
        }
        let update = match parsed {
            Err(e) => {
                assert(ticker_step_is(Err(e), self.config, raw@, w, receive_ts_us));
                return Err(e);
            },
            Ok(None) => {
                assert(ticker_step_is(Ok(None), self.config, raw@, w, receive_ts_us));
                return Ok(None);
            },
            Ok(Some(u)) => u,
        };
        self.metrics.inc_messages_parsed();
        let top = top_update_to_book(update);
        self.metrics.inc_book_updates_applied();
        let r = Ok(Some(top));
        assert(ticker_step_is(r, self.config, raw@, w, receive_ts_us));
        r
    }
}

/// One step of a Binance depth feed: the book after the message is the
/// outcome of offering its update (read at `receive_ts_us`) to the book
/// before (see [`depth_outcome`]); a resync is asked for exactly on a
/// sequence gap; a top of book is to be published exactly when the update
/// was applied and both sides of the new book hold a level, and it is that
/// book's top.
pub open spec fn depth_step_is(
    r: (StreamAction, Option<TopOfBook>),
    before: BookModel,
    after: BookModel,
    f: DepthFields,
    receive_ts_us: i64,
) -> bool {
    let outcome = depth_outcome(before, f.first_update_id, f.final_update_id, f.bids, f.asks, receive_ts_us);
    &&& after == outcome.1
    &&& (r.0 == StreamAction::ResyncRequired <==> outcome.0 is SequenceGap)
    &&& (r.1 is Some <==> outcome.0 is Applied && has_top(outcome.1))
    &&& (r.1 matches Some(t) ==> is_top_of(t, outcome.1))
}

/// `b` is the top-of-book record of the market `c` for ticker fields `f`
/// received at `receive_ts_us`.
pub open spec fn is_ticker_book(b: TopOfBook, c: VenueRuntimeConfig, f: TickerFields, receive_ts_us: i64) -> bool {
    &&& b.venue@ == c.name@
    &&& b.symbol@ == c.symbol@
    &&& b.venue_symbol@ == c.venue_symbol@
    &&& b.bid_price == f.bid_price
    &&& b.bid_qty == f.bid_qty
    &&& b.ask_price == f.ask_price
    &&& b.ask_qty == f.ask_qty
    &&& b.sequence == f.sequence
    &&& b.receive_ts_us == receive_ts_us
}

/// One step of a ticker feed for market `c`: the message's error, nothing
/// for a message that is not a ticker of the market, or the top of book
/// built from the ticker's fields (with the stand-in `sequence` where the
/// message carries none) to be published.
pub open spec fn ticker_step_is(
    r: Result<Option<TopOfBook>, FeedParseError>,
    c: VenueRuntimeConfig,
    raw: Seq<char>,
    sequence: Sequence,
    receive_ts_us: i64,
) -> bool {
    match ticker_message(c.kind, raw, c.venue_symbol@, sequence) {
        Err(x) => r is Err && r->Err_0@ == x,
        Ok(None) => r matches Ok(None),
        Ok(Some(f)) => r matches Ok(Some(b)) && is_ticker_book(b, c, f, receive_ts_us),
    }
}

/// The reconnect delay of a feed: it starts at the base delay, doubles
/// after each failure up to the maximum, and returns to the base after a
/// clean end of stream.
pub struct ReconnectBackoff {
    pub base_ms: u64,
    pub max_ms: u64,
    pub current_ms: u64,
}

/// The delay after another failure: doubled, capped at the maximum.
pub open spec fn next_delay(current_ms: u64, max_ms: u64) -> u64 {
    if 2 * current_ms < max_ms {
        (2 * current_ms) as u64
    } else {
        max_ms
    }
}

impl ReconnectBackoff {
    /// A backoff at its base delay.
    pub fn new(base_ms: u64, max_ms: u64) -> (r: Self)
        ensures
            r.base_ms == base_ms && r.max_ms == max_ms && r.current_ms == base_ms,
    {
        ReconnectBackoff { base_ms, max_ms, current_ms: base_ms }
    }

    /// A stream ended cleanly: the delay returns to the base.
    pub fn on_success(&mut self)
        ensures
            final(self).current_ms == old(self).base_ms,
            final(self).base_ms == old(self).base_ms,
            final(self).max_ms == old(self).max_ms,
    {
        self.current_ms = self.base_ms;
    }

    /// A stream failed: returns the delay to wait now, and doubles the next
    /// one up to the maximum.
    pub fn on_failure(&mut self) -> (wait_ms: u64)
        ensures
            wait_ms == old(self).current_ms,
            final(self).current_ms == next_delay(old(self).current_ms, old(self).max_ms),
            final(self).base_ms == old(self).base_ms,
            final(self).max_ms == old(self).max_ms,
    {
        let wait_ms = self.current_ms;
        let doubled: u64 = if self.current_ms > u64::MAX / 2 {
            u64::MAX
        } else {
            self.current_ms * 2
        };
        self.current_ms = if doubled < self.max_ms {
            doubled
        } else {
            self.max_ms
        };
        wait_ms
    }
}

/// Law: the delay set after a failure is never above the maximum, and once
/// the delay is at the maximum it stays there.
pub proof fn law_backoff_bounded(current_ms: u64, max_ms: u64)
    ensures
        next_delay(current_ms, max_ms) <= max_ms,
        current_ms == max_ms ==> next_delay(current_ms, max_ms) == max_ms,
{
}

/// The delay a backoff starting at `base` waits at its `k`-th failure in a
/// row (counting from zero): `next_delay` applied `k` times, which is what
/// [`ReconnectBackoff::on_failure`] returns on each failure.
pub open spec fn delay_after(base: u64, max_ms: u64, k: nat) -> u64
    decreases k,
{
    if k == 0 {
        base
    } else {
        next_delay(delay_after(base, max_ms, (k - 1) as nat), max_ms)
    }
}

/// `base * 2^k`.
pub open spec fn doubled_times(base: nat, k: nat) -> nat
    decreases k,
{
    if k == 0 {
        base
    } else {
        2 * doubled_times(base, (k - 1) as nat)
    }
}

/// Law: over failures in a row, the backoff waits the base delay doubled
/// once per earlier failure, capped at the maximum: the `k`-th wait is
/// `min(base * 2^k, max)` (for the first wait, `k == 0`, this holds when the
/// base is at most the maximum; otherwise the first wait is the base).
pub proof fn law_backoff_doubles(base: u64, max_ms: u64, k: nat)
    ensures
        delay_after(base, max_ms, 0) == base,
        k >= 1 || base <= max_ms ==> delay_after(base, max_ms, k) == (if doubled_times(base as nat, k)
            < max_ms {
            doubled_times(base as nat, k)
        } else {
            max_ms as nat
        }),
    decreases k,
{
    if k >= 1 {
        law_backoff_doubles(base, max_ms, (k - 1) as nat);
        let prev = delay_after(base, max_ms, (k - 1) as nat);
        let dp = doubled_times(base as nat, (k - 1) as nat);
        assert(doubled_times(base as nat, k) == 2 * dp);
        if k == 1 {
            assert(prev == base && dp == base);
        } else {
            if dp < max_ms {
                assert(prev == dp);
            } else {
                assert(prev == max_ms);
            }
        }
    }
}

/// What happened on a venue stream.
#[derive(Debug, Clone, Copy, PartialEq, Eq, Structural)]
pub enum FeedEvent {
    /// A text frame arrived.
    Text,
    /// A ping frame arrived.
    Ping,
    /// A pong frame arrived.
    Pong,
    /// A binary frame arrived.
    Binary,
    /// A raw frame arrived.
    Frame,
    /// The venue closed the stream.
    Close,
    /// The stream ended without a close frame.
    StreamEnded,
    /// The periodic heartbeat check ran, this long after the last frame.
    HeartbeatTick { silent_us: u64 },
    /// The process is shutting down.
    Shutdown,
}

/// Why a feed gives up its connection.
#[derive(Debug, Clone, Copy, PartialEq, Eq, Structural)]
pub enum FeedFailure {
    StreamEnded,
    Closed,
    HeartbeatTimeout,
}

/// What a feed does next.
#[derive(Debug, Clone, Copy, PartialEq, Eq, Structural)]
pub enum FeedAction {
    /// Read the text frame as a venue message.
    HandleText,
    /// Answer the ping with a pong carrying the same payload.
    ReplyPong,
    /// Nothing to do.
    Ignore,
    /// Drop the connection; the supervisor reconnects.
    Fail(FeedFailure),
    /// Send a close frame and stop.
    CloseAndStop,
}

/// The action for a stream event, given the heartbeat timeout: frames are
/// read, answered or ignored; a close or end of stream fails the
/// connection; the heartbeat check fails it once the silence exceeds the
/// timeout; a shutdown closes and stops.
pub open spec fn feed_action(event: FeedEvent, heartbeat_timeout_ms: u64) -> FeedAction {
    match event {
        FeedEvent::Text => FeedAction::HandleText,
        FeedEvent::Ping => FeedAction::ReplyPong,
        FeedEvent::Pong | FeedEvent::Binary | FeedEvent::Frame => FeedAction::Ignore,
        FeedEvent::Close => FeedAction::Fail(FeedFailure::Closed),
        FeedEvent::StreamEnded => FeedAction::Fail(FeedFailure::StreamEnded),
        FeedEvent::HeartbeatTick { silent_us } => if silent_us > heartbeat_timeout_ms * 1000 {
            FeedAction::Fail(FeedFailure::HeartbeatTimeout)
        } else {
            FeedAction::Ignore
        },
        FeedEvent::Shutdown => FeedAction::CloseAndStop,
    }
}

/// Decides what a feed does with a stream event (see [`feed_action`]).
pub fn next_feed_action(event: FeedEvent, heartbeat_timeout_ms: u64) -> (r: FeedAction)
    ensures
        r == feed_action(event, heartbeat_timeout_ms),
{
    match event {
        FeedEvent::Text => FeedAction::HandleText,
        FeedEvent::Ping => FeedAction::ReplyPong,
        FeedEvent::Pong | FeedEvent::Binary | FeedEvent::Frame => FeedAction::Ignore,
        FeedEvent::Close => FeedAction::Fail(FeedFailure::Closed),
        FeedEvent::StreamEnded => FeedAction::Fail(FeedFailure::StreamEnded),
        FeedEvent::HeartbeatTick { silent_us } => {
            let limit: u128 = heartbeat_timeout_ms as u128 * 1000;
            if (silent_us as u128) > limit {
                FeedAction::Fail(FeedFailure::HeartbeatTimeout)
            } else {
                FeedAction::Ignore
            }
        },
        FeedEvent::Shutdown => FeedAction::CloseAndStop,
    }
}

/// Whether an event counts as a sign of life for the heartbeat check: a
/// text, ping or pong frame.
pub fn refreshes_heartbeat(event: FeedEvent) -> (r: bool)
    ensures
        r == (event == FeedEvent::Text || event == FeedEvent::Ping || event == FeedEvent::Pong),
{
    match event {
        FeedEvent::Text | FeedEvent::Ping | FeedEvent::Pong => true,
        _ => false,
    }
}

} // verus!
