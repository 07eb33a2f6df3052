//! Process-wide event counters.
use std::sync::atomic::AtomicU64;
use std::sync::atomic::Ordering;
use vstd::prelude::*;

verus! {

/// Event counters shared by all tasks.
#[derive(Debug, Default)]
pub struct Metrics {
    pub messages_received: AtomicU64,
    pub messages_parsed: AtomicU64,
    pub book_updates_applied: AtomicU64,
    pub sequence_gaps_detected: AtomicU64,
    pub reconnects_total: AtomicU64,
    pub heartbeat_timeouts: AtomicU64,
    pub rate_limit_blocks: AtomicU64,
    pub parse_errors: AtomicU64,
    pub stale_books: AtomicU64,
    pub quotes_generated: AtomicU64,
}

/// The counters read at one moment.
#[derive(Debug, Clone)]
pub struct MetricsSnapshot {
    pub messages_received: u64,
    pub messages_parsed: u64,
    pub book_updates_applied: u64,
    pub sequence_gaps_detected: u64,
    pub reconnects_total: u64,
    pub heartbeat_timeouts: u64,
    pub rate_limit_blocks: u64,
    pub parse_errors: u64,
    pub stale_books: u64,
    pub quotes_generated: u64,
}

impl Metrics {
    /// All counters at zero.
    pub fn new() -> Self {
        Metrics {
            messages_received: AtomicU64::new(0),
            messages_parsed: AtomicU64::new(0),
            book_updates_applied: AtomicU64::new(0),
            sequence_gaps_detected: AtomicU64::new(0),
            reconnects_total: AtomicU64::new(0),
            heartbeat_timeouts: AtomicU64::new(0),
            rate_limit_blocks: AtomicU64::new(0),
            parse_errors: AtomicU64::new(0),
            stale_books: AtomicU64::new(0),
            quotes_generated: AtomicU64::new(0),
        }
    }

    /// Counts a received message.
    pub fn inc_messages_received(&self) {
        self.messages_received.fetch_add(1, Ordering::Relaxed);
    }

    /// Counts a parsed message.
    pub fn inc_messages_parsed(&self) {
        self.messages_parsed.fetch_add(1, Ordering::Relaxed);
    }

    /// Counts an applied book update; returns the count before it.
    pub fn inc_book_updates_applied(&self) -> u64 {
        self.book_updates_applied.fetch_add(1, Ordering::Relaxed)
    }

    /// Counts a detected sequence gap.
    pub fn inc_sequence_gaps_detected(&self) {
        self.sequence_gaps_detected.fetch_add(1, Ordering::Relaxed);
    }

    /// Counts a reconnect.
    pub fn inc_reconnects_total(&self) {
        self.reconnects_total.fetch_add(1, Ordering::Relaxed);
    }

    /// Counts a heartbeat timeout.
    pub fn inc_heartbeat_timeouts(&self) {
        self.heartbeat_timeouts.fetch_add(1, Ordering::Relaxed);
    }

    /// Counts a request refused by a rate limit.
    pub fn inc_rate_limit_blocks(&self) {
        self.rate_limit_blocks.fetch_add(1, Ordering::Relaxed);
    }

    /// Counts a message that could not be parsed.
    pub fn inc_parse_errors(&self) {
        self.parse_errors.fetch_add(1, Ordering::Relaxed);
    }

    /// Counts a generated quote.
    pub fn inc_quotes_generated(&self) {
        self.quotes_generated.fetch_add(1, Ordering::Relaxed);
    }

    /// Reads every counter. Nothing is stated of the values: other tasks
    /// count concurrently.
    pub fn snapshot(&self) -> MetricsSnapshot {
        MetricsSnapshot {
            messages_received: self.messages_received.load(Ordering::Relaxed),
            messages_parsed: self.messages_parsed.load(Ordering::Relaxed),
            book_updates_applied: self.book_updates_applied.load(Ordering::Relaxed),
            sequence_gaps_detected: self.sequence_gaps_detected.load(Ordering::Relaxed),
            reconnects_total: self.reconnects_total.load(Ordering::Relaxed),
            heartbeat_timeouts: self.heartbeat_timeouts.load(Ordering::Relaxed),
            rate_limit_blocks: self.rate_limit_blocks.load(Ordering::Relaxed),
            parse_errors: self.parse_errors.load(Ordering::Relaxed),
            stale_books: self.stale_books.load(Ordering::Relaxed),
            quotes_generated: self.quotes_generated.load(Ordering::Relaxed),
        }
    }
}

} // verus!
