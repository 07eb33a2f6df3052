//! A symmetric quote one tick either side of the mid price.
use crate::types::TopOfBook;
use vstd::prelude::*;

verus! {

/// A two-sided quote around the mid price of a book.
#[derive(Debug, Clone)]
pub struct GeneratedQuote {
    pub bid_price: i64,
    pub ask_price: i64,
    pub mid_price: i64,
    pub half_spread_ticks: i64,
}

/// The mid price of a bid and an ask: their sum halved, truncated toward
/// zero.
pub open spec fn mid_of(bid: i64, ask: i64) -> int {
    let s = bid + ask;
    if s >= 0 {
        s / 2
    } else {
        -((-s) / 2)
    }
}

/// Quotes one tick below and one tick above the book's mid price.
pub fn generate_quote(book: &TopOfBook) -> (q: GeneratedQuote)
    requires
        i64::MIN <= book.bid_price + book.ask_price <= i64::MAX,
    ensures
        q.mid_price == mid_of(book.bid_price, book.ask_price),
        q.half_spread_ticks == 1,
        q.bid_price == q.mid_price - 1,
        q.ask_price == q.mid_price + 1,
{
    let mid_price = (book.bid_price + book.ask_price) / 2;
    let half_spread_ticks: i64 = 1;
    GeneratedQuote {
        bid_price: mid_price - half_spread_ticks,
        ask_price: mid_price + half_spread_ticks,
        mid_price,
        half_spread_ticks,
    }
}

/// Law: the mid price is half the sum of bid and ask, off by at most half
/// a tick; on an uncrossed book (bid at or below ask) it lies between the
/// bid and the ask.
pub proof fn law_quote_inside_book(bid: i64, ask: i64)
    ensures
        -1 <= (bid + ask) - 2 * mid_of(bid, ask) <= 1,
        bid <= ask ==> bid <= mid_of(bid, ask) <= ask,
{
}

} // verus!
