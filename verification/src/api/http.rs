//! What the HTTP API answers: readiness, book views, quotes, cross-venue
//! aggregation and routing, computed from the store and the configuration.
use crate::book::top_of_book::{
    book_key, fresh_at, key_of, lists_symbol_books_of, sorted_by_venue, SharedTopOfBook,
    TopOfBookStore,
};
use crate::config::{configured_stale, AppConfig};
use crate::metrics::counters::Metrics;
use crate::text::{eq_ignore_ascii, to_upper, uppercase};
use crate::types::{Price, Quantity, Sequence, TopOfBook};
use crate::venue::rate_limit::TokenBucket;
use parking_lot::lock_api::Mutex;
use parking_lot::RawMutex;
use std::sync::Arc;
use vstd::prelude::*;

verus! {

/// The staleness threshold of a venue that the configuration does not name.
pub const DEFAULT_STALE_AFTER_MS: u64 = 3000;

/// The staleness threshold for a venue: the configured one, or the default.
pub open spec fn stale_threshold(config: AppConfig, venue: Seq<char>) -> u64 {
    match configured_stale(config.venues@, venue) {
        Some(ms) => ms,
        None => DEFAULT_STALE_AFTER_MS,
    }
}

/// The staleness threshold for a venue (see [`stale_threshold`]).
pub fn stale_after_or_default(config: &AppConfig, venue: &str) -> (r: u64)
    ensures
        r == stale_threshold(*config, venue@),
{
    match config.stale_after_ms_for(venue) {
        Some(ms) => ms,
        None => DEFAULT_STALE_AFTER_MS,
    }
}

/// A book is fresh at `now_us` under its venue's threshold.
pub open spec fn book_is_fresh(config: AppConfig, b: TopOfBook, now_us: i64) -> bool {
    fresh_at(now_us, b.receive_ts_us, stale_threshold(config, b.venue@))
}

/// The book stored under `k` is for the symbol (matched ignoring ASCII case
/// against the symbol in upper case) and is fresh at `now_us`.
pub open spec fn fresh_for_symbol(
    config: AppConfig,
    store: Map<Seq<char>, TopOfBook>,
    symbol: Seq<char>,
    now_us: i64,
    k: Seq<char>,
) -> bool {
    &&& store.contains_key(k)
    &&& eq_ignore_ascii(store[k].symbol@, uppercase(symbol))
    &&& book_is_fresh(config, store[k], now_us)
}

/// `r` lists each fresh book of the store for the symbol once, ordered by
/// venue.
pub open spec fn lists_fresh_books(
    r: Seq<TopOfBook>,
    config: AppConfig,
    store: Map<Seq<char>, TopOfBook>,
    symbol: Seq<char>,
    now_us: i64,
) -> bool {
    &&& forall|i: int|
        0 <= i < r.len() ==> #[trigger] store.contains_key(key_of(r[i])) && store[key_of(r[i])] == r[i]
            && fresh_for_symbol(config, store, symbol, now_us, key_of(r[i]))
    &&& forall|k: Seq<char>|
        #[trigger] fresh_for_symbol(config, store, symbol, now_us, k) ==> r.contains(store[k])
    &&& forall|i: int, j: int| 0 <= i < j < r.len() ==> key_of(r[i]) != key_of(r[j])
    &&& sorted_by_venue(r)
}

/// The fresh books of the store for a symbol, ordered by venue (see
/// [`lists_fresh_books`]).
pub fn fresh_books_for_symbol(config: &AppConfig, store: &TopOfBookStore, symbol: &str, now_us: i64) -> (r: Vec<
    TopOfBook,
>)
    ensures
        lists_fresh_books(r@, *config, store@, symbol@, now_us),
{
    let books = store.all_for_symbol(symbol);
    let mut out: Vec<TopOfBook> = Vec::new();
    let mut i: usize = 0;
    let mut kept: Ghost<Seq<int>> = Ghost(Seq::empty());
    while i < books.len()
        invariant
            i <= books.len(),
            lists_symbol_books_of(books@, store@, uppercase(symbol@)),
            sorted_by_venue(books@),
            out@.len() == kept@.len(),
            forall|a: int| 0 <= a < kept@.len() ==> 0 <= #[trigger] kept@[a] < i,
            forall|a: int, b: int| 0 <= a < b < kept@.len() ==> kept@[a] < kept@[b],
            forall|a: int| 0 <= a < out@.len() ==> #[trigger] out@[a] == books@[kept@[a]],
            forall|a: int| 0 <= a < out@.len() ==> book_is_fresh(*config, #[trigger] out@[a], now_us),
            forall|p: int| 0 <= p < i && book_is_fresh(*config, books@[p], now_us) ==> out@.contains(
                #[trigger] books@[p],
            ),
        decreases books.len() - i,
    {
        let stale = stale_after_or_default(config, books[i].venue.as_str());
        let fresh = match store.age_ms_at(books[i].venue.as_str(), books[i].symbol.as_str(), now_us) {
            Some(age_ms) => age_ms <= stale as i64,
            None => false,
        };
        proof {
            assert(store@.contains_key(key_of(books@[i as int])));
        }
        if fresh {
            let ghost before = out@;
            out.push(crate::types::copy_book(&books[i]));
            proof {
                kept@ = kept@.push(i as int);
                assert forall|p: int| 0 <= p < i + 1 && book_is_fresh(*config, books@[p], now_us)
                    implies out@.contains(#[trigger] books@[p]) by {
                    if p < i {
                        let w = choose|w: int| 0 <= w < before.len() && before[w] == books@[p];
                        assert(out@[w] == books@[p]);
                    } else {
                        assert(out@[before.len() as int] == books@[p]);
                    }
                }
            }
        }
        i = i + 1;
    }
    proof {
        let r = out@;
        assert forall|a: int, b: int| 0 <= a < b < r.len() implies key_of(r[a]) != key_of(r[b]) by {
            assert(r[a] == books@[kept@[a]] && r[b] == books@[kept@[b]]);
        }
        assert forall|a: int, b: int| 0 <= a < b < r.len() implies !crate::text::pair_lt(
            (r[b].venue@, Seq::empty()),
            (r[a].venue@, Seq::empty()),
        ) by {
            assert(r[a] == books@[kept@[a]] && r[b] == books@[kept@[b]]);
        }
        assert forall|k: Seq<char>|
            #[trigger] fresh_for_symbol(*config, store@, symbol@, now_us, k) implies r.contains(store@[k]) by {
            assert(books@.contains(store@[k]));
            let p = choose|p: int| 0 <= p < books@.len() && books@[p] == store@[k];
            assert(book_is_fresh(*config, books@[p], now_us));
        }
    }
    out
}

/// One side of a book as the API reports it.
#[derive(Debug, Clone)]
pub struct BookSide {
    pub venue: String,
    pub venue_symbol: String,
    pub price: Price,
    pub qty: Quantity,
    pub sequence: Sequence,
}

/// `s` is the bid side of `b`.
pub open spec fn is_bid_side(s: BookSide, b: TopOfBook) -> bool {
    s.venue@ == b.venue@ && s.venue_symbol@ == b.venue_symbol@ && s.price == b.bid_price && s.qty
        == b.bid_qty && s.sequence == b.sequence
}

/// `s` is the ask side of `b`.
pub open spec fn is_ask_side(s: BookSide, b: TopOfBook) -> bool {
    s.venue@ == b.venue@ && s.venue_symbol@ == b.venue_symbol@ && s.price == b.ask_price && s.qty
        == b.ask_qty && s.sequence == b.sequence
}

/// The bid side of a book.
pub fn book_side_bid(book: &TopOfBook) -> (s: BookSide)
    ensures
        is_bid_side(s, *book),
{
    BookSide {
        venue: book.venue.clone(),
        venue_symbol: book.venue_symbol.clone(),
        price: book.bid_price,
        qty: book.bid_qty,
        sequence: book.sequence,
    }
}

/// The ask side of a book.
pub fn book_side_ask(book: &TopOfBook) -> (s: BookSide)
    ensures
        is_ask_side(s, *book),
{
    BookSide {
        venue: book.venue.clone(),
        venue_symbol: book.venue_symbol.clone(),
        price: book.ask_price,
        qty: book.ask_qty,
        sequence: book.sequence,
    }
}

/// `i` is the last position holding the highest bid of `s`.
pub open spec fn is_best_bid_at(s: Seq<TopOfBook>, i: int) -> bool {
    &&& 0 <= i < s.len()
    &&& forall|j: int| 0 <= j < s.len() ==> #[trigger] s[j].bid_price <= s[i].bid_price
    &&& forall|j: int| i < j < s.len() ==> #[trigger] s[j].bid_price < s[i].bid_price
}

/// `i` is the first position holding the lowest ask of `s`.
pub open spec fn is_best_ask_at(s: Seq<TopOfBook>, i: int) -> bool {
    &&& 0 <= i < s.len()
    &&& forall|j: int| 0 <= j < s.len() ==> s[i].ask_price <= #[trigger] s[j].ask_price
    &&& forall|j: int| 0 <= j < i ==> s[i].ask_price < #[trigger] s[j].ask_price
}

/// The position of the highest bid, the last one among equals.
pub fn best_bid_index(books: &Vec<TopOfBook>) -> (r: Option<usize>)
    ensures
        match r {
            Some(i) => is_best_bid_at(books@, i as int),
            None => books@.len() == 0,
        },
{
    if books.len() == 0 {
        return None;
    }
    let mut best: usize = 0;
    let mut i: usize = 1;
    while i < books.len()
        invariant
            1 <= i <= books.len(),
            best < i,
            forall|j: int| 0 <= j < i ==> #[trigger] books@[j].bid_price <= books@[best as int].bid_price,
            forall|j: int| best < j < i ==> #[trigger] books@[j].bid_price < books@[best as int].bid_price,
        decreases books.len() - i,
    {
        if books[i].bid_price >= books[best].bid_price {
            best = i;
        }
        i = i + 1;
    }
    Some(best)
}

/// The position of the lowest ask, the first one among equals.
pub fn best_ask_index(books: &Vec<TopOfBook>) -> (r: Option<usize>)
    ensures
        match r {
            Some(i) => is_best_ask_at(books@, i as int),
            None => books@.len() == 0,
        },
{
    if books.len() == 0 {
        return None;
    }
    let mut best: usize = 0;
    let mut i: usize = 1;
    while i < books.len()
        invariant
            1 <= i <= books.len(),
            best < i,
            forall|j: int| 0 <= j < i ==> books@[best as int].ask_price <= #[trigger] books@[j].ask_price,
            forall|j: int| 0 <= j < best ==> books@[best as int].ask_price < #[trigger] books@[j].ask_price,
        decreases books.len() - i,
    {
        if books[i].ask_price < books[best].ask_price {
            best = i;
        }
        i = i + 1;
    }
    Some(best)
}

/// The cross-venue check between the best bid and the best ask.
#[derive(Debug, Clone)]
pub struct Arbitrage {
    /// The best bid is above the best ask and they are on different venues.
    pub exists: bool,
    /// The best bid minus the best ask, in ticks.
    pub edge_ticks: i128,
    /// The venue of the best ask.
    pub buy_venue: String,
    /// The venue of the best bid.
    pub sell_venue: String,
}

/// The best bid and ask across venues, and the arbitrage check between
/// them (absent when there is no book).
#[derive(Debug, Clone)]
pub struct Aggregate {
    pub best_bid: Option<BookSide>,
    pub best_ask: Option<BookSide>,
    pub arbitrage: Option<Arbitrage>,
}

/// `r` reports `bid_book` as the best bid and `ask_book` as the best ask,
/// with the arbitrage check between them.
pub open spec fn aggregate_is(r: Aggregate, bid_book: TopOfBook, ask_book: TopOfBook) -> bool {
    &&& r.best_bid matches Some(b) && is_bid_side(b, bid_book)
    &&& r.best_ask matches Some(a) && is_ask_side(a, ask_book)
    &&& r.arbitrage matches Some(x) && {
        &&& x.edge_ticks == bid_book.bid_price - ask_book.ask_price
        &&& x.exists == (bid_book.bid_price > ask_book.ask_price && bid_book.venue@ != ask_book.venue@)
        &&& x.buy_venue@ == ask_book.venue@
        &&& x.sell_venue@ == bid_book.venue@
    }
}

/// Aggregates books: the last highest bid, the first lowest ask, and
/// whether buying at that ask and selling at that bid on two venues gains.
pub fn aggregate_books(books: &Vec<TopOfBook>) -> (r: Aggregate)
    ensures
        books@.len() == 0 ==> r.best_bid is None && r.best_ask is None && r.arbitrage is None,
        books@.len() > 0 ==> exists|i: int, j: int|
            #![trigger is_best_bid_at(books@, i), is_best_ask_at(books@, j)]
            is_best_bid_at(books@, i) && is_best_ask_at(books@, j) && aggregate_is(r, books@[i], books@[j]),
{
    let bid_i = best_bid_index(books);
    let ask_i = best_ask_index(books);
    match (bid_i, ask_i) {
        (Some(i), Some(j)) => {
            let bid = book_side_bid(&books[i]);
            let ask = book_side_ask(&books[j]);
            let edge_ticks: i128 = bid.price as i128 - ask.price as i128;
            let different = bid.venue != ask.venue;
            let arbitrage = Arbitrage {
                exists: bid.price > ask.price && different,
                edge_ticks,
                buy_venue: ask.venue.clone(),
                sell_venue: bid.venue.clone(),
            };
            proof {
                assert(is_best_bid_at(books@, i as int) && is_best_ask_at(books@, j as int));
            }
            Aggregate { best_bid: Some(bid), best_ask: Some(ask), arbitrage: Some(arbitrage) }
        },
        _ => Aggregate { best_bid: None, best_ask: None, arbitrage: None },
    }
}

/// The side of a routing request.
#[derive(Debug, Clone, Copy, PartialEq, Eq, Structural)]
pub enum RouteSide {
    Buy,
    Sell,
}

/// The side a request names, in upper case: `BUY`, `BUY_BASE` or `BUY_YES`
/// buy; `SELL`, `SELL_BASE` or `SELL_YES` sell.
pub open spec fn side_of(upper: Seq<char>) -> Option<RouteSide> {
    if upper == "BUY"@ || upper == "BUY_BASE"@ || upper == "BUY_YES"@ {
        Some(RouteSide::Buy)
    } else if upper == "SELL"@ || upper == "SELL_BASE"@ || upper == "SELL_YES"@ {
        Some(RouteSide::Sell)
    } else {
        None
    }
}

/// Reads the side of a routing request, case-insensitively (see
/// [`side_of`]).
pub fn parse_route_side(side: &str) -> (r: Option<RouteSide>)
    ensures
        r == side_of(uppercase(side@)),
{
    let up = to_upper(side);
    proof {
        reveal_strlit("BUY");
        reveal_strlit("BUY_BASE");
        reveal_strlit("BUY_YES");
        reveal_strlit("SELL");
        reveal_strlit("SELL_BASE");
        reveal_strlit("SELL_YES");
    }
    if up == String::from_str("BUY") || up == String::from_str("BUY_BASE") || up == String::from_str(
        "BUY_YES",
    ) {
        Some(RouteSide::Buy)
    } else if up == String::from_str("SELL") || up == String::from_str("SELL_BASE")
        || up == String::from_str("SELL_YES") {
        Some(RouteSide::Sell)
    } else {
        None
    }
}

/// Where a request is routed.
#[derive(Debug, Clone)]
pub struct RouteDecision {
    pub side: RouteSide,
    pub venue: String,
    pub venue_symbol: String,
    pub price: Price,
    pub available_qty: Quantity,
    pub routable_qty: Quantity,
}

/// The answer to a routing request.
#[derive(Debug, Clone)]
pub enum RouteOutcome {
    /// No fresh book for the symbol.
    NoFreshBooks,
    /// The side is neither a buy nor a sell.
    BadSide,
    /// The chosen venue.
    Routed(RouteDecision),
}

/// `r` routes to book `b` on the given side: the ask for a buy, the bid
/// for a sell, with the quantity there and the part of the request it
/// covers.
pub open spec fn routed_to(r: RouteOutcome, b: TopOfBook, side: RouteSide, requested_qty: Quantity) -> bool {
    let (price, available) = if side == RouteSide::Buy {
        (b.ask_price, b.ask_qty)
    } else {
        (b.bid_price, b.bid_qty)
    };
    &&& r matches RouteOutcome::Routed(d)
    &&& r->Routed_0.side == side
    &&& r->Routed_0.venue@ == b.venue@
    &&& r->Routed_0.venue_symbol@ == b.venue_symbol@
    &&& r->Routed_0.price == price
    &&& r->Routed_0.available_qty == available
    &&& r->Routed_0.routable_qty == if requested_qty <= available {
        requested_qty
    } else {
        available
    }
}

/// Routes a request across books: with no book, nothing; with an unknown
/// side, a bad side; a buy goes to the first lowest ask, a sell to the last
/// highest bid, with the quantity available there and the part of the
/// requested quantity that it covers.
pub fn route_books(books: &Vec<TopOfBook>, side: &str, requested_qty: Quantity) -> (r: RouteOutcome)
    ensures
        books@.len() == 0 ==> r is NoFreshBooks,
        books@.len() > 0 && side_of(uppercase(side@)) is None ==> r is BadSide,
        books@.len() > 0 && side_of(uppercase(side@)) == Some(RouteSide::Buy) ==> exists|j: int|
            #[trigger] is_best_ask_at(books@, j) && routed_to(r, books@[j], RouteSide::Buy, requested_qty),
        books@.len() > 0 && side_of(uppercase(side@)) == Some(RouteSide::Sell) ==> exists|i: int|
            #[trigger] is_best_bid_at(books@, i) && routed_to(r, books@[i], RouteSide::Sell, requested_qty),
{
    if books.len() == 0 {
        return RouteOutcome::NoFreshBooks;
    }
    let side = match parse_route_side(side) {
        Some(s) => s,
        None => {
            return RouteOutcome::BadSide;
        },
    };
    let (i, price, available) = match side {
        RouteSide::Buy => {
            let j = best_ask_index(books).unwrap();
            (j, books[j].ask_price, books[j].ask_qty)
        },
        RouteSide::Sell => {
            let j = best_bid_index(books).unwrap();
            (j, books[j].bid_price, books[j].bid_qty)
        },
    };
    let routable_qty = if requested_qty <= available {
        requested_qty
    } else {
        available
    };
    RouteOutcome::Routed(
        RouteDecision {
            side,
            venue: books[i].venue.clone(),
            venue_symbol: books[i].venue_symbol.clone(),
            price,
            available_qty: available,
            routable_qty,
        },
    )
}


/// Routes a request for a symbol over the fresh books of the store at
/// `now_us`: returns those books (see [`lists_fresh_books`]) and the
/// outcome of [`route_books`] over them. A buy is routed to a fresh book of
/// the symbol whose ask is no higher than that of any fresh book of the
/// symbol (the first such book in venue order); a sell to one whose bid is
/// no lower than any (the last such book in venue order).
pub fn route_for_symbol(
    config: &AppConfig,
    store: &TopOfBookStore,
    symbol: &str,
    side: &str,
    requested_qty: Quantity,
    now_us: i64,
) -> (r: (Vec<TopOfBook>, RouteOutcome))
    ensures
        lists_fresh_books(r.0@, *config, store@, symbol@, now_us),
        r.0@.len() == 0 ==> r.1 is NoFreshBooks,
        r.0@.len() > 0 && side_of(uppercase(side@)) is None ==> r.1 is BadSide,
        r.0@.len() > 0 && side_of(uppercase(side@)) == Some(RouteSide::Buy) ==> exists|b: TopOfBook|
            #[trigger] routed_to(r.1, b, RouteSide::Buy, requested_qty) && r.0@.contains(b) && forall|
                k: Seq<char>,
            |
                #[trigger] fresh_for_symbol(*config, store@, symbol@, now_us, k) ==> b.ask_price
                    <= store@[k].ask_price,
        r.0@.len() > 0 && side_of(uppercase(side@)) == Some(RouteSide::Sell) ==> exists|b: TopOfBook|
            #[trigger] routed_to(r.1, b, RouteSide::Sell, requested_qty) && r.0@.contains(b) && forall|
                k: Seq<char>,
            |
                #[trigger] fresh_for_symbol(*config, store@, symbol@, now_us, k) ==> store@[k].bid_price
                    <= b.bid_price,
        r.0@.len() > 0 && side_of(uppercase(side@)) == Some(RouteSide::Buy) ==> exists|j: int|
            #[trigger] is_best_ask_at(r.0@, j) && routed_to(r.1, r.0@[j], RouteSide::Buy, requested_qty),
        r.0@.len() > 0 && side_of(uppercase(side@)) == Some(RouteSide::Sell) ==> exists|i: int|
            #[trigger] is_best_bid_at(r.0@, i) && routed_to(r.1, r.0@[i], RouteSide::Sell, requested_qty),
{
    let books = fresh_books_for_symbol(config, store, symbol, now_us);
    let outcome = route_books(&books, side, requested_qty);
    proof {
        let s = books@;
        if s.len() > 0 && side_of(uppercase(side@)) == Some(RouteSide::Buy) {
            let j = choose|j: int|
                #[trigger] is_best_ask_at(s, j) && routed_to(outcome, s[j], RouteSide::Buy, requested_qty);
            assert forall|k: Seq<char>|
                #[trigger] fresh_for_symbol(*config, store@, symbol@, now_us, k) implies s[j].ask_price
                    <= store@[k].ask_price by {
                let x = choose|x: int| 0 <= x < s.len() && s[x] == store@[k];
                assert(s[j].ask_price <= s[x].ask_price);
            }
            assert(routed_to(outcome, s[j], RouteSide::Buy, requested_qty) && s.contains(s[j]));
        }
        if s.len() > 0 && side_of(uppercase(side@)) == Some(RouteSide::Sell) {
            let i = choose|i: int|
                #[trigger] is_best_bid_at(s, i) && routed_to(outcome, s[i], RouteSide::Sell, requested_qty);
            assert forall|k: Seq<char>|
                #[trigger] fresh_for_symbol(*config, store@, symbol@, now_us, k) implies store@[k].bid_price
                    <= s[i].bid_price by {
                let x = choose|x: int| 0 <= x < s.len() && s[x] == store@[k];
                assert(s[x].bid_price <= s[i].bid_price);
            }
            assert(routed_to(outcome, s[i], RouteSide::Sell, requested_qty) && s.contains(s[i]));
        }
    }
    (books, outcome)
}

/// Aggregates the fresh books of the store for a symbol at `now_us`:
/// returns those books (see [`lists_fresh_books`]) and [`aggregate_books`]
/// over them. The best bid is no lower than the bid of any fresh book of
/// the symbol, the best ask no higher than any ask; among equal prices the
/// bid is the last in venue order and the ask the first.
pub fn aggregate_for_symbol(config: &AppConfig, store: &TopOfBookStore, symbol: &str, now_us: i64) -> (r: (
    Vec<TopOfBook>,
    Aggregate,
))
    ensures
        lists_fresh_books(r.0@, *config, store@, symbol@, now_us),
        r.0@.len() == 0 ==> r.1.best_bid is None && r.1.best_ask is None && r.1.arbitrage is None,
        r.0@.len() > 0 ==> exists|bid_book: TopOfBook, ask_book: TopOfBook|
            #[trigger] aggregate_is(r.1, bid_book, ask_book) && r.0@.contains(bid_book) && r.0@.contains(
                ask_book,
            ) && forall|k: Seq<char>|
                #[trigger] fresh_for_symbol(*config, store@, symbol@, now_us, k) ==> store@[k].bid_price
                    <= bid_book.bid_price && ask_book.ask_price <= store@[k].ask_price,
        r.0@.len() > 0 ==> exists|i: int, j: int|
            #![trigger is_best_bid_at(r.0@, i), is_best_ask_at(r.0@, j)]
            is_best_bid_at(r.0@, i) && is_best_ask_at(r.0@, j) && aggregate_is(r.1, r.0@[i], r.0@[j]),
{
    let books = fresh_books_for_symbol(config, store, symbol, now_us);
    let agg = aggregate_books(&books);
    proof {
        let s = books@;
        if s.len() > 0 {
            let (i, j) = choose|i: int, j: int|
                #![trigger is_best_bid_at(s, i), is_best_ask_at(s, j)]
                is_best_bid_at(s, i) && is_best_ask_at(s, j) && aggregate_is(agg, s[i], s[j]);
            assert forall|k: Seq<char>|
                #[trigger] fresh_for_symbol(*config, store@, symbol@, now_us, k) implies store@[k].bid_price
                    <= s[i].bid_price && s[j].ask_price <= store@[k].ask_price by {
                let x = choose|x: int| 0 <= x < s.len() && s[x] == store@[k];
                assert(s[x].bid_price <= s[i].bid_price);
                assert(s[j].ask_price <= s[x].ask_price);
            }
            assert(aggregate_is(agg, s[i], s[j]) && s.contains(s[i]) && s.contains(s[j]));
        }
    }
    (books, agg)
}

/// How fresh the book of one venue and symbol is.
#[derive(Debug, Clone)]
pub struct MarketStatus {
    pub venue: String,
    pub symbol: String,
    /// A book is stored and is no older than the threshold.
    pub fresh: bool,
    pub age_us: Option<i64>,
    pub age_ms: Option<i64>,
    pub stale_after_ms: u64,
}

/// `st` reports the book stored for `venue` and `symbol` at `now_us`.
pub open spec fn status_is(
    st: MarketStatus,
    config: AppConfig,
    store: Map<Seq<char>, TopOfBook>,
    venue: Seq<char>,
    symbol: Seq<char>,
    now_us: i64,
) -> bool {
    let k = book_key(venue, symbol);
    &&& st.venue@ == venue
    &&& st.symbol@ == symbol
    &&& st.stale_after_ms == stale_threshold(config, venue)
    &&& if store.contains_key(k) {
        &&& st.age_us == Some(crate::book::top_of_book::age_at(now_us, store[k].receive_ts_us))
        &&& st.age_ms == Some(
            crate::book::top_of_book::us_to_ms(
                crate::book::top_of_book::age_at(now_us, store[k].receive_ts_us),
            ),
        )
        &&& st.fresh == fresh_at(now_us, store[k].receive_ts_us, stale_threshold(config, venue))
    } else {
        st.age_us is None && st.age_ms is None && !st.fresh
    }
}

/// The freshness of the book stored for a venue and symbol at `now_us`.
pub fn market_status(config: &AppConfig, store: &TopOfBookStore, venue: &str, symbol: &str, now_us: i64) -> (st:
    MarketStatus)
    ensures
        status_is(st, *config, store@, venue@, symbol@, now_us),
{
    let stale_after_ms = stale_after_or_default(config, venue);
    let age_us = store.age_us_at(venue, symbol, now_us);
    let age_ms = store.age_ms_at(venue, symbol, now_us);
    let fresh = store.is_fresh_at(venue, symbol, stale_after_ms, now_us);
    MarketStatus {
        venue: String::from_str(venue),
        symbol: String::from_str(symbol),
        fresh,
        age_us,
        age_ms,
        stale_after_ms,
    }
}

/// The status of every configured market, in configuration order, and
/// whether all of them are fresh.
pub fn readiness(config: &AppConfig, store: &TopOfBookStore, now_us: i64) -> (r: (bool, Vec<MarketStatus>))
    ensures
        r.1@.len() == crate::config::flat_markets(config.venues@).len(),
        forall|k: int|
            0 <= k < r.1@.len() ==> status_is(
                #[trigger] r.1@[k],
                *config,
                store@,
                uppercase(crate::config::flat_markets(config.venues@)[k].0.name@),
                uppercase(crate::config::flat_markets(config.venues@)[k].1.symbol@),
                now_us,
            ),
        r.0 == forall|k: int| 0 <= k < r.1@.len() ==> (#[trigger] r.1@[k]).fresh,
{
    let markets = config.all_configured_markets();
    let mut out: Vec<MarketStatus> = Vec::new();
    let mut all_ready = true;
    let mut i: usize = 0;
    while i < markets.len()
        invariant
            i <= markets.len(),
            markets@.len() == crate::config::flat_markets(config.venues@).len(),
            forall|k: int|
                0 <= k < markets@.len() ==> (#[trigger] markets@[k]).0@ == uppercase(
                    crate::config::flat_markets(config.venues@)[k].0.name@,
                ) && markets@[k].1@ == uppercase(crate::config::flat_markets(config.venues@)[k].1.symbol@),
            out@.len() == i,
            forall|k: int|
                0 <= k < i ==> status_is(
                    #[trigger] out@[k],
                    *config,
                    store@,
                    markets@[k].0@,
                    markets@[k].1@,
                    now_us,
                ),
            all_ready == forall|k: int| 0 <= k < i ==> (#[trigger] out@[k]).fresh,
        decreases markets.len() - i,
    {
        let st = market_status(config, store, markets[i].0.as_str(), markets[i].1.as_str(), now_us);
        if !st.fresh {
            all_ready = false;
        }
        let ghost before = out@;
        out.push(st);
        proof {
            assert forall|k: int| 0 <= k < i + 1 implies status_is(
                #[trigger] out@[k],
                *config,
                store@,
                markets@[k].0@,
                markets@[k].1@,
                now_us,
            ) by {
                if k < i {
                    assert(out@[k] == before[k]);
                }
            }
            if !all_ready {
                if !out@[i as int].fresh {
                } else {
                    let w = choose|k: int| 0 <= k < i && !before[k].fresh;
                    assert(out@[w] == before[w]);
                }
            } else {
                assert forall|k: int| 0 <= k < i + 1 implies (#[trigger] out@[k]).fresh by {
                    if k < i {
                        assert(out@[k] == before[k]);
                    }
                }
            }
        }
        i = i + 1;
    }
    (all_ready, out)
}

/// A stored book with its freshness, as the book list reports it.
#[derive(Debug, Clone)]
pub struct BookStatus {
    pub book: TopOfBook,
    pub status: MarketStatus,
}

/// Every stored book, ordered by venue then symbol, each with its
/// freshness at `now_us`.
pub fn book_statuses(config: &AppConfig, store: &TopOfBookStore, now_us: i64) -> (r: Vec<BookStatus>)
    ensures
        crate::book::top_of_book::lists_books_of(r@.map_values(|s: BookStatus| s.book), store@),
        crate::book::top_of_book::sorted_by_venue_symbol(r@.map_values(|s: BookStatus| s.book)),
        forall|i: int|
            0 <= i < r@.len() ==> status_is(
                (#[trigger] r@[i]).status,
                *config,
                store@,
                r@[i].book.venue@,
                r@[i].book.symbol@,
                now_us,
            ),
{
    let books = store.all();
    let mut out: Vec<BookStatus> = Vec::new();
    let mut i: usize = 0;
    while i < books.len()
        invariant
            i <= books.len(),
            out@.len() == i,
            forall|k: int| 0 <= k < i ==> (#[trigger] out@[k]).book == books@[k],
            forall|k: int|
                0 <= k < i ==> status_is(
                    (#[trigger] out@[k]).status,
                    *config,
                    store@,
                    out@[k].book.venue@,
                    out@[k].book.symbol@,
                    now_us,
                ),
        decreases books.len() - i,
    {
        let st = market_status(config, store, books[i].venue.as_str(), books[i].symbol.as_str(), now_us);
        let ghost before = out@;
        out.push(BookStatus { book: crate::types::copy_book(&books[i]), status: st });
        proof {
            assert forall|k: int| 0 <= k < i + 1 implies (#[trigger] out@[k]).book == books@[k] by {
                if k < i {
                    assert(out@[k] == before[k]);
                }
            }
            assert forall|k: int| 0 <= k < i + 1 implies status_is(
                (#[trigger] out@[k]).status,
                *config,
                store@,
                out@[k].book.venue@,
                out@[k].book.symbol@,
                now_us,
            ) by {
                if k < i {
                    assert(out@[k] == before[k]);
                }
            }
        }
        i = i + 1;
    }
    proof {
        assert(out@.map_values(|s: BookStatus| s.book) =~= books@);
    }
    out
}

/// The book of one venue and symbol as the API reports it: the names in
/// upper case, the freshness, and the book if one is stored.
#[derive(Debug, Clone)]
pub struct BookView {
    pub status: MarketStatus,
    pub book: Option<TopOfBook>,
}

/// The book stored for a venue and symbol, looked up in upper case.
pub fn book_response(config: &AppConfig, store: &TopOfBookStore, venue: &str, symbol: &str, now_us: i64) -> (r:
    BookView)
    ensures
        status_is(r.status, *config, store@, uppercase(venue@), uppercase(symbol@), now_us),
        match r.book {
            Some(b) => store@.contains_key(book_key(uppercase(venue@), uppercase(symbol@))) && b
                == store@[book_key(uppercase(venue@), uppercase(symbol@))],
            None => !store@.contains_key(book_key(uppercase(venue@), uppercase(symbol@))),
        },
{
    let venue_upper = to_upper(venue);
    let symbol_upper = to_upper(symbol);
    let status = market_status(config, store, venue_upper.as_str(), symbol_upper.as_str(), now_us);
    let book = store.get(venue_upper.as_str(), symbol_upper.as_str());
    BookView { status, book }
}

/// The answer to a quote request.
#[derive(Debug, Clone)]
pub enum QuoteOutcome {
    /// The quote rate limit refused the request.
    RateLimited,
    /// The book is missing or older than its venue's threshold.
    StaleBook(MarketStatus),
    /// The book's bid and ask do not add up within `i64`.
    PriceOverflow(MarketStatus),
    /// The quote, with the book it was made from and the time it took.
    Quoted {
        status: MarketStatus,
        book: TopOfBook,
        quote: crate::strategy::market_maker::GeneratedQuote,
        quote_latency_us: i64,
    },
}

/// The quote for a venue and symbol (looked up in upper case): refused when
/// the rate limit does not allow it; stale when no fresh book is stored;
/// otherwise one tick either side of the book's mid (see
/// [`crate::strategy::market_maker::generate_quote`]).
pub fn quote_decision(
    allowed: bool,
    config: &AppConfig,
    store: &TopOfBookStore,
    venue: &str,
    symbol: &str,
    now_us: i64,
) -> (r: QuoteOutcome)
    ensures
        quote_decision_holds(allowed, *config, store@, venue@, symbol@, now_us, r),
{
    if !allowed {
        return QuoteOutcome::RateLimited;
    }
    let view = book_response(config, store, venue, symbol, now_us);
    if !view.status.fresh {
        return QuoteOutcome::StaleBook(view.status);
    }
    let book = match view.book {
        Some(b) => b,
        None => {
            return QuoteOutcome::StaleBook(view.status);
        },
    };
    let sum: i128 = book.bid_price as i128 + book.ask_price as i128;
    if sum < i64::MIN as i128 || sum > i64::MAX as i128 {
        return QuoteOutcome::PriceOverflow(view.status);
    }
    let start_us = crate::metrics::latency::now_us();
    let quote = crate::strategy::market_maker::generate_quote(&book);
    let done_us = crate::metrics::latency::now_us();
    QuoteOutcome::Quoted {
        status: view.status,
        book,
        quote,
        quote_latency_us: done_us.wrapping_sub(start_us),
    }
}

#[verifier::external_type_specification]
#[verifier::external_body]
pub struct ExRawMutex(RawMutex);

#[verifier::external_type_specification]
#[verifier::external_body]
#[verifier::reject_recursive_types(R)]
#[verifier::reject_recursive_types(T)]
pub struct ExMutex<R, T: ?Sized>(Mutex<R, T>);

/// Calls `parking_lot::Mutex::new`.
#[verifier::external_body]
fn new_limiter_lock(bucket: TokenBucket) -> Mutex<RawMutex, TokenBucket> {
    Mutex::new(bucket)
}

/// Calls `Mutex::lock`, waits until the lock is free, and hands the bucket
/// it guards to `f` while holding it; returns what `f` returns.
#[verifier::external_body]
fn with_limiter<F: FnOnce(&mut TokenBucket) -> bool>(lock: &Mutex<RawMutex, TokenBucket>, f: F) -> bool {
    f(&mut lock.lock())
}

/// Asks the shared bucket for a token while holding its lock. Nothing is
/// stated of the answer: other requests share the bucket.
fn limiter_try_acquire(lock: &Mutex<RawMutex, TokenBucket>) -> bool {
    with_limiter(lock, |bucket: &mut TokenBucket| -> (r: bool) { bucket.try_acquire() })
}

/// What the API handlers share.
#[derive(Clone)]
pub struct ApiState {
    pub config: AppConfig,
    pub metrics: Arc<Metrics>,
    pub top_of_book: SharedTopOfBook,
    pub quote_rate_limiter: Arc<Mutex<RawMutex, TokenBucket>>,
}

impl ApiState {
    /// The shared state, with a quote limiter that allows the configured
    /// outbound rate per second in bursts of the same size.
    pub fn new(config: AppConfig, metrics: Arc<Metrics>, top_of_book: SharedTopOfBook) -> (r: Self)
        ensures
            r.config == config,
    {
        let rate = config.rate_limits.outbound_messages_per_second;
        let bucket = TokenBucket::new(rate, rate);
        ApiState {
            config,
            metrics,
            top_of_book,
            quote_rate_limiter: Arc::new(new_limiter_lock(bucket)),
        }
    }
}

/// Answers a quote request now: asks the limiter for a token (counting a
/// refusal), then decides on a copy of the store (see [`quote_decision`]),
/// counting a quote made.
pub fn build_quote_response(state: &ApiState, venue: &str, symbol: &str) -> (r: QuoteOutcome)
    ensures
        exists|allowed: bool, store: TopOfBookStore, now_us: i64|
            #[trigger] quote_decision_holds(allowed, state.config, store@, venue@, symbol@, now_us, r),
{
    let allowed = limiter_try_acquire(&state.quote_rate_limiter);
    if !allowed {
        state.metrics.inc_rate_limit_blocks();
    }
    let store = state.top_of_book.snapshot();
    let now = crate::metrics::latency::now_us();
    let r = quote_decision(allowed, &state.config, &store, venue, symbol, now);
    if let QuoteOutcome::Quoted { .. } = &r {
        state.metrics.inc_quotes_generated();
    }
    proof {
        assert(quote_decision_holds(allowed, state.config, store@, venue@, symbol@, now, r));
    }
    r
}

/// `r` is an answer that [`quote_decision`] gives for these inputs.
pub open spec fn quote_decision_holds(
    allowed: bool,
    config: AppConfig,
    store: Map<Seq<char>, TopOfBook>,
    venue: Seq<char>,
    symbol: Seq<char>,
    now_us: i64,
    r: QuoteOutcome,
) -> bool {
    if !allowed {
        r is RateLimited
    } else {
        let k = book_key(uppercase(venue), uppercase(symbol));
        let fresh = store.contains_key(k) && fresh_at(
            now_us,
            store[k].receive_ts_us,
            stale_threshold(config, uppercase(venue)),
        );
        if !fresh {
            match r {
                QuoteOutcome::StaleBook(st) => status_is(
                    st,
                    config,
                    store,
                    uppercase(venue),
                    uppercase(symbol),
                    now_us,
                ),
                _ => false,
            }
        } else if !(i64::MIN <= store[k].bid_price + store[k].ask_price <= i64::MAX) {
            match r {
                QuoteOutcome::PriceOverflow(st) => status_is(
                    st,
                    config,
                    store,
                    uppercase(venue),
                    uppercase(symbol),
                    now_us,
                ),
                _ => false,
            }
        } else {
            match r {
                QuoteOutcome::Quoted { status, book, quote, .. } => {
                    &&& book == store[k]
                    &&& status_is(status, config, store, uppercase(venue), uppercase(symbol), now_us)
                    &&& quote.mid_price == crate::strategy::market_maker::mid_of(
                        book.bid_price,
                        book.ask_price,
                    )
                    &&& quote.half_spread_ticks == 1
                    &&& quote.bid_price == quote.mid_price - 1
                    &&& quote.ask_price == quote.mid_price + 1
                },
                _ => false,
            }
        }
    }
}

} // verus!
