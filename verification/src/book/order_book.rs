//! A local depth book rebuilt from a snapshot and kept current by
//! sequenced diff updates.
use crate::metrics::latency::now_us;
use crate::types::{
    DepthSnapshot, NormalizedDepthUpdate, NormalizedTopOfBookUpdate, Price, PriceLevel, Quantity,
    TopOfBook,
};
use vstd::prelude::*;

verus! {

// ---------------------------------------------------------------------------
// One side of a book: price levels kept sorted by price, each with a
// positive quantity. Its meaning is a map from price to quantity.
// ---------------------------------------------------------------------------

/// Prices strictly increase along `s` and every quantity is positive.
pub open spec fn side_wf(s: Seq<PriceLevel>) -> bool {
    &&& forall|i: int, j: int| 0 <= i < j < s.len() ==> s[i].price < s[j].price
    &&& forall|i: int| 0 <= i < s.len() ==> s[i].qty > 0
}

/// Some level of `s` stands at price `p`.
pub open spec fn has_price(s: Seq<PriceLevel>, p: Price) -> bool {
    exists|i: int| 0 <= i < s.len() && s[i].price == p
}

/// The position of the level at price `p` in `s`.
pub open spec fn price_pos(s: Seq<PriceLevel>, p: Price) -> int {
    choose|i: int| 0 <= i < s.len() && s[i].price == p
}

/// The side as a map from price to quantity.
pub open spec fn side_map(s: Seq<PriceLevel>) -> Map<Price, Quantity> {
    Map::new(|p: Price| has_price(s, p), |p: Price| s[price_pos(s, p)].qty)
}

/// One level of a diff update applied to a side: a non-positive quantity
/// removes the price, a positive one sets it.
pub open spec fn set_level(m: Map<Price, Quantity>, lv: PriceLevel) -> Map<Price, Quantity> {
    if lv.qty <= 0 {
        m.remove(lv.price)
    } else {
        m.insert(lv.price, lv.qty)
    }
}

/// The levels of a diff update applied to a side, in order.
pub open spec fn apply_levels(m: Map<Price, Quantity>, levels: Seq<PriceLevel>) -> Map<
    Price,
    Quantity,
>
    decreases levels.len(),
{
    if levels.len() == 0 {
        m
    } else {
        set_level(apply_levels(m, levels.drop_last()), levels.last())
    }
}

/// The levels of a snapshot loaded into a side, in order: only positive
/// quantities are kept, and a later level at the same price replaces an
/// earlier one.
pub open spec fn load_levels(levels: Seq<PriceLevel>) -> Map<Price, Quantity>
    decreases levels.len(),
{
    if levels.len() == 0 {
        Map::empty()
    } else {
        let m = load_levels(levels.drop_last());
        let lv = levels.last();
        if lv.qty > 0 {
            m.insert(lv.price, lv.qty)
        } else {
            m
        }
    }
}

/// In a well-formed side, the level at a price is unique.
proof fn lemma_price_pos(s: Seq<PriceLevel>, i: int)
    requires
        side_wf(s),
        0 <= i < s.len(),
    ensures
        has_price(s, s[i].price),
        price_pos(s, s[i].price) == i,
{
    let p = s[i].price;
    assert(has_price(s, p));
    let k = price_pos(s, p);
    if k < i {
        assert(s[k].price < s[i].price);
    } else if k > i {
        assert(s[i].price < s[k].price);
    }
}

/// The first position whose price is not below `p`.
fn lower_bound(s: &Vec<PriceLevel>, p: Price) -> (i: usize)
    requires
        side_wf(s@),
    ensures
        i <= s.len(),
        forall|j: int| 0 <= j < i ==> s@[j].price < p,
        i < s.len() ==> s@[i as int].price >= p,
{
    let mut i: usize = 0;
    while i < s.len() && s[i].price < p
        invariant
            i <= s.len(),
            side_wf(s@),
            forall|j: int| 0 <= j < i ==> s@[j].price < p,
        decreases s.len() - i,
    {
        i = i + 1;
    }
    i
}

/// Sets or removes one level of a side, keeping it sorted.
#[verifier::rlimit(30)]
#[verifier::spinoff_prover]
fn side_set_level(side: &mut Vec<PriceLevel>, lv: PriceLevel)
    requires
        side_wf(old(side)@),
    ensures
        side_wf(final(side)@),
        side_map(final(side)@) == set_level(side_map(old(side)@), lv),
{
    let ghost s0 = side@;
    let i = lower_bound(side, lv.price);
    if i < side.len() && side[i].price == lv.price {
        if lv.qty <= 0 {
            side.remove(i);
            proof {
                let s1 = side@;
                assert(side_wf(s1)) by {
                    assert forall|a: int, b: int| 0 <= a < b < s1.len() implies s1[a].price
                        < s1[b].price by {
                        let a0 = if a < i { a } else { a + 1 };
                        let b0 = if b < i { b } else { b + 1 };
                        assert(s1[a] == s0[a0]);
                        assert(s1[b] == s0[b0]);
                    }
                    assert forall|a: int| 0 <= a < s1.len() implies s1[a].qty > 0 by {
                        let a0 = if a < i { a } else { a + 1 };
                        assert(s1[a] == s0[a0]);
                    }
                }
                assert(side_map(s1) =~= side_map(s0).remove(lv.price)) by {
                    assert forall|q: Price| #[trigger] has_price(s1, q) == (has_price(s0, q) && q
                        != lv.price) by {
                        if has_price(s1, q) {
                            let a = choose|a: int| 0 <= a < s1.len() && s1[a].price == q;
                            let a0 = if a < i { a } else { a + 1 };
                            assert(s1[a] == s0[a0]);
                            lemma_price_pos(s0, a0);
                            lemma_price_pos(s0, i as int);
                        }
                        if has_price(s0, q) && q != lv.price {
                            let a0 = choose|a: int| 0 <= a < s0.len() && s0[a].price == q;
                            let a = if a0 < i { a0 } else { a0 - 1 };
                            assert(a0 != i);
                            assert(s1[a] == s0[a0]);
                        }
                    }
                    assert forall|q: Price| #[trigger] has_price(s1, q) implies side_map(s1)[q]
                        == side_map(s0)[q] by {
                        let a = price_pos(s1, q);
                        let a0 = if a < i { a } else { a + 1 };
                        assert(s1[a] == s0[a0]);
                        lemma_price_pos(s0, a0);
                    }
                }
            }
        } else {
            side.set(i, lv);
            proof {
                let s1 = side@;
                assert(side_wf(s1)) by {
                    assert forall|a: int, b: int| 0 <= a < b < s1.len() implies s1[a].price
                        < s1[b].price by {
                        assert(s0[a].price < s0[b].price);
                    }
                }
                assert(side_map(s1) =~= side_map(s0).insert(lv.price, lv.qty)) by {
                    assert forall|q: Price| #[trigger] has_price(s1, q) == (has_price(s0, q) || q
                        == lv.price) by {
                        if has_price(s1, q) {
                            let a = choose|a: int| 0 <= a < s1.len() && s1[a].price == q;
                            assert(s0[a].price == s1[a].price);
                        }
                        if has_price(s0, q) {
                            let a = choose|a: int| 0 <= a < s0.len() && s0[a].price == q;
                            assert(s0[a].price == s1[a].price);
                        }
                        if q == lv.price {
                            assert(s1[i as int].price == q);
                        }
                    }
                    assert forall|q: Price| #[trigger] has_price(s1, q) implies side_map(s1)[q]
                        == side_map(s0).insert(lv.price, lv.qty)[q] by {
                        let a = price_pos(s1, q);
                        lemma_price_pos(s1, a);
                        if q != lv.price {
                            assert(a != i);
                            lemma_price_pos(s0, a);
                        } else {
                            lemma_price_pos(s1, i as int);
                        }
                    }
                }
            }
        }
    } else {
        if lv.qty > 0 {
            side.insert(i, lv);
            proof {
                let s1 = side@;
                assert(side_wf(s1)) by {
                    assert forall|a: int, b: int| 0 <= a < b < s1.len() implies s1[a].price
                        < s1[b].price by {
                        if a < i && b > i {
                            assert(s1[a] == s0[a]);
                            assert(s1[b] == s0[b - 1]);
                            assert(s0[a].price < lv.price);
                            assert(s0[i as int].price >= lv.price);
                            if b - 1 > i {
                                assert(s0[i as int].price < s0[b - 1].price);
                            }
                        } else if a > i {
                            assert(s0[a - 1].price < s0[b - 1].price);
                        } else if a == i {
                            assert(s0[i as int].price >= lv.price);
                            if b - 1 > i {
                                assert(s0[i as int].price < s0[b - 1].price);
                            }
                        } else if b == i {
                            assert(s0[a].price < lv.price);
                        } else {
                            assert(s0[a].price < s0[b].price);
                        }
                    }
                    assert forall|a: int| 0 <= a < s1.len() implies s1[a].qty > 0 by {
                        if a > i {
                            assert(s1[a] == s0[a - 1]);
                        } else if a < i {
                            assert(s1[a] == s0[a]);
                        }
                    }
                }
                assert(side_map(s1) =~= side_map(s0).insert(lv.price, lv.qty)) by {
                    assert forall|q: Price| #[trigger] has_price(s1, q) == (has_price(s0, q) || q
                        == lv.price) by {
                        if has_price(s1, q) {
                            let a = choose|a: int| 0 <= a < s1.len() && s1[a].price == q;
                            if a < i {
                                assert(s1[a] == s0[a]);
                            } else if a > i {
                                assert(s1[a] == s0[a - 1]);
                            }
                        }
                        if has_price(s0, q) {
                            let a = choose|a: int| 0 <= a < s0.len() && s0[a].price == q;
                            if a < i {
                                assert(s1[a] == s0[a]);
                            } else {
                                assert(s1[a + 1] == s0[a]);
                            }
                        }
                        if q == lv.price {
                            assert(s1[i as int].price == q);
                        }
                    }
                    assert forall|q: Price| #[trigger] has_price(s1, q) implies side_map(s1)[q]
                        == side_map(s0).insert(lv.price, lv.qty)[q] by {
                        let a = price_pos(s1, q);
                        lemma_price_pos(s1, a);
                        if q != lv.price {
                            assert(a != i);
                            if a < i {
                                assert(s1[a] == s0[a]);
                                lemma_price_pos(s0, a);
                            } else {
                                assert(s1[a] == s0[a - 1]);
                                lemma_price_pos(s0, a - 1);
                            }
                        } else {
                            lemma_price_pos(s1, i as int);
                        }
                    }
                }
            }
        } else {
            proof {
                assert(side_map(s0) =~= side_map(s0).remove(lv.price)) by {
                    if has_price(s0, lv.price) {
                        let a = choose|a: int| 0 <= a < s0.len() && s0[a].price == lv.price;
                        if a < i {
                        } else if a > i {
                            assert(s0[i as int].price < s0[a].price);
                        }
                    }
                }
            }
        }
    }
}


/// A well-formed side is empty exactly when its map is empty.
proof fn lemma_side_empty(s: Seq<PriceLevel>)
    requires
        side_wf(s),
    ensures
        (s.len() == 0) == (side_map(s) == Map::<Price, Quantity>::empty()),
{
    if s.len() == 0 {
        assert(side_map(s) =~= Map::<Price, Quantity>::empty());
    } else {
        lemma_price_pos(s, 0);
        assert(side_map(s).contains_key(s[0].price));
    }
}

/// What a local book stands for: its identity, the price-to-quantity map of
/// each side, and the sequence position and receive time of its last change.
pub struct BookModel {
    pub venue: Seq<char>,
    pub symbol: Seq<char>,
    pub venue_symbol: Seq<char>,
    pub bids: Map<Price, Quantity>,
    pub asks: Map<Price, Quantity>,
    pub last_update_id: u64,
    pub last_receive_ts_us: i64,
}

/// The book that a depth snapshot loads: its names, both sides loaded
/// (see [`load_levels`]), its last update id and its receive time.
pub open spec fn snapshot_model(s: DepthSnapshot) -> BookModel {
    BookModel {
        venue: s.venue@,
        symbol: s.symbol@,
        venue_symbol: s.venue_symbol@,
        bids: load_levels(s.bids@),
        asks: load_levels(s.asks@),
        last_update_id: s.last_update_id,
        last_receive_ts_us: s.receive_ts_us,
    }
}

/// Every level of the map has a positive quantity.
pub open spec fn levels_positive(m: Map<Price, Quantity>) -> bool {
    forall|p: Price| #[trigger] m.contains_key(p) ==> m[p] > 0
}

/// `p` is the highest price of `m`.
pub open spec fn is_best_bid(m: Map<Price, Quantity>, p: Price) -> bool {
    m.contains_key(p) && forall|q: Price| #[trigger] m.contains_key(q) ==> q <= p
}

/// `p` is the lowest price of `m`.
pub open spec fn is_best_ask(m: Map<Price, Quantity>, p: Price) -> bool {
    m.contains_key(p) && forall|q: Price| #[trigger] m.contains_key(q) ==> p <= q
}

proof fn lemma_side_positive(s: Seq<PriceLevel>)
    requires
        side_wf(s),
    ensures
        levels_positive(side_map(s)),
{
    assert forall|p: Price| #[trigger] side_map(s).contains_key(p) implies side_map(s)[p] > 0 by {
        let i = price_pos(s, p);
        assert(s[i].qty > 0);
    }
}

/// The result of offering a diff update to a book, and the book after it.
///
/// An update that ends at or before the book's last update id is ignored;
/// one that starts after the next expected id is a gap; both leave the book
/// as it was. Otherwise each level is applied in order (a non-positive
/// quantity removes the price) and the book takes the update's final id and
/// receive time.
pub open spec fn depth_update_outcome(m: BookModel, update: NormalizedDepthUpdate) -> (
    BookApplyResult,
    BookModel,
) {
    depth_outcome(
        m,
        update.first_update_id,
        update.final_update_id,
        update.bids@,
        update.asks@,
        update.receive_ts_us,
    )
}

/// [`depth_update_outcome`] for an update given by its ids, levels and
/// receive time.
pub open spec fn depth_outcome(
    m: BookModel,
    first_update_id: u64,
    final_update_id: u64,
    bids: Seq<PriceLevel>,
    asks: Seq<PriceLevel>,
    receive_ts_us: i64,
) -> (BookApplyResult, BookModel) {
    if final_update_id <= m.last_update_id {
        (BookApplyResult::IgnoredOldUpdate, m)
    } else if first_update_id > m.last_update_id + 1 {
        (
            BookApplyResult::SequenceGap {
                expected_next: (m.last_update_id + 1) as u64,
                received_first: first_update_id,
                received_final: final_update_id,
            },
            m,
        )
    } else {
        (
            BookApplyResult::Applied,
            BookModel {
                bids: apply_levels(m.bids, bids),
                asks: apply_levels(m.asks, asks),
                last_update_id: final_update_id,
                last_receive_ts_us: receive_ts_us,
                ..m
            },
        )
    }
}

/// Both sides of the book hold a level.
pub open spec fn has_top(m: BookModel) -> bool {
    m.bids != Map::<Price, Quantity>::empty() && m.asks != Map::<Price, Quantity>::empty()
}

/// `t` is the top of book `m`: its names, its best (highest) bid and best
/// (lowest) ask with their quantities, its last update id as the sequence
/// and its last receive time.
pub open spec fn is_top_of(t: TopOfBook, m: BookModel) -> bool {
    &&& t.venue@ == m.venue
    &&& t.symbol@ == m.symbol
    &&& t.venue_symbol@ == m.venue_symbol
    &&& is_best_bid(m.bids, t.bid_price)
    &&& t.bid_qty == m.bids[t.bid_price]
    &&& is_best_ask(m.asks, t.ask_price)
    &&& t.ask_qty == m.asks[t.ask_price]
    &&& t.bid_qty > 0 && t.ask_qty > 0
    &&& t.sequence == m.last_update_id
    &&& t.receive_ts_us == m.last_receive_ts_us
}

/// `t` is the top-of-book record built from a ticker update: the same
/// names, prices, quantities, sequence and receive time.
pub open spec fn is_book_of_update(t: TopOfBook, u: NormalizedTopOfBookUpdate) -> bool {
    &&& t.venue == u.venue
    &&& t.symbol == u.symbol
    &&& t.venue_symbol == u.venue_symbol
    &&& t.bid_price == u.bid_price
    &&& t.bid_qty == u.bid_qty
    &&& t.ask_price == u.ask_price
    &&& t.ask_qty == u.ask_qty
    &&& t.sequence == u.sequence
    &&& t.receive_ts_us == u.receive_ts_us
}

/// A local depth book: both sides sorted by price, every level positive.
#[derive(Debug)]
pub struct LocalOrderBook {
    venue: String,
    symbol: String,
    venue_symbol: String,
    bids: Vec<PriceLevel>,
    asks: Vec<PriceLevel>,
    last_update_id: u64,
    last_receive_ts_us: i64,
    last_update_latency_us: i64,
}

/// How a diff update was taken.
#[derive(Debug)]
pub enum BookApplyResult {
    Applied,
    IgnoredOldUpdate,
    SequenceGap { expected_next: u64, received_first: u64, received_final: u64 },
}

impl View for LocalOrderBook {
    type V = BookModel;

    closed spec fn view(&self) -> BookModel {
        BookModel {
            venue: self.venue@,
            symbol: self.symbol@,
            venue_symbol: self.venue_symbol@,
            bids: side_map(self.bids@),
            asks: side_map(self.asks@),
            last_update_id: self.last_update_id,
            last_receive_ts_us: self.last_receive_ts_us,
        }
    }
}

impl LocalOrderBook {
    /// The time the last applied update took to apply, in microseconds (0
    /// for a book fresh from a snapshot).
    pub closed spec fn apply_latency_us(&self) -> i64 {
        self.last_update_latency_us
    }

    #[verifier::type_invariant]
    spec fn sides_sorted(self) -> bool {
        side_wf(self.bids@) && side_wf(self.asks@)
    }

    /// Builds a book from a depth snapshot: levels with a positive quantity
    /// are loaded in order (a later level at a price replaces an earlier one);
    /// no update has been applied yet, so the apply latency is 0.
    pub fn from_snapshot(snapshot: DepthSnapshot) -> (book: Self)
        ensures
            book@ == snapshot_model(snapshot),
            levels_positive(book@.bids),
            levels_positive(book@.asks),
            book.apply_latency_us() == 0,
    {
        let bids = load_side(&snapshot.bids);
        let asks = load_side(&snapshot.asks);
        proof {
            lemma_side_positive(bids@);
            lemma_side_positive(asks@);
        }
        LocalOrderBook {
            venue: snapshot.venue,
            symbol: snapshot.symbol,
            venue_symbol: snapshot.venue_symbol,
            bids,
            asks,
            last_update_id: snapshot.last_update_id,
            last_receive_ts_us: snapshot.receive_ts_us,
            last_update_latency_us: 0,
        }
    }

    /// Applies a diff update when it continues the book's sequence (see
    /// [`depth_update_outcome`]); an update that is not applied leaves the
    /// recorded apply latency as it was too.
    pub fn apply_depth_update(&mut self, update: NormalizedDepthUpdate) -> (r: BookApplyResult)
        ensures
            (r, final(self)@) == depth_update_outcome(old(self)@, update),
            levels_positive(final(self)@.bids),
            levels_positive(final(self)@.asks),
            !(r is Applied) ==> final(self).apply_latency_us() == old(self).apply_latency_us(),
    {
        proof {
            use_type_invariant(&*self);
            lemma_side_positive(self.bids@);
            lemma_side_positive(self.asks@);
        }
        if update.final_update_id <= self.last_update_id {
            return BookApplyResult::IgnoredOldUpdate;
        }
        let expected_next = self.last_update_id + 1;
        if update.first_update_id > expected_next {
            return BookApplyResult::SequenceGap {
                expected_next,
                received_first: update.first_update_id,
                received_final: update.final_update_id,
            };
        }
        let apply_start_us = now_us();
        let mut bids: Vec<PriceLevel> = Vec::new();
        std::mem::swap(&mut bids, &mut self.bids);
        apply_side(&mut bids, &update.bids);
        self.bids = bids;
        let mut asks: Vec<PriceLevel> = Vec::new();
        std::mem::swap(&mut asks, &mut self.asks);
        apply_side(&mut asks, &update.asks);
        self.asks = asks;
        self.last_update_id = update.final_update_id;
        self.last_receive_ts_us = update.receive_ts_us;
        let done_us = now_us();
        self.last_update_latency_us = done_us.wrapping_sub(apply_start_us);
        proof {
            lemma_side_positive(self.bids@);
            lemma_side_positive(self.asks@);
        }
        BookApplyResult::Applied
    }

    /// The best bid (highest bid price) and best ask (lowest ask price),
    /// or `None` while either side is empty.
    pub fn top_of_book(&self) -> (r: Option<TopOfBook>)
        ensures
            r is None <==> !has_top(self@),
            r matches Some(t) ==> is_top_of(t, self@),
            r matches Some(t) ==> t.last_update_latency_us == self.apply_latency_us(),
    {
        proof {
            use_type_invariant(self);
            lemma_side_empty(self.bids@);
            lemma_side_empty(self.asks@);
        }
        if self.bids.len() == 0 || self.asks.len() == 0 {
            return None;
        }
        let best_bid = self.bids[self.bids.len() - 1];
        let best_ask = self.asks[0];
        proof {
            let b = self.bids@;
            let a = self.asks@;
            lemma_price_pos(b, b.len() - 1);
            lemma_price_pos(a, 0);
            assert forall|q: Price| #[trigger] side_map(b).contains_key(q) implies q
                <= best_bid.price by {
                let k = price_pos(b, q);
                if k < b.len() - 1 {
                    assert(b[k].price < b[b.len() - 1].price);
                }
            }
            assert forall|q: Price| #[trigger] side_map(a).contains_key(q) implies best_ask.price
                <= q by {
                let k = price_pos(a, q);
                if k > 0 {
                    assert(a[0].price < a[k].price);
                }
            }
        }
        Some(
            TopOfBook {
                venue: self.venue.clone(),
                symbol: self.symbol.clone(),
                venue_symbol: self.venue_symbol.clone(),
                bid_price: best_bid.price,
                bid_qty: best_bid.qty,
                ask_price: best_ask.price,
                ask_qty: best_ask.qty,
                sequence: self.last_update_id,
                receive_ts_us: self.last_receive_ts_us,
                last_update_latency_us: self.last_update_latency_us,
            },
        )
    }

    /// The id of the last update the book holds.
    pub fn last_update_id(&self) -> (r: u64)
        ensures
            r == self@.last_update_id,
    {
        self.last_update_id
    }

    /// The number of bid levels.
    pub fn bid_depth_len(&self) -> (r: usize)
        ensures
            r == self@.bids.dom().len(),
    {
        proof {
            use_type_invariant(self);
            lemma_side_len(self.bids@);
        }
        self.bids.len()
    }

    /// The number of ask levels.
    pub fn ask_depth_len(&self) -> (r: usize)
        ensures
            r == self@.asks.dom().len(),
    {
        proof {
            use_type_invariant(self);
            lemma_side_len(self.asks@);
        }
        self.asks.len()
    }
}

/// The number of prices of a well-formed side is its length.
proof fn lemma_side_len(s: Seq<PriceLevel>)
    requires
        side_wf(s),
    ensures
        side_map(s).dom().finite(),
        side_map(s).dom().len() == s.len(),
    decreases s.len(),
{
    if s.len() == 0 {
        assert(side_map(s).dom() =~= Set::<Price>::empty());
    } else {
        let t = s.drop_last();
        assert(side_wf(t));
        lemma_side_len(t);
        let p = s.last().price;
        assert(side_map(s).dom() =~= side_map(t).dom().insert(p)) by {
            assert forall|q: Price| #[trigger] has_price(s, q) == (has_price(t, q) || q == p) by {
                if has_price(s, q) {
                    let k = choose|k: int| 0 <= k < s.len() && s[k].price == q;
                    if k < s.len() - 1 {
                        assert(t[k] == s[k]);
                    }
                }
                if has_price(t, q) {
                    let k = choose|k: int| 0 <= k < t.len() && t[k].price == q;
                    assert(t[k] == s[k]);
                }
                if q == p {
                    assert(s[s.len() - 1].price == q);
                }
            }
        }
        if has_price(t, p) {
            let k = choose|k: int| 0 <= k < t.len() && t[k].price == p;
            assert(s[k].price < s[s.len() - 1].price);
        }
    }
}

/// Loads snapshot levels into an empty side.
fn load_side(levels: &Vec<PriceLevel>) -> (side: Vec<PriceLevel>)
    ensures
        side_wf(side@),
        side_map(side@) == load_levels(levels@),
{
    let mut side: Vec<PriceLevel> = Vec::new();
    let mut k: usize = 0;
    proof {
        assert(side_map(side@) =~= Map::<Price, Quantity>::empty());
        assert(levels@.take(0) =~= Seq::<PriceLevel>::empty());
    }
    while k < levels.len()
        invariant
            k <= levels.len(),
            side_wf(side@),
            side_map(side@) == load_levels(levels@.take(k as int)),
        decreases levels.len() - k,
    {
        let lv = levels[k];
        proof {
            assert(levels@.take(k + 1).drop_last() =~= levels@.take(k as int));
        }
        if lv.qty > 0 {
            side_set_level(&mut side, lv);
        }
        k = k + 1;
    }
    proof {
        assert(levels@.take(levels.len() as int) =~= levels@);
    }
    side
}

/// Applies diff levels to a side, in order.
fn apply_side(side: &mut Vec<PriceLevel>, levels: &Vec<PriceLevel>)
    requires
        side_wf(old(side)@),
    ensures
        side_wf(final(side)@),
        side_map(final(side)@) == apply_levels(side_map(old(side)@), levels@),
{
    let ghost m0 = side_map(side@);
    let mut k: usize = 0;
    proof {
        assert(levels@.take(0) =~= Seq::<PriceLevel>::empty());
    }
    while k < levels.len()
        invariant
            k <= levels.len(),
            side_wf(side@),
            side_map(side@) == apply_levels(m0, levels@.take(k as int)),
        decreases levels.len() - k,
    {
        let lv = levels[k];
        proof {
            assert(levels@.take(k + 1).drop_last() =~= levels@.take(k as int));
        }
        side_set_level(side, lv);
        k = k + 1;
    }
    proof {
        assert(levels@.take(levels.len() as int) =~= levels@);
    }
}

/// Turns a top-of-book update into a top-of-book record; the recorded
/// latency is the time from the update's receipt to now.
pub fn top_update_to_book(update: NormalizedTopOfBookUpdate) -> (book: TopOfBook)
    ensures
        is_book_of_update(book, update),
{
    let done_us = now_us();
    TopOfBook {
        venue: update.venue,
        symbol: update.symbol,
        venue_symbol: update.venue_symbol,
        bid_price: update.bid_price,
        bid_qty: update.bid_qty,
        ask_price: update.ask_price,
        ask_qty: update.ask_qty,
        sequence: update.sequence,
        receive_ts_us: update.receive_ts_us,
        last_update_latency_us: done_us.wrapping_sub(update.receive_ts_us),
    }
}


/// Applying diff levels keeps every quantity of a side positive.
proof fn lemma_apply_levels_positive(m: Map<Price, Quantity>, levels: Seq<PriceLevel>)
    requires
        levels_positive(m),
    ensures
        levels_positive(apply_levels(m, levels)),
    decreases levels.len(),
{
    if levels.len() > 0 {
        lemma_apply_levels_positive(m, levels.drop_last());
    }
}

/// No later level of `levels` than the one at `i` names its price.
pub open spec fn last_for_price(levels: Seq<PriceLevel>, i: int) -> bool {
    &&& 0 <= i < levels.len()
    &&& forall|j: int| i < j < levels.len() ==> levels[j].price != levels[i].price
}

/// No level of `levels` names price `p`.
pub open spec fn price_not_named(levels: Seq<PriceLevel>, p: Price) -> bool {
    forall|j: int| 0 <= j < levels.len() ==> levels[j].price != p
}

/// The last level for a price decides the side at that price: it is removed
/// for a non-positive quantity and holds exactly that quantity otherwise,
/// whatever the side held there before.
proof fn lemma_apply_levels_last(m: Map<Price, Quantity>, levels: Seq<PriceLevel>, i: int)
    requires
        last_for_price(levels, i),
    ensures
        apply_levels(m, levels).contains_key(levels[i].price) <==> levels[i].qty > 0,
        levels[i].qty > 0 ==> apply_levels(m, levels)[levels[i].price] == levels[i].qty,
    decreases levels.len(),
{
    if i < levels.len() - 1 {
        let t = levels.drop_last();
        assert forall|j: int| i < j < t.len() implies t[j].price != t[i].price by {
            assert(t[j] == levels[j]);
        }
        lemma_apply_levels_last(m, t, i);
        assert(levels.last().price != levels[i].price);
    }
}

/// A price that no level names keeps what the side held there.
proof fn lemma_apply_levels_untouched(m: Map<Price, Quantity>, levels: Seq<PriceLevel>, p: Price)
    requires
        price_not_named(levels, p),
    ensures
        apply_levels(m, levels).contains_key(p) == m.contains_key(p),
        m.contains_key(p) ==> apply_levels(m, levels)[p] == m[p],
    decreases levels.len(),
{
    if levels.len() > 0 {
        let t = levels.drop_last();
        assert forall|j: int| 0 <= j < t.len() implies t[j].price != p by {
            assert(t[j] == levels[j]);
        }
        lemma_apply_levels_untouched(m, t, p);
        assert(levels.last().price != p);
    }
}

/// Law: after an applied update, each side holds at every price that the
/// update names the quantity of the update's last level for that price
/// (the price is removed when that quantity is not positive), whatever the
/// side held there before; a price that the update does not name keeps its
/// level.
pub proof fn law_applied_update_sets_levels(m: BookModel, update: NormalizedDepthUpdate, i: int, p: Price)
    requires
        depth_update_outcome(m, update).0 is Applied,
    ensures
        last_for_price(update.bids@, i) ==> {
            let lv = update.bids@[i];
            &&& (depth_update_outcome(m, update).1.bids.contains_key(lv.price) <==> lv.qty > 0)
            &&& (lv.qty > 0 ==> depth_update_outcome(m, update).1.bids[lv.price] == lv.qty)
        },
        last_for_price(update.asks@, i) ==> {
            let lv = update.asks@[i];
            &&& (depth_update_outcome(m, update).1.asks.contains_key(lv.price) <==> lv.qty > 0)
            &&& (lv.qty > 0 ==> depth_update_outcome(m, update).1.asks[lv.price] == lv.qty)
        },
        price_not_named(update.bids@, p) ==> {
            &&& depth_update_outcome(m, update).1.bids.contains_key(p) == m.bids.contains_key(p)
            &&& (m.bids.contains_key(p) ==> depth_update_outcome(m, update).1.bids[p] == m.bids[p])
        },
        price_not_named(update.asks@, p) ==> {
            &&& depth_update_outcome(m, update).1.asks.contains_key(p) == m.asks.contains_key(p)
            &&& (m.asks.contains_key(p) ==> depth_update_outcome(m, update).1.asks[p] == m.asks[p])
        },
{
    if last_for_price(update.bids@, i) {
        lemma_apply_levels_last(m.bids, update.bids@, i);
    }
    if last_for_price(update.asks@, i) {
        lemma_apply_levels_last(m.asks, update.asks@, i);
    }
    if price_not_named(update.bids@, p) {
        lemma_apply_levels_untouched(m.bids, update.bids@, p);
    }
    if price_not_named(update.asks@, p) {
        lemma_apply_levels_untouched(m.asks, update.asks@, p);
    }
}

/// Law: an update that was applied, offered again, is ignored and leaves
/// the book as the first application left it.
pub proof fn law_replayed_update_is_ignored(m: BookModel, update: NormalizedDepthUpdate)
    requires
        depth_update_outcome(m, update).0 is Applied,
    ensures
        depth_update_outcome(depth_update_outcome(m, update).1, update) == (
            BookApplyResult::IgnoredOldUpdate,
            depth_update_outcome(m, update).1,
        ),
{
}

/// Law: the book's last update id never moves back, and after an applied
/// update it is the update's final id, past the previous one.
pub proof fn law_sequence_moves_forward(m: BookModel, update: NormalizedDepthUpdate)
    ensures
        depth_update_outcome(m, update).1.last_update_id >= m.last_update_id,
        depth_update_outcome(m, update).0 is Applied ==> depth_update_outcome(m, update).1.last_update_id
            == update.final_update_id > m.last_update_id,
{
}

/// Law: an ignored update or a sequence gap leaves the book unchanged, and a
/// gap is reported exactly when the update is newer than the book but starts
/// past the next expected id.
pub proof fn law_rejected_update_leaves_book(m: BookModel, update: NormalizedDepthUpdate)
    ensures
        !(depth_update_outcome(m, update).0 is Applied) ==> depth_update_outcome(m, update).1
            == m,
        depth_update_outcome(m, update).0 is SequenceGap <==> (update.final_update_id
            > m.last_update_id && update.first_update_id > m.last_update_id + 1),
{
}

/// Law: whatever update is offered, a book whose levels are all positive
/// keeps every level positive.
pub proof fn law_levels_stay_positive(m: BookModel, update: NormalizedDepthUpdate)
    requires
        levels_positive(m.bids),
        levels_positive(m.asks),
    ensures
        levels_positive(depth_update_outcome(m, update).1.bids),
        levels_positive(depth_update_outcome(m, update).1.asks),
{
    lemma_apply_levels_positive(m.bids, update.bids@);
    lemma_apply_levels_positive(m.asks, update.asks@);
}

} // verus!
