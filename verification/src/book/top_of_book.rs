//! The normalized top of book of every venue and symbol, keyed by
//! `VENUE:SYMBOL` in upper case, and its copy shared between tasks.
use crate::metrics::latency::{clock_micros, now_us};
use crate::text::{
    chars_of, eq_ignore_ascii, eq_ignore_ascii_case, is_index_permutation, key_at, pair_lt,
    sort_indices_by_keys, sorted_by_keys, to_upper, uppercase,
};
use crate::types::{copy_book, TopOfBook};
use parking_lot::lock_api::RwLock;
use parking_lot::RawRwLock;
use std::sync::Arc;
use vstd::prelude::*;

verus! {

/// The store key of a venue and symbol: both in upper case, joined by `:`.
pub open spec fn book_key(venue: Seq<char>, symbol: Seq<char>) -> Seq<char> {
    uppercase(venue) + ":"@ + uppercase(symbol)
}

/// The store key of a book.
pub open spec fn key_of(b: TopOfBook) -> Seq<char> {
    book_key(b.venue@, b.symbol@)
}

/// Builds the store key of a venue and symbol.
fn make_key(venue: &str, symbol: &str) -> (r: String)
    ensures
        r@ == book_key(venue@, symbol@),
{
    let mut k = to_upper(venue);
    k.append(":");
    let s = to_upper(symbol);
    k.append(s.as_str());
    k
}

/// Entries keyed by their book's key, each key once.
pub open spec fn entries_wf(e: Seq<(String, TopOfBook)>) -> bool {
    &&& forall|i: int| 0 <= i < e.len() ==> #[trigger] e[i].0@ == key_of(e[i].1)
    &&& forall|i: int, j: int| 0 <= i < j < e.len() ==> e[i].0@ != e[j].0@
}

/// Some entry has key `k`.
pub open spec fn has_key(e: Seq<(String, TopOfBook)>, k: Seq<char>) -> bool {
    exists|i: int| 0 <= i < e.len() && e[i].0@ == k
}

/// The position of the entry with key `k`.
pub open spec fn key_pos(e: Seq<(String, TopOfBook)>, k: Seq<char>) -> int {
    choose|i: int| 0 <= i < e.len() && e[i].0@ == k
}

/// The entries as a map from key to book.
pub open spec fn entries_map(e: Seq<(String, TopOfBook)>) -> Map<Seq<char>, TopOfBook> {
    Map::new(|k: Seq<char>| has_key(e, k), |k: Seq<char>| e[key_pos(e, k)].1)
}

proof fn lemma_key_pos(e: Seq<(String, TopOfBook)>, i: int)
    requires
        entries_wf(e),
        0 <= i < e.len(),
    ensures
        has_key(e, e[i].0@),
        key_pos(e, e[i].0@) == i,
{
    assert(has_key(e, e[i].0@));
    let k = key_pos(e, e[i].0@);
    if k != i {
        if k < i {
            assert(e[k].0@ != e[i].0@);
        } else {
            assert(e[i].0@ != e[k].0@);
        }
    }
}

/// The map of well-formed entries is finite and has one key per entry.
proof fn lemma_entries_map_len(e: Seq<(String, TopOfBook)>)
    requires
        entries_wf(e),
    ensures
        entries_map(e).dom().finite(),
        entries_map(e).len() == e.len(),
{
    let ks = e.map_values(|p: (String, TopOfBook)| p.0@);
    assert(ks.no_duplicates()) by {
        assert forall|i: int, j: int| 0 <= i < ks.len() && 0 <= j < ks.len() && i != j implies ks[i]
            != ks[j] by {
            if i < j {
                assert(e[i].0@ != e[j].0@);
            } else {
                assert(e[j].0@ != e[i].0@);
            }
        }
    }
    ks.unique_seq_to_set();
    assert(entries_map(e).dom() =~= ks.to_set()) by {
        assert forall|k: Seq<char>| entries_map(e).dom().contains(k) implies ks.to_set().contains(k) by {
            let i = choose|i: int| 0 <= i < e.len() && e[i].0@ == k;
            assert(ks[i] == k);
        }
        assert forall|k: Seq<char>| ks.to_set().contains(k) implies entries_map(e).dom().contains(k) by {
            let i = choose|i: int| 0 <= i < ks.len() && ks[i] == k;
            assert(e[i].0@ == k);
        }
    }
    ks.lemma_cardinality_of_set();
}

/// The top-of-book store: one book per `VENUE:SYMBOL` key.
pub struct TopOfBookStore {
    entries: Vec<(String, TopOfBook)>,
}

impl View for TopOfBookStore {
    type V = Map<Seq<char>, TopOfBook>;

    closed spec fn view(&self) -> Map<Seq<char>, TopOfBook> {
        entries_map(self.entries@)
    }
}

/// The books of `r` are those of `m` (each once).
pub open spec fn lists_books_of(r: Seq<TopOfBook>, m: Map<Seq<char>, TopOfBook>) -> bool {
    &&& forall|i: int| 0 <= i < r.len() ==> #[trigger] m.contains_key(key_of(r[i])) && m[key_of(r[i])] == r[i]
    &&& forall|k: Seq<char>| #[trigger] m.contains_key(k) ==> r.contains(m[k])
    &&& forall|i: int, j: int| 0 <= i < j < r.len() ==> key_of(r[i]) != key_of(r[j])
}

/// The books of `r` are those of `m` whose symbol equals `symbol` ignoring
/// ASCII case (each once).
pub open spec fn lists_symbol_books_of(
    r: Seq<TopOfBook>,
    m: Map<Seq<char>, TopOfBook>,
    symbol: Seq<char>,
) -> bool {
    &&& forall|i: int|
        0 <= i < r.len() ==> #[trigger] m.contains_key(key_of(r[i])) && m[key_of(r[i])] == r[i]
            && eq_ignore_ascii(r[i].symbol@, symbol)
    &&& forall|k: Seq<char>|
        #[trigger] m.contains_key(k) && eq_ignore_ascii(m[k].symbol@, symbol) ==> r.contains(m[k])
    &&& forall|i: int, j: int| 0 <= i < j < r.len() ==> key_of(r[i]) != key_of(r[j])
}

/// Books ordered by venue, then symbol.
pub open spec fn sorted_by_venue_symbol(r: Seq<TopOfBook>) -> bool {
    forall|i: int, j: int|
        0 <= i < j < r.len() ==> !pair_lt((r[j].venue@, r[j].symbol@), (r[i].venue@, r[i].symbol@))
}

/// Books ordered by venue.
pub open spec fn sorted_by_venue(r: Seq<TopOfBook>) -> bool {
    forall|i: int, j: int|
        0 <= i < j < r.len() ==> !pair_lt((r[j].venue@, Seq::empty()), (r[i].venue@, Seq::empty()))
}

/// A book's age in microseconds at time `now_us`, saturated to `i64`.
pub open spec fn age_at(now_us: i64, receive_ts_us: i64) -> i64 {
    let d = now_us - receive_ts_us;
    if d > i64::MAX {
        i64::MAX
    } else if d < i64::MIN {
        i64::MIN
    } else {
        d as i64
    }
}

/// Microseconds to whole milliseconds, truncating toward zero.
pub open spec fn us_to_ms(us: i64) -> i64 {
    if us >= 0 {
        (us / 1000) as i64
    } else {
        -((-us) / 1000) as i64
    }
}

/// A book whose age in milliseconds is at most the threshold (compared
/// after converting the threshold to `i64`).
pub open spec fn fresh_at(now_us: i64, receive_ts_us: i64, stale_after_ms: u64) -> bool {
    us_to_ms(age_at(now_us, receive_ts_us)) <= stale_after_ms as i64
}

/// The age in microseconds at `now_us` of the book that map `m` holds for a
/// venue and symbol.
pub open spec fn age_us_in(m: Map<Seq<char>, TopOfBook>, venue: Seq<char>, symbol: Seq<char>, now_us: i64) -> Option<i64> {
    if m.contains_key(book_key(venue, symbol)) {
        Some(age_at(now_us, m[book_key(venue, symbol)].receive_ts_us))
    } else {
        None
    }
}

/// The age in whole milliseconds at `now_us` of the book that map `m` holds
/// for a venue and symbol.
pub open spec fn age_ms_in(m: Map<Seq<char>, TopOfBook>, venue: Seq<char>, symbol: Seq<char>, now_us: i64) -> Option<i64> {
    if m.contains_key(book_key(venue, symbol)) {
        Some(us_to_ms(age_at(now_us, m[book_key(venue, symbol)].receive_ts_us)))
    } else {
        None
    }
}

/// Map `m` holds a book for a venue and symbol that is fresh at `now_us`.
pub open spec fn fresh_in(
    m: Map<Seq<char>, TopOfBook>,
    venue: Seq<char>,
    symbol: Seq<char>,
    stale_after_ms: u64,
    now_us: i64,
) -> bool {
    m.contains_key(book_key(venue, symbol)) && fresh_at(
        now_us,
        m[book_key(venue, symbol)].receive_ts_us,
        stale_after_ms,
    )
}

/// Law: freshness is judged on the age in whole milliseconds. A book
/// received `d` microseconds ago is fresh exactly when `d` is below
/// `(stale_after_ms + 1) * 1000`, and a book received after `now_us` is
/// fresh (thresholds whose microsecond count does not fit in `i64` are left
/// out).
pub proof fn law_freshness_in_whole_ms(now_us: i64, receive_ts_us: i64, stale_after_ms: u64)
    requires
        (stale_after_ms + 1) * 1000 <= i64::MAX,
    ensures
        0 <= now_us - receive_ts_us < (stale_after_ms + 1) * 1000 ==> fresh_at(
            now_us,
            receive_ts_us,
            stale_after_ms,
        ),
        now_us - receive_ts_us >= (stale_after_ms + 1) * 1000 ==> !fresh_at(
            now_us,
            receive_ts_us,
            stale_after_ms,
        ),
        now_us < receive_ts_us ==> fresh_at(now_us, receive_ts_us, stale_after_ms),
{
}

fn age_between(now_us: i64, receive_ts_us: i64) -> (r: i64)
    ensures
        r == age_at(now_us, receive_ts_us),
{
    let d: i128 = now_us as i128 - receive_ts_us as i128;
    if d > i64::MAX as i128 {
        i64::MAX
    } else if d < i64::MIN as i128 {
        i64::MIN
    } else {
        d as i64
    }
}

impl Clone for TopOfBookStore {
    /// A copy holding the same books under the same keys.
    fn clone(&self) -> (r: Self)
        ensures
            r@ == self@,
    {
        proof {
            use_type_invariant(self);
        }
        let mut entries: Vec<(String, TopOfBook)> = Vec::new();
        let mut i: usize = 0;
        while i < self.entries.len()
            invariant
                i <= self.entries.len(),
                entries@ == self.entries@.take(i as int),
            decreases self.entries.len() - i,
        {
            entries.push((self.entries[i].0.clone(), copy_book(&self.entries[i].1)));
            i = i + 1;
            proof {
                assert(entries@ =~= self.entries@.take(i as int));
            }
        }
        proof {
            assert(entries@ =~= self.entries@);
        }
        TopOfBookStore { entries }
    }
}

impl TopOfBookStore {
    #[verifier::type_invariant]
    spec fn keyed(self) -> bool {
        entries_wf(self.entries@)
    }

    /// An empty store.
    pub fn new() -> (r: Self)
        ensures
            r@ == Map::<Seq<char>, TopOfBook>::empty(),
    {
        let r = TopOfBookStore { entries: Vec::new() };
        assert(r@ =~= Map::<Seq<char>, TopOfBook>::empty());
        r
    }

    /// Stores a book under its key, replacing the book stored there.
    pub fn update(&mut self, tob: TopOfBook)
        ensures
            final(self)@ == old(self)@.insert(key_of(tob), tob),
    {
        proof {
            use_type_invariant(&*self);
        }
        let key = make_key(tob.venue.as_str(), tob.symbol.as_str());
        let mut entries: Vec<(String, TopOfBook)> = Vec::new();
        std::mem::swap(&mut entries, &mut self.entries);
        let ghost e0 = entries@;
        let ghost k = key@;
        let mut i: usize = 0;
        while i < entries.len() && entries[i].0 != key
            invariant
                i <= entries.len(),
                entries@ == e0,
                key@ == k,
                forall|j: int| 0 <= j < i ==> entries@[j].0@ != k,
            decreases entries.len() - i,
        {
            i = i + 1;
        }
        if i < entries.len() {
            assert(e0[i as int].0@ == k);
            entries.set(i, (key, tob));
            proof {
                let e1 = entries@;
                lemma_key_pos(e0, i as int);
                assert forall|a: int| 0 <= a < e1.len() && a != i implies e1[a] == e0[a] by {}
                assert(e1[i as int].0@ == k);
                assert(entries_wf(e1)) by {
                    assert forall|a: int, b: int| 0 <= a < b < e1.len() implies e1[a].0@
                        != e1[b].0@ by {
                        assert(e0[a].0@ != e0[b].0@);
                        if a == i {
                            assert(e1[b] == e0[b]);
                        } else if b == i {
                            assert(e1[a] == e0[a]);
                        } else {
                            assert(e1[a] == e0[a] && e1[b] == e0[b]);
                        }
                    }
                    assert forall|a: int| 0 <= a < e1.len() implies #[trigger] e1[a].0@ == key_of(e1[a].1) by {
                        if a != i {
                            assert(e1[a] == e0[a]);
                        }
                    }
                }
                assert(entries_map(e1) =~= entries_map(e0).insert(k, tob)) by {
                    assert forall|q: Seq<char>| #[trigger] has_key(e1, q) == (has_key(e0, q) || q == k) by {
                        if has_key(e1, q) {
                            let a = choose|a: int| 0 <= a < e1.len() && e1[a].0@ == q;
                            if a != i {
                                assert(e0[a].0@ == e1[a].0@);
                            }
                        }
                        if has_key(e0, q) {
                            let a = choose|a: int| 0 <= a < e0.len() && e0[a].0@ == q;
                            if a != i {
                                assert(e0[a].0@ == e1[a].0@);
                            }
                        }
                        if q == k {
                            assert(e1[i as int].0@ == q);
                        }
                    }
                    assert forall|q: Seq<char>| #[trigger] has_key(e1, q) implies entries_map(e1)[q]
                        == entries_map(e0).insert(k, tob)[q] by {
                        let a = key_pos(e1, q);
                        lemma_key_pos(e1, a);
                        if q != k {
                            assert(a != i);
                            assert(e1[a] == e0[a]);
                            lemma_key_pos(e0, a);
                        } else {
                            lemma_key_pos(e1, i as int);
                        }
                    }
                }
            }
        } else {
            entries.push((key, tob));
            proof {
                let e1 = entries@;
                assert(entries_wf(e1)) by {
                    assert forall|a: int, b: int| 0 <= a < b < e1.len() implies e1[a].0@
                        != e1[b].0@ by {
                        if b < e0.len() {
                            assert(e0[a].0@ != e0[b].0@);
                        } else {
                            assert(e0[a].0@ != k);
                        }
                    }
                    assert forall|a: int| 0 <= a < e1.len() implies #[trigger] e1[a].0@ == key_of(e1[a].1) by {
                        if a < e0.len() {
                            assert(e1[a] == e0[a]);
                        }
                    }
                }
                assert(entries_map(e1) =~= entries_map(e0).insert(k, tob)) by {
                    assert forall|q: Seq<char>| #[trigger] has_key(e1, q) == (has_key(e0, q) || q == k) by {
                        if has_key(e1, q) {
                            let a = choose|a: int| 0 <= a < e1.len() && e1[a].0@ == q;
                            if a < e0.len() {
                                assert(e1[a] == e0[a]);
                            }
                        }
                        if has_key(e0, q) {
                            let a = choose|a: int| 0 <= a < e0.len() && e0[a].0@ == q;
                            assert(e1[a] == e0[a]);
                        }
                        if q == k {
                            assert(e1[e0.len() as int].0@ == q);
                        }
                    }
                    assert forall|q: Seq<char>| #[trigger] has_key(e1, q) implies entries_map(e1)[q]
                        == entries_map(e0).insert(k, tob)[q] by {
                        let a = key_pos(e1, q);
                        lemma_key_pos(e1, a);
                        if q != k {
                            assert(a < e0.len());
                            assert(e1[a] == e0[a]);
                            lemma_key_pos(e0, a);
                        } else {
                            lemma_key_pos(e1, e0.len() as int);
                        }
                    }
                }
            }
        }
        self.entries = entries;
    }

    /// The book stored for a venue and symbol, matched by upper-case key.
    pub fn get(&self, venue: &str, symbol: &str) -> (r: Option<TopOfBook>)
        ensures
            match r {
                Some(b) => self@.contains_key(book_key(venue@, symbol@)) && b == self@[book_key(
                    venue@,
                    symbol@,
                )],
                None => !self@.contains_key(book_key(venue@, symbol@)),
            },
    {
        proof {
            use_type_invariant(self);
        }
        let key = make_key(venue, symbol);
        let mut i: usize = 0;
        while i < self.entries.len()
            invariant
                i <= self.entries.len(),
                entries_wf(self.entries@),
                key@ == book_key(venue@, symbol@),
                forall|j: int| 0 <= j < i ==> self.entries@[j].0@ != key@,
            decreases self.entries.len() - i,
        {
            if self.entries[i].0 == key {
                proof {
                    lemma_key_pos(self.entries@, i as int);
                }
                return Some(copy_book(&self.entries[i].1));
            }
            i = i + 1;
        }
        None
    }

    /// Every stored book, ordered by venue then symbol.
    pub fn all(&self) -> (r: Vec<TopOfBook>)
        ensures
            lists_books_of(r@, self@),
            sorted_by_venue_symbol(r@),
            self@.dom().finite(),
            r@.len() == self@.len(),
    {
        proof {
            use_type_invariant(self);
            lemma_entries_map_len(self.entries@);
        }
        let n = self.entries.len();
        let mut keys: Vec<(Vec<char>, Vec<char>)> = Vec::new();
        let mut i: usize = 0;
        while i < n
            invariant
                i <= n == self.entries.len(),
                keys@.len() == i,
                forall|j: int| 0 <= j < i ==> #[trigger] key_at(keys@, j) == (
                    self.entries@[j].1.venue@,
                    self.entries@[j].1.symbol@,
                ),
            decreases n - i,
        {
            let v = chars_of(self.entries[i].1.venue.as_str());
            let s = chars_of(self.entries[i].1.symbol.as_str());
            let ghost before = keys@;
            keys.push((v, s));
            proof {
                assert forall|j: int| 0 <= j < i + 1 implies #[trigger] key_at(keys@, j) == (
                    self.entries@[j].1.venue@,
                    self.entries@[j].1.symbol@,
                ) by {
                    if j < i {
                        assert(keys@[j] == before[j]);
                        assert(key_at(before, j) == key_at(keys@, j));
                    }
                }
            }
            i = i + 1;
        }
        let order = sort_indices_by_keys(&keys);
        self.books_in_order(&order, &keys)
    }

    /// The stored books whose symbol equals `symbol` in upper case, ignoring
    /// ASCII case, ordered by venue.
    pub fn all_for_symbol(&self, symbol: &str) -> (r: Vec<TopOfBook>)
        ensures
            lists_symbol_books_of(r@, self@, uppercase(symbol@)),
            sorted_by_venue(r@),
    {
        proof {
            use_type_invariant(self);
        }
        let symbol_upper = to_upper(symbol);
        let n = self.entries.len();
        let mut positions: Vec<usize> = Vec::new();
        let mut keys: Vec<(Vec<char>, Vec<char>)> = Vec::new();
        let mut i: usize = 0;
        while i < n
            invariant
                i <= n == self.entries.len(),
                keys@.len() == positions@.len(),
                forall|j: int| 0 <= j < positions@.len() ==> positions@[j] < i,
                forall|a: int, b: int| 0 <= a < b < positions@.len() ==> positions@[a] < positions@[b],
                forall|j: int| 0 <= j < positions@.len() ==> eq_ignore_ascii(
                    self.entries@[positions@[j] as int].1.symbol@,
                    symbol_upper@,
                ),
                forall|p: int| 0 <= p < i && eq_ignore_ascii(self.entries@[p].1.symbol@, symbol_upper@)
                    ==> positions@.contains(p as usize),
                forall|j: int| 0 <= j < keys@.len() ==> #[trigger] key_at(keys@, j) == (
                    self.entries@[positions@[j] as int].1.venue@,
                    Seq::<char>::empty(),
                ),
            decreases n - i,
        {
            if eq_ignore_ascii_case(self.entries[i].1.symbol.as_str(), symbol_upper.as_str()) {
                let v = chars_of(self.entries[i].1.venue.as_str());
                let ghost kb = keys@;
                let ghost pb = positions@;
                keys.push((v, Vec::new()));
                positions.push(i);
                proof {
                    assert forall|j: int| 0 <= j < keys@.len() implies #[trigger] key_at(keys@, j) == (
                        self.entries@[positions@[j] as int].1.venue@,
                        Seq::<char>::empty(),
                    ) by {
                        if j < kb.len() {
                            assert(keys@[j] == kb[j]);
                            assert(key_at(kb, j) == key_at(keys@, j));
                            assert(positions@[j] == pb[j]);
                        }
                    }
                    assert forall|p: int| 0 <= p < i + 1 && eq_ignore_ascii(self.entries@[p].1.symbol@, symbol_upper@)
                        implies positions@.contains(p as usize) by {
                        if p < i {
                            let w = choose|w: int| 0 <= w < pb.len() && pb[w] == p as usize;
                            assert(positions@[w] == p as usize);
                        } else {
                            assert(positions@[pb.len() as int] == i);
                        }
                    }
                }
            }
            i = i + 1;
        }
        let order = sort_indices_by_keys(&keys);
        let mut out: Vec<TopOfBook> = Vec::new();
        let mut t: usize = 0;
        while t < order.len()
            invariant
                t <= order.len(),
                out@.len() == t,
                order@.len() == positions@.len(),
                forall|a: int| 0 <= a < order@.len() ==> order@[a] < positions@.len(),
                forall|j: int| 0 <= j < positions@.len() ==> positions@[j] < self.entries@.len(),
                forall|j: int|
                    0 <= j < t ==> out@[j] == #[trigger] self.entries@[positions@[order@[j] as int] as int].1,
            decreases order.len() - t,
        {
            out.push(copy_book(&self.entries[positions[order[t]]].1));
            t = t + 1;
        }
        proof {
            let e = self.entries@;
            let r = out@;
            let m = self@;
            let up = uppercase(symbol@);
            assert forall|a: int| 0 <= a < r.len() implies #[trigger] m.contains_key(key_of(r[a]))
                && m[key_of(r[a])] == r[a] && eq_ignore_ascii(r[a].symbol@, up) by {
                let p = positions@[order@[a] as int] as int;
                assert(r[a] == e[p].1);
                lemma_key_pos(e, p);
            }
            assert forall|k: Seq<char>| #[trigger] m.contains_key(k) && eq_ignore_ascii(m[k].symbol@, up)
                implies r.contains(m[k]) by {
                let p = key_pos(e, k);
                assert(positions@.contains(p as usize));
                let w = choose|w: int| 0 <= w < positions@.len() && positions@[w] == p as usize;
                assert(order@.contains(w as usize));
                let z = choose|z: int| 0 <= z < order@.len() && order@[z] == w as usize;
                assert(r[z] == e[p].1);
            }
            assert forall|a: int, b: int| 0 <= a < b < r.len() implies key_of(r[a]) != key_of(r[b]) by {
                let wa = order@[a] as int;
                let wb = order@[b] as int;
                let pa = positions@[wa] as int;
                let pb = positions@[wb] as int;
                assert(r[a] == e[pa].1 && r[b] == e[pb].1);
                assert(wa != wb);
                if wa < wb {
                    assert(pa < pb);
                    assert(e[pa].0@ != e[pb].0@);
                } else {
                    assert(pb < pa);
                    assert(e[pb].0@ != e[pa].0@);
                }
            }
            assert forall|a: int, b: int| 0 <= a < b < r.len() implies !pair_lt(
                (r[b].venue@, Seq::<char>::empty()),
                (r[a].venue@, Seq::<char>::empty()),
            ) by {
                assert(key_at(keys@, order@[a] as int) == (r[a].venue@, Seq::<char>::empty()));
                assert(key_at(keys@, order@[b] as int) == (r[b].venue@, Seq::<char>::empty()));
            }
        }
        out
    }

    /// Every key, in lexicographic order.
    pub fn active_keys(&self) -> (r: Vec<String>)
        ensures
            forall|i: int| 0 <= i < r@.len() ==> #[trigger] self@.contains_key(r@[i]@),
            forall|k: Seq<char>| #[trigger] self@.contains_key(k) ==> exists|i: int|
                0 <= i < r@.len() && r@[i]@ == k,
            forall|i: int, j: int| 0 <= i < j < r@.len() ==> r@[i]@ != r@[j]@,
            forall|i: int, j: int|
                0 <= i < j < r@.len() ==> !pair_lt((r@[j]@, Seq::empty()), (r@[i]@, Seq::empty())),
    {
        proof {
            use_type_invariant(self);
        }
        let n = self.entries.len();
        let mut keys: Vec<(Vec<char>, Vec<char>)> = Vec::new();
        let mut i: usize = 0;
        while i < n
            invariant
                i <= n == self.entries.len(),
                keys@.len() == i,
                forall|j: int| 0 <= j < i ==> #[trigger] key_at(keys@, j) == (
                    self.entries@[j].0@,
                    Seq::<char>::empty(),
                ),
            decreases n - i,
        {
            let k = chars_of(self.entries[i].0.as_str());
            let ghost before = keys@;
            keys.push((k, Vec::new()));
            proof {
                assert forall|j: int| 0 <= j < i + 1 implies #[trigger] key_at(keys@, j) == (
                    self.entries@[j].0@,
                    Seq::<char>::empty(),
                ) by {
                    if j < i {
                        assert(keys@[j] == before[j]);
                        assert(key_at(before, j) == key_at(keys@, j));
                    }
                }
            }
            i = i + 1;
        }
        let order = sort_indices_by_keys(&keys);
        let mut out: Vec<String> = Vec::new();
        let mut t: usize = 0;
        while t < order.len()
            invariant
                t <= order.len(),
                out@.len() == t,
                order@.len() == self.entries@.len(),
                forall|a: int| 0 <= a < order@.len() ==> order@[a] < self.entries@.len(),
                forall|j: int| 0 <= j < t ==> out@[j]@ == #[trigger] self.entries@[order@[j] as int].0@,
            decreases order.len() - t,
        {
            out.push(self.entries[order[t]].0.clone());
            t = t + 1;
        }
        proof {
            let e = self.entries@;
            let r = out@;
            assert forall|a: int| 0 <= a < r.len() implies #[trigger] self@.contains_key(r[a]@) by {
                let p = order@[a] as int;
                assert(r[a]@ == e[p].0@);
                lemma_key_pos(e, p);
            }
            assert forall|k: Seq<char>| #[trigger] self@.contains_key(k) implies exists|a: int|
                0 <= a < r.len() && r[a]@ == k by {
                let p = key_pos(e, k);
                assert(order@.contains(p as usize));
                let w = choose|w: int| 0 <= w < order@.len() && order@[w] == p as usize;
                assert(r[w]@ == e[p].0@);
            }
            assert forall|a: int, b: int| 0 <= a < b < r.len() implies r[a]@ != r[b]@ by {
                let pa = order@[a] as int;
                let pb = order@[b] as int;
                assert(r[a]@ == e[pa].0@ && r[b]@ == e[pb].0@);
                if pa < pb {
                    assert(e[pa].0@ != e[pb].0@);
                } else {
                    assert(e[pb].0@ != e[pa].0@);
                }
            }
            assert forall|a: int, b: int| 0 <= a < b < r.len() implies !pair_lt(
                (r[b]@, Seq::<char>::empty()),
                (r[a]@, Seq::<char>::empty()),
            ) by {
                assert(key_at(keys@, order@[a] as int) == (r[a]@, Seq::<char>::empty()));
                assert(key_at(keys@, order@[b] as int) == (r[b]@, Seq::<char>::empty()));
            }
        }
        out
    }

    /// The age in microseconds at `now_us` of the book stored for a venue
    /// and symbol (see [`age_at`]).
    pub fn age_us_at(&self, venue: &str, symbol: &str, now_us: i64) -> (r: Option<i64>)
        ensures
            match r {
                Some(a) => self@.contains_key(book_key(venue@, symbol@)) && a == age_at(
                    now_us,
                    self@[book_key(venue@, symbol@)].receive_ts_us,
                ),
                None => !self@.contains_key(book_key(venue@, symbol@)),
            },
    {
        match self.get(venue, symbol) {
            Some(b) => Some(age_between(now_us, b.receive_ts_us)),
            None => None,
        }
    }

    /// The age in whole milliseconds at `now_us`.
    pub fn age_ms_at(&self, venue: &str, symbol: &str, now_us: i64) -> (r: Option<i64>)
        ensures
            match r {
                Some(a) => self@.contains_key(book_key(venue@, symbol@)) && a == us_to_ms(
                    age_at(now_us, self@[book_key(venue@, symbol@)].receive_ts_us),
                ),
                None => !self@.contains_key(book_key(venue@, symbol@)),
            },
    {
        match self.age_us_at(venue, symbol, now_us) {
            Some(a) => Some(a / 1000),
            None => None,
        }
    }

    /// Whether a book is stored for the venue and symbol and, at `now_us`,
    /// is no older than `stale_after_ms` milliseconds (see [`fresh_at`]).
    pub fn is_fresh_at(&self, venue: &str, symbol: &str, stale_after_ms: u64, now_us: i64) -> (r: bool)
        ensures
            r == (self@.contains_key(book_key(venue@, symbol@)) && fresh_at(
                now_us,
                self@[book_key(venue@, symbol@)].receive_ts_us,
                stale_after_ms,
            )),
    {
        match self.age_ms_at(venue, symbol, now_us) {
            Some(age_ms) => age_ms <= stale_after_ms as i64,
            None => false,
        }
    }

    /// The books at the given positions, in that order.
    fn books_in_order(&self, order: &Vec<usize>, keys: &Vec<(Vec<char>, Vec<char>)>) -> (r: Vec<
        TopOfBook,
    >)
        requires
            entries_wf(self.entries@),
            is_index_permutation(order@, self.entries@.len()),
            keys@.len() == self.entries@.len(),
            forall|j: int| 0 <= j < keys@.len() ==> #[trigger] key_at(keys@, j) == (
                self.entries@[j].1.venue@,
                self.entries@[j].1.symbol@,
            ),
            sorted_by_keys(order@, keys@),
        ensures
            lists_books_of(r@, self@),
            sorted_by_venue_symbol(r@),
            r@.len() == self.entries@.len(),
    {
        let mut out: Vec<TopOfBook> = Vec::new();
        let mut i: usize = 0;
        while i < order.len()
            invariant
                i <= order.len(),
                out@.len() == i,
                order@.len() == self.entries@.len(),
                forall|a: int| 0 <= a < order@.len() ==> order@[a] < self.entries@.len(),
                forall|j: int| 0 <= j < i ==> out@[j] == #[trigger] self.entries@[order@[j] as int].1,
            decreases order.len() - i,
        {
            out.push(copy_book(&self.entries[order[i]].1));
            i = i + 1;
        }
        proof {
            let e = self.entries@;
            let r = out@;
            assert forall|a: int| 0 <= a < r.len() implies #[trigger] self@.contains_key(key_of(r[a]))
                && self@[key_of(r[a])] == r[a] by {
                let p = order@[a] as int;
                assert(r[a] == e[p].1);
                lemma_key_pos(e, p);
            }
            assert forall|k: Seq<char>| #[trigger] self@.contains_key(k) implies r.contains(self@[k]) by {
                let p = key_pos(e, k);
                assert(order@.contains(p as usize));
                let w = choose|w: int| 0 <= w < order@.len() && order@[w] == p as usize;
                assert(r[w] == e[p].1);
            }
            assert forall|a: int, b: int| 0 <= a < b < r.len() implies key_of(r[a]) != key_of(r[b]) by {
                let pa = order@[a] as int;
                let pb = order@[b] as int;
                assert(r[a] == e[pa].1 && r[b] == e[pb].1);
                if pa < pb {
                    assert(e[pa].0@ != e[pb].0@);
                } else {
                    assert(e[pb].0@ != e[pa].0@);
                }
            }
            assert forall|a: int, b: int| 0 <= a < b < r.len() implies !pair_lt(
                (r[b].venue@, r[b].symbol@),
                (r[a].venue@, r[a].symbol@),
            ) by {
                assert(key_at(keys@, order@[a] as int) == (r[a].venue@, r[a].symbol@));
                assert(key_at(keys@, order@[b] as int) == (r[b].venue@, r[b].symbol@));
            }
        }
        out
    }
}


impl Default for TopOfBookStore {
    /// An empty store.
    fn default() -> (r: Self)
        ensures
            r@ == Map::<Seq<char>, TopOfBook>::empty(),
    {
        TopOfBookStore::new()
    }
}

/// Law: reading a venue and symbol after storing a book for them gives that
/// book back, whatever the case of the names used, and storing a book leaves
/// the books of every other key as they were.
pub proof fn law_read_after_write(
    m: Map<Seq<char>, TopOfBook>,
    tob: TopOfBook,
    venue: Seq<char>,
    symbol: Seq<char>,
)
    ensures
        uppercase(venue) == uppercase(tob.venue@) && uppercase(symbol) == uppercase(tob.symbol@)
            ==> m.insert(key_of(tob), tob).contains_key(book_key(venue, symbol)) && m.insert(
            key_of(tob),
            tob,
        )[book_key(venue, symbol)] == tob,
        book_key(venue, symbol) != key_of(tob) ==> (m.insert(key_of(tob), tob).contains_key(
            book_key(venue, symbol),
        ) == m.contains_key(book_key(venue, symbol)) && m.insert(key_of(tob), tob)[book_key(
            venue,
            symbol,
        )] == m[book_key(venue, symbol)]),
{
}

/// Law: storing a book adds one book to a listing of the store when its
/// key was new, and replaces the book stored under the key otherwise (see
/// [`TopOfBookStore::all`], whose listing has one book per key).
pub proof fn law_update_len(m: Map<Seq<char>, TopOfBook>, tob: TopOfBook)
    requires
        m.dom().finite(),
    ensures
        m.insert(key_of(tob), tob).dom().finite(),
        m.insert(key_of(tob), tob).len() == m.len() + (if m.contains_key(key_of(tob)) {
            0int
        } else {
            1int
        }),
{
}

#[verifier::external_type_specification]
#[verifier::external_body]
pub struct ExRawRwLock(RawRwLock);

#[verifier::external_type_specification]
#[verifier::external_body]
#[verifier::reject_recursive_types(R)]
#[verifier::reject_recursive_types(T)]
pub struct ExRwLock<R, T: ?Sized>(RwLock<R, T>);

/// Calls `parking_lot::RwLock::new`.
#[verifier::external_body]
fn new_store_lock(store: TopOfBookStore) -> RwLock<RawRwLock, TopOfBookStore> {
    RwLock::new(store)
}

/// Calls `RwLock::read`, waits for shared access, and hands the store it
/// guards to `f` while holding it; returns what `f` returns.
#[verifier::external_body]
fn with_store_read<F: FnOnce(&TopOfBookStore) -> TopOfBookStore>(
    lock: &RwLock<RawRwLock, TopOfBookStore>,
    f: F,
) -> TopOfBookStore {
    f(&lock.read())
}

/// Calls `RwLock::write`, waits for exclusive access, and hands the store
/// it guards to `f` while holding it.
#[verifier::external_body]
fn with_store_write<F: FnOnce(&mut TopOfBookStore)>(lock: &RwLock<RawRwLock, TopOfBookStore>, f: F) {
    f(&mut lock.write())
}

/// The top-of-book store shared between the feed tasks and the API, behind
/// a read-write lock.
#[derive(Clone, Default)]
pub struct SharedTopOfBook {
    inner: Arc<RwLock<RawRwLock, TopOfBookStore>>,
}

impl SharedTopOfBook {
    /// A shared store holding no book.
    pub fn new() -> Self {
        SharedTopOfBook { inner: Arc::new(new_store_lock(TopOfBookStore::new())) }
    }

    /// A copy of the store as it stands now. Nothing is stated of the copy:
    /// other tasks change the store at any time.
    pub fn snapshot(&self) -> TopOfBookStore {
        with_store_read(&self.inner, |s: &TopOfBookStore| -> (r: TopOfBookStore) { s.clone() })
    }

    /// Stores a book under its key (see [`TopOfBookStore::update`]) while
    /// holding the write lock.
    pub fn update(&self, tob: TopOfBook) {
        with_store_write(&self.inner, move |s: &mut TopOfBookStore| { s.update(tob) })
    }

    /// The book stored for a venue and symbol; a book found is stored
    /// under the key of the names asked for.
    pub fn get(&self, venue: &str, symbol: &str) -> (r: Option<TopOfBook>)
        ensures
            r matches Some(b) ==> key_of(b) == book_key(venue@, symbol@),
    {
        let store = self.snapshot();
        proof {
            use_type_invariant(&store);
        }
        let r = store.get(venue, symbol);
        proof {
            if r is Some {
                let k = book_key(venue@, symbol@);
                let i = key_pos(store.entries@, k);
                assert(store.entries@[i].0@ == key_of(store.entries@[i].1));
            }
        }
        r
    }

    /// Every stored book, ordered by venue then symbol.
    pub fn all(&self) -> (r: Vec<TopOfBook>)
        ensures
            sorted_by_venue_symbol(r@),
            forall|i: int, j: int| 0 <= i < j < r@.len() ==> key_of(r@[i]) != key_of(r@[j]),
    {
        let store = self.snapshot();
        store.all()
    }

    /// The stored books for a symbol (matched ignoring ASCII case against
    /// the symbol in upper case), ordered by venue.
    pub fn all_for_symbol(&self, symbol: &str) -> (r: Vec<TopOfBook>)
        ensures
            sorted_by_venue(r@),
            forall|i: int| 0 <= i < r@.len() ==> eq_ignore_ascii(#[trigger] r@[i].symbol@, uppercase(symbol@)),
            forall|i: int, j: int| 0 <= i < j < r@.len() ==> key_of(r@[i]) != key_of(r@[j]),
    {
        let store = self.snapshot();
        let r = store.all_for_symbol(symbol);
        proof {
            assert forall|i: int| 0 <= i < r@.len() implies eq_ignore_ascii(#[trigger] r@[i].symbol@, uppercase(symbol@)) by {
                assert(store@.contains_key(key_of(r@[i])));
            }
        }
        r
    }

    /// The age in microseconds of the book stored for a venue and symbol:
    /// what [`TopOfBookStore::age_us_at`] gives on a copy of the store at a
    /// microsecond clock reading. Which copy and reading is not stated.
    pub fn age_us(&self, venue: &str, symbol: &str) -> (r: Option<i64>)
        ensures
            exists|m: Map<Seq<char>, TopOfBook>, elapsed_us: Option<u128>|
                #[trigger] age_us_in(m, venue@, symbol@, clock_micros(elapsed_us)) == r,
    {
        let store = self.snapshot();
        let now = now_us();
        let r = store.age_us_at(venue, symbol, now);
        proof {
            let e = choose|e: Option<u128>| now == #[trigger] clock_micros(e);
            assert(age_us_in(store@, venue@, symbol@, clock_micros(e)) == r);
        }
        r
    }

    /// The age in whole milliseconds of the book stored for a venue and
    /// symbol: what [`TopOfBookStore::age_ms_at`] gives on a copy of the
    /// store at a microsecond clock reading.
    pub fn age_ms(&self, venue: &str, symbol: &str) -> (r: Option<i64>)
        ensures
            exists|m: Map<Seq<char>, TopOfBook>, elapsed_us: Option<u128>|
                #[trigger] age_ms_in(m, venue@, symbol@, clock_micros(elapsed_us)) == r,
    {
        let store = self.snapshot();
        let now = now_us();
        let r = store.age_ms_at(venue, symbol, now);
        proof {
            let e = choose|e: Option<u128>| now == #[trigger] clock_micros(e);
            assert(age_ms_in(store@, venue@, symbol@, clock_micros(e)) == r);
        }
        r
    }

    /// Whether a book is stored for the venue and symbol and is no older
    /// than `stale_after_ms` milliseconds now: what
    /// [`TopOfBookStore::is_fresh_at`] gives on a copy of the store at a
    /// microsecond clock reading (see [`fresh_at`]).
    pub fn is_fresh(&self, venue: &str, symbol: &str, stale_after_ms: u64) -> (r: bool)
        ensures
            exists|m: Map<Seq<char>, TopOfBook>, elapsed_us: Option<u128>|
                #[trigger] fresh_in(m, venue@, symbol@, stale_after_ms, clock_micros(elapsed_us)) == r,
    {
        let store = self.snapshot();
        let now = now_us();
        let r = store.is_fresh_at(venue, symbol, stale_after_ms, now);
        proof {
            let e = choose|e: Option<u128>| now == #[trigger] clock_micros(e);
            assert(fresh_in(store@, venue@, symbol@, stale_after_ms, clock_micros(e)) == r);
        }
        r
    }

    /// Every key, in lexicographic order.
    pub fn active_keys(&self) -> (r: Vec<String>)
        ensures
            forall|i: int, j: int| 0 <= i < j < r@.len() ==> r@[i]@ != r@[j]@,
            forall|i: int, j: int|
                0 <= i < j < r@.len() ==> !pair_lt((r@[j]@, Seq::empty()), (r@[i]@, Seq::empty())),
    {
        let store = self.snapshot();
        store.active_keys()
    }
}

} // verus!
