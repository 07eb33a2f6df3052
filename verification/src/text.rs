//! Text helpers: case mapping, ASCII case-insensitive comparison and the
//! lexicographic order of strings.
pub use crate::decimal::chars_of;
use vstd::prelude::*;

verus! {

/// The text that `str::to_uppercase` returns (full Unicode mapping).
pub uninterp spec fn uppercase(s: Seq<char>) -> Seq<char>;

/// The text that `str::to_lowercase` returns (full Unicode mapping).
pub uninterp spec fn lowercase(s: Seq<char>) -> Seq<char>;

/// Calls `str::to_uppercase`.
#[verifier::external_body]
pub(crate) fn to_upper(s: &str) -> (r: String)
    ensures
        r@ == uppercase(s@),
{
    s.to_uppercase()
}

/// Calls `str::to_lowercase`.
#[verifier::external_body]
pub(crate) fn to_lower(s: &str) -> (r: String)
    ensures
        r@ == lowercase(s@),
{
    s.to_lowercase()
}

/// The code point of a character's ASCII lower-case form; other
/// characters keep their code point.
pub open spec fn ascii_lower(c: char) -> u32 {
    if 'A' <= c && c <= 'Z' {
        ((c as u32) + 32) as u32
    } else {
        c as u32
    }
}

/// `a` and `b` are equal once ASCII letters are folded to lower case (as
/// `str::eq_ignore_ascii_case`).
pub open spec fn eq_ignore_ascii(a: Seq<char>, b: Seq<char>) -> bool {
    a.len() == b.len() && forall|i: int| 0 <= i < a.len() ==> ascii_lower(a[i]) == ascii_lower(b[i])
}

fn lower_ascii_char(c: char) -> (r: u32)
    ensures
        r == ascii_lower(c),
{
    if 'A' <= c && c <= 'Z' {
        c as u32 + 32
    } else {
        c as u32
    }
}

/// Whether two strings are equal ignoring ASCII case (see
/// [`eq_ignore_ascii`]).
pub fn eq_ignore_ascii_case(a: &str, b: &str) -> (r: bool)
    ensures
        r == eq_ignore_ascii(a@, b@),
{
    let x = chars_of(a);
    let y = chars_of(b);
    if x.len() != y.len() {
        return false;
    }
    let mut i: usize = 0;
    while i < x.len()
        invariant
            i <= x.len() == y.len(),
            x@ == a@,
            y@ == b@,
            forall|j: int| 0 <= j < i ==> ascii_lower(x@[j]) == ascii_lower(y@[j]),
        decreases x.len() - i,
    {
        if lower_ascii_char(x[i]) != lower_ascii_char(y[i]) {
            return false;
        }
        i = i + 1;
    }
    true
}

/// `a` comes strictly before `b` in lexicographic order of code points
/// (the order of `String`'s `Ord`, which compares UTF-8 bytes).
pub open spec fn text_lt(a: Seq<char>, b: Seq<char>) -> bool
    decreases a.len(),
{
    if a.len() == 0 {
        b.len() > 0
    } else if b.len() == 0 {
        false
    } else if a[0] != b[0] {
        a[0] < b[0]
    } else {
        text_lt(a.drop_first(), b.drop_first())
    }
}

/// Law: the lexicographic order is irreflexive.
pub proof fn lemma_text_lt_irreflexive(a: Seq<char>)
    ensures
        !text_lt(a, a),
    decreases a.len(),
{
    if a.len() > 0 {
        lemma_text_lt_irreflexive(a.drop_first());
    }
}

/// Law: the lexicographic order is transitive.
pub proof fn lemma_text_lt_transitive(a: Seq<char>, b: Seq<char>, c: Seq<char>)
    requires
        text_lt(a, b),
        text_lt(b, c),
    ensures
        text_lt(a, c),
    decreases a.len(),
{
    if a.len() > 0 && b.len() > 0 && c.len() > 0 {
        if a[0] == b[0] && b[0] == c[0] {
            lemma_text_lt_transitive(a.drop_first(), b.drop_first(), c.drop_first());
        }
    }
}

/// Law: two different texts are ordered one way or the other.
pub proof fn lemma_text_lt_total(a: Seq<char>, b: Seq<char>)
    ensures
        a == b || text_lt(a, b) || text_lt(b, a),
    decreases a.len(),
{
    if a.len() > 0 && b.len() > 0 && a[0] == b[0] {
        lemma_text_lt_total(a.drop_first(), b.drop_first());
        if a.drop_first() == b.drop_first() {
            assert(a =~= seq![a[0]] + a.drop_first());
            assert(b =~= seq![b[0]] + b.drop_first());
        }
    } else if a.len() == 0 && b.len() == 0 {
        assert(a =~= b);
    } else if a.len() > 0 && b.len() > 0 {
    }
}

/// Law: the order is asymmetric.
pub proof fn lemma_text_lt_asymmetric(a: Seq<char>, b: Seq<char>)
    requires
        text_lt(a, b),
    ensures
        !text_lt(b, a),
{
    if text_lt(b, a) {
        lemma_text_lt_transitive(a, b, a);
        lemma_text_lt_irreflexive(a);
    }
}

proof fn lemma_text_lt_common_prefix(a: Seq<char>, b: Seq<char>, i: int)
    requires
        0 <= i <= a.len(),
        i <= b.len(),
        a.take(i) == b.take(i),
    ensures
        text_lt(a, b) == text_lt(a.skip(i), b.skip(i)),
    decreases i,
{
    if i == 0 {
        assert(a.skip(0) =~= a);
        assert(b.skip(0) =~= b);
    } else {
        assert(a[0] == a.take(i)[0]);
        assert(b[0] == b.take(i)[0]);
        assert(a.drop_first().take(i - 1) =~= a.take(i).drop_first());
        assert(b.drop_first().take(i - 1) =~= b.take(i).drop_first());
        lemma_text_lt_common_prefix(a.drop_first(), b.drop_first(), i - 1);
        assert(a.drop_first().skip(i - 1) =~= a.skip(i));
        assert(b.drop_first().skip(i - 1) =~= b.skip(i));
    }
}

/// Whether `a` comes strictly before `b` (see [`text_lt`]).
pub fn chars_lt(a: &Vec<char>, b: &Vec<char>) -> (r: bool)
    ensures
        r == text_lt(a@, b@),
{
    let mut i: usize = 0;
    while i < a.len() && i < b.len() && a[i] == b[i]
        invariant
            i <= a.len(),
            i <= b.len(),
            a@.take(i as int) == b@.take(i as int),
        decreases a.len() - i,
    {
        proof {
            assert(a@.take(i + 1) =~= a@.take(i as int).push(a@[i as int]));
            assert(b@.take(i + 1) =~= b@.take(i as int).push(b@[i as int]));
        }
        i = i + 1;
    }
    proof {
        lemma_text_lt_common_prefix(a@, b@, i as int);
    }
    if i == a.len() {
        i < b.len()
    } else if i == b.len() {
        false
    } else {
        a[i] < b[i]
    }
}

/// Whether two character vectors are equal.
pub fn chars_eq(a: &Vec<char>, b: &Vec<char>) -> (r: bool)
    ensures
        r == (a@ == b@),
{
    if a.len() != b.len() {
        return false;
    }
    let mut i: usize = 0;
    while i < a.len()
        invariant
            i <= a.len() == b.len(),
            forall|j: int| 0 <= j < i ==> a@[j] == b@[j],
        decreases a.len() - i,
    {
        if a[i] != b[i] {
            return false;
        }
        i = i + 1;
    }
    assert(a@ =~= b@);
    true
}


/// Pairs of texts ordered by the first text, then the second.
pub open spec fn pair_lt(a: (Seq<char>, Seq<char>), b: (Seq<char>, Seq<char>)) -> bool {
    text_lt(a.0, b.0) || (a.0 == b.0 && text_lt(a.1, b.1))
}

/// Law: the pair order is transitive.
pub proof fn lemma_pair_lt_transitive(
    a: (Seq<char>, Seq<char>),
    b: (Seq<char>, Seq<char>),
    c: (Seq<char>, Seq<char>),
)
    requires
        pair_lt(a, b),
        pair_lt(b, c),
    ensures
        pair_lt(a, c),
{
    if text_lt(a.0, b.0) && text_lt(b.0, c.0) {
        lemma_text_lt_transitive(a.0, b.0, c.0);
    } else if a.0 == b.0 && b.0 == c.0 {
        lemma_text_lt_transitive(a.1, b.1, c.1);
    }
}

/// Law: the pair order is irreflexive and asymmetric.
pub proof fn lemma_pair_lt_asymmetric(a: (Seq<char>, Seq<char>), b: (Seq<char>, Seq<char>))
    ensures
        !pair_lt(a, a),
        pair_lt(a, b) ==> !pair_lt(b, a),
{
    lemma_text_lt_irreflexive(a.0);
    lemma_text_lt_irreflexive(a.1);
    if pair_lt(a, b) && pair_lt(b, a) {
        lemma_pair_lt_transitive(a, b, a);
    }
}

/// The sort key at a position, as a pair of texts.
pub open spec fn key_at(keys: Seq<(Vec<char>, Vec<char>)>, i: int) -> (Seq<char>, Seq<char>) {
    (keys[i].0@, keys[i].1@)
}

/// `o` lists each of `0..n` exactly once.
pub open spec fn is_index_permutation(o: Seq<usize>, n: nat) -> bool {
    &&& o.len() == n
    &&& forall|i: int| 0 <= i < o.len() ==> o[i] < n
    &&& forall|i: int, j: int| 0 <= i < j < o.len() ==> o[i] != o[j]
    &&& forall|k: usize| k < n ==> o.contains(k)
}

/// Along `o`, no key comes strictly before an earlier one.
pub open spec fn sorted_by_keys(o: Seq<usize>, keys: Seq<(Vec<char>, Vec<char>)>) -> bool {
    forall|i: int, j: int|
        0 <= i < j < o.len() ==> !pair_lt(key_at(keys, o[j] as int), key_at(keys, o[i] as int))
}

fn pair_less(a: &(Vec<char>, Vec<char>), b: &(Vec<char>, Vec<char>)) -> (r: bool)
    ensures
        r == pair_lt((a.0@, a.1@), (b.0@, b.1@)),
{
    if chars_lt(&a.0, &b.0) {
        true
    } else if chars_eq(&a.0, &b.0) {
        chars_lt(&a.1, &b.1)
    } else {
        false
    }
}

/// The positions of `keys` in key order, equal keys kept in their order
/// (a stable insertion sort).
pub fn sort_indices_by_keys(keys: &Vec<(Vec<char>, Vec<char>)>) -> (o: Vec<usize>)
    ensures
        is_index_permutation(o@, keys@.len()),
        sorted_by_keys(o@, keys@),
{
    let mut o: Vec<usize> = Vec::new();
    let mut i: usize = 0;
    while i < keys.len()
        invariant
            i <= keys.len(),
            o@.len() == i,
            forall|a: int| 0 <= a < o@.len() ==> o@[a] < i,
            forall|a: int, b: int| 0 <= a < b < o@.len() ==> o@[a] != o@[b],
            forall|k: usize| k < i ==> o@.contains(k),
            sorted_by_keys(o@, keys@),
        decreases keys.len() - i,
    {
        let mut p: usize = 0;
        while p < o.len() && !pair_less(&keys[i], &keys[o[p]])
            invariant
                p <= o@.len(),
                i < keys.len(),
                forall|a: int| 0 <= a < o@.len() ==> o@[a] < i,
                forall|a: int|
                    0 <= a < p ==> !pair_lt(key_at(keys@, i as int), key_at(keys@, o@[a] as int)),
            decreases o@.len() - p,
        {
            p = p + 1;
        }
        let ghost old_o = o@;
        o.insert(p, i);
        proof {
            let ki = key_at(keys@, i as int);
            assert forall|a: int, b: int| 0 <= a < b < o@.len() implies !pair_lt(
                key_at(keys@, o@[b] as int),
                key_at(keys@, o@[a] as int),
            ) by {
                if a < p && b < p {
                    assert(o@[a] == old_o[a] && o@[b] == old_o[b]);
                } else if a < p && b == p {
                    assert(o@[a] == old_o[a]);
                } else if a < p && b > p {
                    assert(o@[a] == old_o[a] && o@[b] == old_o[b - 1]);
                } else if a == p {
                    assert(o@[b] == old_o[b - 1]);
                    let kb = key_at(keys@, old_o[b - 1] as int);
                    let kp = key_at(keys@, old_o[p as int] as int);
                    assert(pair_lt(ki, kp));
                    if pair_lt(kb, ki) {
                        lemma_pair_lt_transitive(kb, ki, kp);
                        if b - 1 > p {
                            assert(!pair_lt(kb, kp));
                        } else {
                            lemma_pair_lt_asymmetric(kb, kp);
                        }
                    }
                } else {
                    assert(o@[a] == old_o[a - 1] && o@[b] == old_o[b - 1]);
                }
            }
            assert forall|a: int, b: int| 0 <= a < b < o@.len() implies o@[a] != o@[b] by {
                if a < p && b < p {
                    assert(o@[a] == old_o[a] && o@[b] == old_o[b]);
                } else if a < p && b > p {
                    assert(o@[a] == old_o[a] && o@[b] == old_o[b - 1]);
                } else if a > p {
                    assert(o@[a] == old_o[a - 1] && o@[b] == old_o[b - 1]);
                } else if a == p {
                    assert(o@[b] == old_o[b - 1]);
                } else {
                    assert(o@[a] == old_o[a]);
                }
            }
            assert forall|k: usize| k < i + 1 implies o@.contains(k) by {
                if k == i {
                    assert(o@[p as int] == i);
                } else {
                    assert(old_o.contains(k));
                    let w = choose|w: int| 0 <= w < old_o.len() && old_o[w] == k;
                    if w < p {
                        assert(o@[w] == k);
                    } else {
                        assert(o@[w + 1] == k);
                    }
                }
            }
            assert forall|a: int| 0 <= a < o@.len() implies o@[a] < i + 1 by {
                if a < p {
                    assert(o@[a] == old_o[a]);
                } else if a > p {
                    assert(o@[a] == old_o[a - 1]);
                }
            }
        }
        i = i + 1;
    }
    o
}

} // verus!
