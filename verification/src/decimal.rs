//! Decimal literals as venues send them ("81633.47", "0.00125000",
//! "1.5e-7"), read exactly into scaled integers.
use crate::text::{ascii_lower, eq_ignore_ascii};
use vstd::prelude::*;

verus! {

/// `c` is an ASCII decimal digit.
pub open spec fn is_digit(c: char) -> bool {
    '0' <= c && c <= '9'
}

/// The value of a digit character.
pub open spec fn digit_val(c: char) -> nat {
    (c as int - '0' as int) as nat
}

/// Every character of `s` is a decimal digit.
pub open spec fn all_digits(s: Seq<char>) -> bool {
    forall|i: int| 0 <= i < s.len() ==> is_digit(#[trigger] s[i])
}

/// The number that a string of digits writes in base ten.
pub open spec fn digits_val(s: Seq<char>) -> nat
    decreases s.len(),
{
    if s.len() == 0 {
        0
    } else {
        digits_val(s.drop_last()) * 10 + digit_val(s.last())
    }
}

/// Ten to the power `n`.
pub open spec fn pow10(n: nat) -> nat
    decreases n,
{
    if n == 0 {
        1
    } else {
        10 * pow10((n - 1) as nat)
    }
}

/// The position of the first character of `s` equal to `a` or `b`, or the
/// length of `s` when there is none.
pub open spec fn first_of(s: Seq<char>, a: char, b: char) -> nat
    decreases s.len(),
{
    if s.len() == 0 {
        0
    } else if s[0] == a || s[0] == b {
        0
    } else {
        1 + first_of(s.drop_first(), a, b)
    }
}

/// The length of a leading `+` or `-` of `s` (0 or 1).
pub open spec fn sign_len(s: Seq<char>) -> nat {
    if s.len() > 0 && (s[0] == '+' || s[0] == '-') {
        1
    } else {
        0
    }
}

/// `s` starts with a minus sign.
pub open spec fn starts_negative(s: Seq<char>) -> bool {
    s.len() > 0 && s[0] == '-'
}

/// The parts of a decimal literal: `[sign] int-digits ['.' frac-digits]
/// [('e'|'E') [sign] exp-digits]`.
pub struct DecimalParts {
    pub negative: bool,
    pub int_digits: Seq<char>,
    pub frac_digits: Seq<char>,
    pub has_exp: bool,
    pub exp_negative: bool,
    pub exp_digits: Seq<char>,
}

/// Splits `s` at its sign, its decimal point and its exponent marker.
pub open spec fn decimal_parts(s: Seq<char>) -> DecimalParts {
    let body = s.skip(sign_len(s) as int);
    let e = first_of(body, 'e', 'E') as int;
    let mant = body.take(e);
    let expo = body.skip(e);
    let d = first_of(mant, '.', '.') as int;
    let exp_body = expo.skip(1);
    DecimalParts {
        negative: starts_negative(s),
        int_digits: mant.take(d),
        frac_digits: if d < mant.len() {
            mant.skip(d + 1)
        } else {
            Seq::empty()
        },
        has_exp: expo.len() > 0,
        exp_negative: starts_negative(exp_body),
        exp_digits: exp_body.skip(sign_len(exp_body) as int),
    }
}

/// `s` is a decimal literal: an optional sign, digits with at most one
/// decimal point and at least one digit, then an optional exponent marker
/// with an optional sign and at least one digit.
pub open spec fn is_decimal_literal(s: Seq<char>) -> bool {
    let p = decimal_parts(s);
    &&& all_digits(p.int_digits)
    &&& all_digits(p.frac_digits)
    &&& p.int_digits.len() + p.frac_digits.len() > 0
    &&& p.has_exp ==> all_digits(p.exp_digits) && p.exp_digits.len() > 0
}

/// The digits of the literal, integer part then fraction.
pub open spec fn mantissa_digits(s: Seq<char>) -> Seq<char> {
    decimal_parts(s).int_digits + decimal_parts(s).frac_digits
}

/// The power of ten that the mantissa digits are multiplied by, once the
/// value is scaled by `10^scale`.
pub open spec fn scaled_exponent(s: Seq<char>, scale: nat) -> int {
    let p = decimal_parts(s);
    let e: int = if !p.has_exp {
        0
    } else if p.exp_negative {
        -(digits_val(p.exp_digits) as int)
    } else {
        digits_val(p.exp_digits) as int
    };
    e - p.frac_digits.len() + scale
}

/// `n * 10^k` rounded to the nearest integer, halves rounded up.
pub open spec fn round_scaled(n: nat, k: int) -> nat {
    if k >= 0 {
        n * pow10(k as nat)
    } else {
        (n + 5 * pow10((-k - 1) as nat)) / pow10((-k) as nat)
    }
}

/// The value of the literal times `10^scale`, rounded to the nearest
/// integer with halves rounded away from zero.
pub open spec fn scaled_value(s: Seq<char>, scale: nat) -> int {
    let m = round_scaled(digits_val(mantissa_digits(s)), scaled_exponent(s, scale));
    if decimal_parts(s).negative {
        -(m as int)
    } else {
        m as int
    }
}

/// The literal, scaled by `10^scale` and rounded, when `s` is a decimal
/// literal whose scaled value fits in an `i64`.
pub open spec fn scaled_decimal(s: Seq<char>, scale: nat) -> Option<i64> {
    if is_decimal_literal(s) && i64::MIN <= scaled_value(s, scale) <= i64::MAX {
        Some(scaled_value(s, scale) as i64)
    } else {
        None
    }
}

/// An integer clamped to the range of `i64`.
pub open spec fn saturate(v: int) -> i64 {
    if v > i64::MAX {
        i64::MAX
    } else if v < i64::MIN {
        i64::MIN
    } else {
        v as i64
    }
}

/// The value of a non-finite float spelling, as a float converts to `i64`:
/// an optional sign, then `inf`, `infinity` or `nan` in any ASCII case.
/// Infinities saturate (by their sign); not-a-number is zero.
pub open spec fn special_value(s: Seq<char>) -> Option<i64> {
    let body = s.skip(sign_len(s) as int);
    if eq_ignore_ascii(body, "inf"@) || eq_ignore_ascii(body, "infinity"@) {
        Some(
            if starts_negative(s) {
                i64::MIN
            } else {
                i64::MAX
            },
        )
    } else if eq_ignore_ascii(body, "nan"@) {
        Some(0)
    } else {
        None
    }
}

/// What a text reads as when it is taken as a float, scaled by
/// `10^scale`, rounded and converted to `i64`: a decimal literal gives its
/// rounded scaled value, saturated to the range of `i64`; a non-finite
/// spelling gives [`special_value`]; any other text is not a number.
pub open spec fn float_scaled(s: Seq<char>, scale: nat) -> Option<i64> {
    if is_decimal_literal(s) {
        Some(saturate(scaled_value(s, scale)))
    } else {
        special_value(s)
    }
}

/// An unsigned integer literal: an optional `+` then at least one digit.
pub open spec fn u64_literal(s: Seq<char>) -> Option<u64> {
    let body = if s.len() > 0 && s[0] == '+' {
        s.drop_first()
    } else {
        s
    };
    if body.len() > 0 && all_digits(body) && digits_val(body) <= u64::MAX {
        Some(digits_val(body) as u64)
    } else {
        None
    }
}


// ---------------------------------------------------------------------------
// Facts about digit strings and powers of ten.
// ---------------------------------------------------------------------------

proof fn lemma_pow10_positive(n: nat)
    ensures
        pow10(n) >= 1,
    decreases n,
{
    if n > 0 {
        lemma_pow10_positive((n - 1) as nat);
    }
}

proof fn lemma_pow10_monotone(a: nat, b: nat)
    requires
        a <= b,
    ensures
        pow10(a) <= pow10(b),
    decreases b,
{
    if a < b {
        lemma_pow10_monotone(a, (b - 1) as nat);
        lemma_pow10_positive((b - 1) as nat);
    }
}

proof fn lemma_pow10_19()
    ensures
        pow10(19) == 10_000_000_000_000_000_000nat,
{
    reveal_with_fuel(pow10, 20);
}

/// Appending digits multiplies the value of the front part by a power of ten.
proof fn lemma_digits_concat(a: Seq<char>, b: Seq<char>)
    ensures
        digits_val(a + b) == digits_val(a) * pow10(b.len()) + digits_val(b),
    decreases b.len(),
{
    if b.len() == 0 {
        assert(a + b =~= a);
        assert(pow10(0) == 1);
        assert(digits_val(b) == 0);
        assert(digits_val(a) * 1 == digits_val(a));
    } else {
        let bl = b.drop_last();
        assert((a + b).drop_last() =~= a + bl);
        assert((a + b).last() == b.last());
        lemma_digits_concat(a, bl);
        let x = digits_val(a);
        let y = digits_val(bl);
        let q = pow10(bl.len());
        let dl = digit_val(b.last());
        assert(digits_val(a + b) == digits_val(a + bl) * 10 + dl);
        assert(digits_val(b) == y * 10 + dl);
        assert(pow10(b.len()) == 10 * q);
        let pb = pow10(b.len());
        let vb = digits_val(b);
        let vab = digits_val(a + b);
        assert(vab == x * pb + vb) by (nonlinear_arith)
            requires
                vab == (x * q + y) * 10 + dl,
                vb == y * 10 + dl,
                pb == 10 * q,
        ;
    }
}

/// A string of `n` digits writes a number below `10^n`.
proof fn lemma_digits_bound(s: Seq<char>)
    requires
        all_digits(s),
    ensures
        digits_val(s) < pow10(s.len()),
    decreases s.len(),
{
    if s.len() > 0 {
        let t = s.drop_last();
        assert(is_digit(s[s.len() - 1]));
        assert(all_digits(t)) by {
            assert forall|i: int| 0 <= i < t.len() implies is_digit(#[trigger] t[i]) by {
                assert(t[i] == s[i]);
            }
        }
        lemma_digits_bound(t);
        assert(digits_val(t) * 10 + digit_val(s.last()) < pow10(t.len()) * 10) by (nonlinear_arith)
            requires
                digits_val(t) + 1 <= pow10(t.len()),
                digit_val(s.last()) < 10,
        ;
    }
}

/// The leading digit of a digit string bounds its value.
proof fn lemma_digits_leading(s: Seq<char>)
    requires
        all_digits(s),
        s.len() >= 1,
    ensures
        digit_val(s[0]) * pow10((s.len() - 1) as nat) <= digits_val(s),
        digits_val(s) < (digit_val(s[0]) + 1) * pow10((s.len() - 1) as nat),
{
    let a = s.take(1);
    let b = s.skip(1);
    assert(a + b =~= s);
    lemma_digits_concat(a, b);
    assert(a.drop_last() =~= Seq::<char>::empty());
    assert(digits_val(a.drop_last()) == 0);
    assert(a.last() == s[0]);
    assert(digits_val(a) == digit_val(s[0]));
    assert(all_digits(b)) by {
        assert forall|i: int| 0 <= i < b.len() implies is_digit(#[trigger] b[i]) by {
            assert(b[i] == s[i + 1]);
        }
    }
    lemma_digits_bound(b);
    assert(digits_val(s) < (digit_val(s[0]) + 1) * pow10(b.len())) by (nonlinear_arith)
        requires
            digits_val(s) == digit_val(s[0]) * pow10(b.len()) + digits_val(b),
            digits_val(b) < pow10(b.len()),
    ;
}

/// A prefix of a digit string writes a number no larger than the whole.
proof fn lemma_digits_prefix_le(s: Seq<char>, i: int)
    requires
        0 <= i <= s.len(),
    ensures
        digits_val(s.take(i)) <= digits_val(s),
{
    let a = s.take(i);
    let b = s.skip(i);
    assert(a + b =~= s);
    lemma_digits_concat(a, b);
    lemma_pow10_positive(b.len());
    assert(digits_val(a) <= digits_val(a) * pow10(b.len())) by (nonlinear_arith)
        requires
            pow10(b.len()) >= 1,
    ;
}

/// Rounding `n * 10^-m` to the nearest integer, halves up, keeps the leading
/// digits and adds one exactly when the first dropped digit is 5 or more.
proof fn lemma_round_by_digit(d: Seq<char>, m: nat)
    requires
        all_digits(d),
        1 <= m <= d.len(),
    ensures
        round_scaled(digits_val(d), -(m as int)) == digits_val(d.take(d.len() - m)) + (if digit_val(
            d[d.len() - m],
        ) >= 5 {
            1nat
        } else {
            0nat
        }),
{
    let a = d.take(d.len() - m);
    let t = d.skip(d.len() - m);
    assert(a + t =~= d);
    lemma_digits_concat(a, t);
    assert(all_digits(t)) by {
        assert forall|i: int| 0 <= i < t.len() implies is_digit(#[trigger] t[i]) by {
            assert(t[i] == d[d.len() - m + i]);
        }
    }
    lemma_digits_leading(t);
    assert(t[0] == d[d.len() - m]);
    let h = digits_val(a);
    let tv = digits_val(t);
    let q = pow10((m - 1) as nat);
    let p = pow10(m);
    assert(p == 10 * q);
    lemma_pow10_positive((m - 1) as nat);
    let dv = digit_val(t[0]);
    assert(dv < 10);
    let n = digits_val(d);
    assert(n == h * p + tv);
    if dv >= 5 {
        assert(tv >= 5 * q) by (nonlinear_arith)
            requires
                dv * q <= tv,
                dv >= 5,
                q >= 1,
        ;
        assert(tv < 10 * q) by (nonlinear_arith)
            requires
                tv < (dv + 1) * q,
                dv < 10,
                q >= 1,
        ;
        assert(n + 5 * q == (h + 1) * p + (tv + 5 * q - p)) by (nonlinear_arith)
            requires
                n == h * p + tv,
                p == 10 * q,
        ;
        vstd::arithmetic::div_mod::lemma_fundamental_div_mod_converse(
            (n + 5 * q) as int,
            p as int,
            (h + 1) as int,
            (tv + 5 * q - p) as int,
        );
    } else {
        assert(tv < 5 * q) by (nonlinear_arith)
            requires
                tv < (dv + 1) * q,
                dv < 5,
                q >= 1,
        ;
        assert(n + 5 * q == h * p + (tv + 5 * q)) by (nonlinear_arith)
            requires
                n == h * p + tv,
        ;
        vstd::arithmetic::div_mod::lemma_fundamental_div_mod_converse(
            (n + 5 * q) as int,
            p as int,
            h as int,
            (tv + 5 * q) as int,
        );
    }
}

/// Scaling down by more places than there are digits rounds to zero.
proof fn lemma_round_below_digits(d: Seq<char>, m: nat)
    requires
        all_digits(d),
        m > d.len(),
    ensures
        round_scaled(digits_val(d), -(m as int)) == 0,
{
    lemma_digits_bound(d);
    lemma_pow10_monotone(d.len(), (m - 1) as nat);
    let q = pow10((m - 1) as nat);
    let p = pow10(m);
    assert(p == 10 * q);
    let n = digits_val(d);
    vstd::arithmetic::div_mod::lemma_fundamental_div_mod_converse((n + 5 * q) as int, p as int, 0, (n + 5 * q) as int);
}

/// A nonzero digit string scaled up by 19 or more places exceeds `2^63`.
proof fn lemma_round_huge(n: nat, k: int)
    requires
        n >= 1,
        k >= 19,
    ensures
        round_scaled(n, k) > 0x8000_0000_0000_0000,
{
    lemma_pow10_monotone(19, k as nat);
    lemma_pow10_19();
    assert(n * pow10(k as nat) >= pow10(k as nat)) by (nonlinear_arith)
        requires
            n >= 1,
            pow10(k as nat) >= 0,
    ;
}

/// `first_of` is the first marked position.
proof fn lemma_first_of(s: Seq<char>, a: char, b: char, i: int)
    requires
        0 <= i <= s.len(),
        forall|j: int| 0 <= j < i ==> s[j] != a && s[j] != b,
        i == s.len() || s[i] == a || s[i] == b,
    ensures
        first_of(s, a, b) == i,
    decreases i,
{
    if i > 0 {
        let t = s.drop_first();
        assert forall|j: int| 0 <= j < i - 1 implies t[j] != a && t[j] != b by {
            assert(t[j] == s[j + 1]);
        }
        if i < s.len() {
            assert(t[i - 1] == s[i]);
        }
        lemma_first_of(t, a, b, i - 1);
    }
}

// ---------------------------------------------------------------------------
// Executable reading.
// ---------------------------------------------------------------------------

/// The characters of a string.
pub fn chars_of(s: &str) -> (r: Vec<char>)
    ensures
        r@ == s@,
{
    let mut out: Vec<char> = Vec::new();
    for c in it: s.chars()
        invariant
            out@ == it.seq().take(it.index() as int),
    {
        out.push(c);
    }
    out
}

/// The first position in `[from, to)` holding `a` or `b`, or `to`.
fn find_first(s: &Vec<char>, from: usize, to: usize, a: char, b: char) -> (i: usize)
    requires
        from <= to <= s.len(),
    ensures
        from <= i <= to,
        i - from == first_of(s@.subrange(from as int, to as int), a, b),
{
    let mut i = from;
    while i < to && s[i] != a && s[i] != b
        invariant
            from <= i <= to <= s.len(),
            forall|j: int| from <= j < i ==> s@[j] != a && s@[j] != b,
        decreases to - i,
    {
        i = i + 1;
    }
    proof {
        let t = s@.subrange(from as int, to as int);
        assert forall|j: int| 0 <= j < i - from implies t[j] != a && t[j] != b by {
            assert(t[j] == s@[from + j]);
        }
        if i < to {
            assert(t[i - from] == s@[i as int]);
        }
        lemma_first_of(t, a, b, i - from);
    }
    i
}

/// Whether `s[from..to]` holds only digits.
fn range_all_digits(s: &Vec<char>, from: usize, to: usize) -> (r: bool)
    requires
        from <= to <= s.len(),
    ensures
        r == all_digits(s@.subrange(from as int, to as int)),
{
    let mut i = from;
    while i < to
        invariant
            from <= i <= to <= s.len(),
            forall|j: int| from <= j < i ==> is_digit(s@[j]),
        decreases to - i,
    {
        if !('0' <= s[i] && s[i] <= '9') {
            proof {
                let t = s@.subrange(from as int, to as int);
                assert(t[i - from] == s@[i as int]);
            }
            return false;
        }
        i = i + 1;
    }
    proof {
        let t = s@.subrange(from as int, to as int);
        assert forall|j: int| 0 <= j < t.len() implies is_digit(#[trigger] t[j]) by {
            assert(t[j] == s@[from + j]);
        }
    }
    true
}

/// The value of the first `upto` digits of `d`, when it is at most `cap`.
fn digits_prefix_value(d: &Vec<char>, upto: usize, cap: u128) -> (r: Option<u128>)
    requires
        upto <= d.len(),
        all_digits(d@),
        cap <= 0x1_0000_0000_0000_0000_0000,
    ensures
        digits_val(d@.take(upto as int)) <= cap ==> r == Some(digits_val(d@.take(upto as int)) as u128),
        digits_val(d@.take(upto as int)) > cap ==> r is None,
{
    let mut acc: u128 = 0;
    let mut i: usize = 0;
    proof {
        assert(d@.take(0) =~= Seq::<char>::empty());
    }
    while i < upto
        invariant
            i <= upto <= d.len(),
            all_digits(d@),
            cap <= 0x1_0000_0000_0000_0000_0000,
            acc == digits_val(d@.take(i as int)),
            acc <= cap,
        decreases upto - i,
    {
        let c = d[i];
        proof {
            assert(is_digit(d@[i as int]));
            assert(d@.take(i + 1).drop_last() =~= d@.take(i as int));
            assert(d@.take(i + 1).last() == c);
        }
        let dv = (c as u32 - '0' as u32) as u128;
        acc = acc * 10 + dv;
        i = i + 1;
        if acc > cap {
            proof {
                let t = d@.take(upto as int);
                assert(t.take(i as int) =~= d@.take(i as int));
                lemma_digits_prefix_le(t, i as int);
            }
            return None;
        }
    }
    Some(acc)
}

/// Reads the exponent digits `s[from..to]`, saturating at `cap`.
fn exponent_value(s: &Vec<char>, from: usize, to: usize, cap: u128) -> (r: u128)
    requires
        from <= to <= s.len(),
        all_digits(s@.subrange(from as int, to as int)),
        cap <= 0x1_0000_0000_0000_0000_0000,
    ensures
        r == if digits_val(s@.subrange(from as int, to as int)) <= cap {
            digits_val(s@.subrange(from as int, to as int))
        } else {
            cap as nat
        },
{
    let mut acc: u128 = 0;
    let mut i = from;
    let ghost t = s@.subrange(from as int, to as int);
    proof {
        assert(t.take(0) =~= Seq::<char>::empty());
    }
    while i < to
        invariant
            from <= i <= to <= s.len(),
            t == s@.subrange(from as int, to as int),
            all_digits(t),
            cap <= 0x1_0000_0000_0000_0000_0000,
            acc == if digits_val(t.take(i - from)) <= cap {
                digits_val(t.take(i - from))
            } else {
                cap as nat
            },
        decreases to - i,
    {
        let c = s[i];
        proof {
            assert(t[i - from] == c);
            assert(is_digit(t[i - from]));
            assert(t.take(i + 1 - from).drop_last() =~= t.take(i - from));
            assert(t.take(i + 1 - from).last() == c);
        }
        let dv = (c as u32 - '0' as u32) as u128;
        let next = acc * 10 + dv;
        acc = if next > cap {
            cap
        } else {
            next
        };
        i = i + 1;
    }
    proof {
        assert(t.take(to - from) =~= t);
    }
    acc
}

/// `round_scaled(digits, k)` when it is at most `lim`, else `None`.
fn scaled_magnitude(digits: &Vec<char>, k: i128, lim: u128) -> (r: Option<u128>)
    requires
        all_digits(digits@),
        -0x1_0000_0000_0000_0000_0000 <= k <= 0x1_0000_0000_0000_0000_0000,
        lim == 0x8000_0000_0000_0000,
    ensures
        round_scaled(digits_val(digits@), k as int) <= lim ==> r == Some(
            round_scaled(digits_val(digits@), k as int) as u128,
        ),
        round_scaled(digits_val(digits@), k as int) > lim ==> r is None,
{
    let ghost n = digits_val(digits@);
    let dlen = digits.len();
    if k >= 0 {
        let all = digits_prefix_value(digits, dlen, lim);
        proof {
            assert(digits@.take(dlen as int) =~= digits@);
            lemma_pow10_positive(k as nat);
            assert(n * pow10(k as nat) >= n) by (nonlinear_arith)
                requires
                    pow10(k as nat) >= 1,
            ;
        }
        match all {
            None => None,
            Some(v) => {
                let mut m: u128 = v;
                let mut t: i128 = 0;
                proof {
                    assert(pow10(0) == 1);
                    assert(n * 1 == n);
                }
                while t < k
                    invariant
                        0 <= t <= k,
                        n == digits_val(digits@),
                        m == n * pow10(t as nat),
                        m <= lim,
                        lim == 0x8000_0000_0000_0000,
                    decreases k - t,
                {
                    m = m * 10;
                    t = t + 1;
                    proof {
                        assert(pow10(t as nat) == 10 * pow10((t - 1) as nat));
                        assert(m == n * pow10(t as nat)) by (nonlinear_arith)
                            requires
                                m == (n * pow10((t - 1) as nat)) * 10,
                                pow10(t as nat) == 10 * pow10((t - 1) as nat),
                        ;
                    }
                    if m > lim {
                        proof {
                            lemma_pow10_monotone(t as nat, k as nat);
                            assert(n * pow10(t as nat) <= n * pow10(k as nat)) by (nonlinear_arith)
                                requires
                                    pow10(t as nat) <= pow10(k as nat),
                            ;
                        }
                        return None;
                    }
                }
                Some(m)
            },
        }
    } else {
        let mneg: i128 = -k;
        if mneg > dlen as i128 {
            proof {
                lemma_round_below_digits(digits@, mneg as nat);
            }
            Some(0)
        } else {
            let keep: usize = dlen - mneg as usize;
            proof {
                lemma_round_by_digit(digits@, mneg as nat);
            }
            let head = digits_prefix_value(digits, keep, lim);
            match head {
                None => None,
                Some(h) => {
                    let c = digits[keep];
                    let up: u128 = if c >= '5' {
                        1
                    } else {
                        0
                    };
                    proof {
                        assert(digit_val(digits@[keep as int]) >= 5 <==> c >= '5');
                    }
                    if h + up > lim {
                        None
                    } else {
                        Some(h + up)
                    }
                },
            }
        }
    }
}

/// The rounded magnitude when the exponent is past any bound that matters:
/// `k` is at least 19 above zero, or below minus the number of digits.
fn saturated_magnitude(digits: &Vec<char>, exp_negative: bool, k: Ghost<int>, lim: u128) -> (r:
    Option<u128>)
    requires
        all_digits(digits@),
        lim == 0x8000_0000_0000_0000,
        exp_negative ==> -k@ > digits@.len(),
        !exp_negative ==> k@ >= 19,
    ensures
        round_scaled(digits_val(digits@), k@) <= lim ==> r == Some(
            round_scaled(digits_val(digits@), k@) as u128,
        ),
        round_scaled(digits_val(digits@), k@) > lim ==> r is None,
{
    let ghost n = digits_val(digits@);
    if exp_negative {
        proof {
            lemma_round_below_digits(digits@, (-k@) as nat);
        }
        return Some(0);
    }
    let dlen = digits.len();
    let all = digits_prefix_value(digits, dlen, lim);
    proof {
        assert(digits@.take(dlen as int) =~= digits@);
    }
    match all {
        Some(v) => {
            if v != 0 {
                proof {
                    lemma_round_huge(n, k@);
                }
                None
            } else {
                proof {
                    assert(round_scaled(0, k@) == 0 * pow10(k@ as nat));
                }
                Some(0)
            }
        },
        None => {
            proof {
                lemma_round_huge(n, k@);
            }
            None
        },
    }
}

/// Reads a decimal literal scaled by `10^scale` and rounded to the nearest
/// integer, halves away from zero: `Some` exactly when the text is a
/// decimal literal whose scaled value fits in an `i64`.
#[verifier::rlimit(100)]
pub fn parse_scaled_decimal(s: &Vec<char>, scale: u32) -> (r: Option<i64>)
    requires
        scale <= 18,
    ensures
        r == scaled_decimal(s@, scale as nat),
{
    let len = s.len();
    let ghost p = decimal_parts(s@);
    let sl: usize = if len > 0 && (s[0] == '+' || s[0] == '-') {
        1
    } else {
        0
    };
    let negative = len > 0 && s[0] == '-';
    let e = find_first(s, sl, len, 'e', 'E');
    let d = find_first(s, sl, e, '.', '.');
    let fs = if d < e {
        d + 1
    } else {
        e
    };
    proof {
        let body = s@.skip(sl as int);
        assert(body =~= s@.subrange(sl as int, len as int));
        let mant = body.take(e - sl);
        assert(mant =~= s@.subrange(sl as int, e as int));
        assert(p.int_digits =~= s@.subrange(sl as int, d as int));
        assert(p.frac_digits =~= s@.subrange(fs as int, e as int));
        assert(p.has_exp == (e < len));
    }
    if !range_all_digits(s, sl, d) || !range_all_digits(s, fs, e) || (d - sl) + (e - fs) == 0 {
        return None;
    }
    // The exponent, saturated at a bound past which every outcome is fixed.

    let cap: u128 = len as u128 + 64;
    let mut exp_val: u128 = 0;
    let mut exp_negative = false;
    if e < len {
        let es: usize = if e + 1 < len && (s[e + 1] == '+' || s[e + 1] == '-') {
            e + 2
        } else {
            e + 1
        };
        exp_negative = e + 1 < len && s[e + 1] == '-';
        proof {
            let expo = s@.skip(sl as int).skip(e - sl);
            assert(expo =~= s@.subrange(e as int, len as int));
            let eb = expo.skip(1);
            assert(eb =~= s@.subrange(e + 1, len as int));
            assert(p.exp_digits =~= s@.subrange(es as int, len as int));
            assert(p.exp_negative == exp_negative);
        }
        if es == len || !range_all_digits(s, es, len) {
            return None;
        }
        exp_val = exponent_value(s, es, len, cap);
    }
    assert(is_decimal_literal(s@));
    // The mantissa digits, integer part then fraction.

    let mut digits: Vec<char> = Vec::new();
    let mut i = sl;
    while i < d
        invariant
            sl <= i <= d <= s.len(),
            digits@ == s@.subrange(sl as int, i as int),
        decreases d - i,
    {
        digits.push(s[i]);
        i = i + 1;
        proof {
            assert(digits@ =~= s@.subrange(sl as int, i as int));
        }
    }
    let mut j = fs;
    while j < e
        invariant
            fs <= j <= e <= s.len(),
            sl <= d <= s.len(),
            digits@ == s@.subrange(sl as int, d as int) + s@.subrange(fs as int, j as int),
        decreases e - j,
    {
        digits.push(s[j]);
        j = j + 1;
        proof {
            assert(digits@ =~= s@.subrange(sl as int, d as int) + s@.subrange(fs as int, j as int));
        }
    }
    proof {
        assert(digits@ =~= mantissa_digits(s@));
        assert(all_digits(digits@)) by {
            assert forall|k: int| 0 <= k < digits@.len() implies is_digit(#[trigger] digits@[k]) by {
                if k < p.int_digits.len() {
                    assert(digits@[k] == p.int_digits[k]);
                } else {
                    assert(digits@[k] == p.frac_digits[k - p.int_digits.len()]);
                }
            }
        }
    }
    let lim: u128 = 0x8000_0000_0000_0000;
    let frac_len = (e - fs) as i128;
    let magnitude: u128;
    if exp_val == cap {
        // Past the bound, a positive exponent leaves only zero in range and a
        // negative one rounds everything to zero.
        proof {
            assert(digits_val(p.exp_digits) >= cap);
            assert(p.frac_digits.len() <= s@.len());
        }
        match saturated_magnitude(&digits, exp_negative, Ghost(scaled_exponent(s@, scale as nat)), lim) {
            Some(m) => {
                magnitude = m;
            },
            None => {
                return None;
            },
        }
    } else {
        let ev: i128 = if exp_negative {
            -(exp_val as i128)
        } else {
            exp_val as i128
        };
        let k: i128 = ev - frac_len + scale as i128;
        assert(k == scaled_exponent(s@, scale as nat));
        match scaled_magnitude(&digits, k, lim) {
            Some(m) => {
                magnitude = m;
            },
            None => {
                return None;
            },
        }
    }
    if magnitude > lim || (!negative && magnitude == lim) {
        return None;
    }
    if negative {
        Some((0 - magnitude as i128) as i64)
    } else {
        Some(magnitude as i64)
    }
}

/// Whether `s[from..]` equals `word` ignoring ASCII case.
fn rest_matches(s: &Vec<char>, from: usize, word: &str) -> (r: bool)
    requires
        from <= s.len(),
    ensures
        r == eq_ignore_ascii(s@.skip(from as int), word@),
{
    let w = chars_of(word);
    let n = s.len() - from;
    if n != w.len() {
        return false;
    }
    let mut i: usize = 0;
    while i < n
        invariant
            i <= n,
            n == w@.len(),
            from + n == s.len(),
            w@ == word@,
            forall|j: int| 0 <= j < i ==> ascii_lower(s@.skip(from as int)[j]) == ascii_lower(w@[j]),
        decreases n - i,
    {
        let a = s[from + i];
        let b = w[i];
        let la: u32 = if 'A' <= a && a <= 'Z' {
            a as u32 + 32
        } else {
            a as u32
        };
        let lb: u32 = if 'A' <= b && b <= 'Z' {
            b as u32 + 32
        } else {
            b as u32
        };
        assert(s@.skip(from as int)[i as int] == a);
        if la != lb {
            return false;
        }
        i = i + 1;
    }
    true
}

/// Whether the text is a decimal literal (see [`is_decimal_literal`]).
fn is_decimal_literal_exec(s: &Vec<char>) -> (r: bool)
    ensures
        r == is_decimal_literal(s@),
{
    let len = s.len();
    let ghost p = decimal_parts(s@);
    let sl: usize = if len > 0 && (s[0] == '+' || s[0] == '-') {
        1
    } else {
        0
    };
    let e = find_first(s, sl, len, 'e', 'E');
    let d = find_first(s, sl, e, '.', '.');
    let fs = if d < e {
        d + 1
    } else {
        e
    };
    proof {
        let body = s@.skip(sl as int);
        assert(body =~= s@.subrange(sl as int, len as int));
        let mant = body.take(e - sl);
        assert(mant =~= s@.subrange(sl as int, e as int));
        assert(p.int_digits =~= s@.subrange(sl as int, d as int));
        assert(p.frac_digits =~= s@.subrange(fs as int, e as int));
        assert(p.has_exp == (e < len));
    }
    if !range_all_digits(s, sl, d) || !range_all_digits(s, fs, e) || (d - sl) + (e - fs) == 0 {
        return false;
    }
    if e < len {
        let es: usize = if e + 1 < len && (s[e + 1] == '+' || s[e + 1] == '-') {
            e + 2
        } else {
            e + 1
        };
        proof {
            let expo = s@.skip(sl as int).skip(e - sl);
            assert(expo =~= s@.subrange(e as int, len as int));
            let eb = expo.skip(1);
            assert(eb =~= s@.subrange(e + 1, len as int));
            assert(p.exp_digits =~= s@.subrange(es as int, len as int));
        }
        if es == len || !range_all_digits(s, es, len) {
            return false;
        }
    }
    true
}

/// Reads a text as a float would be read, then scales it by `10^scale`,
/// rounds it and converts it to `i64` (see [`float_scaled`]): decimal
/// literals are read exactly, values beyond the range of `i64` saturate,
/// and `inf`, `infinity` and `nan` (any case, optionally signed) are read.
pub fn parse_scaled_float(s: &Vec<char>, scale: u32) -> (r: Option<i64>)
    requires
        scale <= 18,
    ensures
        r == float_scaled(s@, scale as nat),
{
    match parse_scaled_decimal(s, scale) {
        Some(v) => Some(v),
        None => {
            if is_decimal_literal_exec(s) {
                let negative = s.len() > 0 && s[0] == '-';
                proof {
                    let m = round_scaled(digits_val(mantissa_digits(s@)), scaled_exponent(s@, scale as nat));
                    assert(decimal_parts(s@).negative == negative);
                    assert(scaled_value(s@, scale as nat) == if negative {
                        -(m as int)
                    } else {
                        m as int
                    });
                }
                if negative {
                    Some(i64::MIN)
                } else {
                    Some(i64::MAX)
                }
            } else {
                let sl: usize = if s.len() > 0 && (s[0] == '+' || s[0] == '-') {
                    1
                } else {
                    0
                };
                let negative = s.len() > 0 && s[0] == '-';
                if rest_matches(s, sl, "inf") || rest_matches(s, sl, "infinity") {
                    if negative {
                        Some(i64::MIN)
                    } else {
                        Some(i64::MAX)
                    }
                } else if rest_matches(s, sl, "nan") {
                    Some(0)
                } else {
                    None
                }
            }
        },
    }
}

/// Reads an unsigned integer literal (an optional `+`, then digits) that
/// fits in a `u64`.
pub fn parse_u64_literal(s: &Vec<char>) -> (r: Option<u64>)
    ensures
        r == u64_literal(s@),
{
    let start: usize = if s.len() > 0 && s[0] == '+' {
        1
    } else {
        0
    };
    proof {
        if start == 1 {
            assert(s@.drop_first() =~= s@.subrange(1, s@.len() as int));
        } else {
            assert(s@ =~= s@.subrange(0, s@.len() as int));
        }
    }
    if start == s.len() || !range_all_digits(s, start, s.len()) {
        return None;
    }
    let mut body: Vec<char> = Vec::new();
    let mut i = start;
    while i < s.len()
        invariant
            start <= i <= s.len(),
            body@ == s@.subrange(start as int, i as int),
        decreases s.len() - i,
    {
        body.push(s[i]);
        i = i + 1;
        proof {
            assert(body@ =~= s@.subrange(start as int, i as int));
        }
    }
    let n = body.len();
    let v = digits_prefix_value(&body, n, 0xFFFF_FFFF_FFFF_FFFF);
    proof {
        assert(body@.take(n as int) =~= body@);
    }
    match v {
        Some(x) => Some(x as u64),
        None => None,
    }
}

} // verus!
