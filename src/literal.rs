use vstd::prelude::*;
use crate::number::{Number, SCALE};
use vstd::arithmetic::div_mod::lemma_div_denominator;

verus! {

/// The largest whole number that a `Number` holds.
pub const MAX_WHOLE: u64 = 9_223_372_036_854;

/// A float literal may hold at most this value in its digits, read as one
/// whole number with the decimal point removed.
pub const MAX_MANTISSA: u128 = 1_000_000_000_000_000_000_000_000_000_000;

/// A float literal's exponent may be at most this large in magnitude.
pub const MAX_EXPONENT: u64 = 9999;

pub open spec fn is_digit(c: u8) -> bool {
    48 <= c <= 57
}

/// The value of a run of decimal digits.
pub open spec fn digits_val(b: Seq<u8>) -> int
    decreases b.len(),
{
    if b.len() == 0 {
        0
    } else {
        digits_val(b.drop_last()) * 10 + (b.last() - 48)
    }
}

/// How many digits follow from index `i` on.
pub open spec fn digit_run(b: Seq<u8>, i: int) -> int
    decreases b.len() - i,
{
    if 0 <= i < b.len() && is_digit(b[i]) {
        1 + digit_run(b, i + 1)
    } else {
        0
    }
}

pub open spec fn pow10(n: nat) -> int
    decreases n,
{
    if n == 0 {
        1
    } else {
        10 * pow10((n - 1) as nat)
    }
}

/// The units of an integer literal's text, if it is a run of digits whose
/// value fits a `Number`.
pub open spec fn int_units(b: Seq<u8>) -> Option<int> {
    if b.len() > 0 && digit_run(b, 0) == b.len() && digits_val(b) <= MAX_WHOLE {
        Some(digits_val(b) * SCALE)
    } else {
        None
    }
}

/// The exponent of a float literal whose digits end at `at`: zero when
/// nothing follows, else `e` or `E`, an optional sign and digits up to the end.
pub open spec fn exponent_of(b: Seq<u8>, at: int) -> Option<int> {
    if at == b.len() {
        Some(0)
    } else if b[at] == 101u8 || b[at] == 69u8 {
        let signed = at + 1 < b.len() && (b[at + 1] == 45u8 || b[at + 1] == 43u8);
        let ds = if signed { at + 2 } else { at + 1 };
        let n = digit_run(b, ds);
        let v = digits_val(b.subrange(ds, b.len() as int));
        if n > 0 && ds + n == b.len() && v <= MAX_EXPONENT {
            Some(if signed && b[at + 1] == 45u8 { -v } else { v })
        } else {
            None
        }
    } else {
        None
    }
}

/// `m * 10^k`, rounded toward zero when `k` is negative.
pub open spec fn scaled(m: int, k: int) -> int {
    if k >= 0 {
        m * pow10(k as nat)
    } else {
        m / pow10((-k) as nat)
    }
}

/// The units of a float literal's text: digits, optionally a point and
/// digits (at least one digit in all, and at least one after a point), then
/// optionally an exponent. The value is cut to six decimal places; `None`
/// when the text has another shape or the value does not fit.
pub open spec fn float_units(b: Seq<u8>) -> Option<int> {
    let a = digit_run(b, 0);
    let has_dot = a < b.len() && b[a] == 46u8;
    let f = if has_dot { digit_run(b, a + 1) } else { 0 };
    let end = if has_dot { a + 1 + f } else { a };
    let frac = if has_dot { b.subrange(a + 1, end) } else { Seq::empty() };
    let m = digits_val(b.subrange(0, a) + frac);
    if (a > 0 || f > 0) && (!has_dot || f > 0) && m <= MAX_MANTISSA {
        match exponent_of(b, end) {
            Some(e) => {
                let u = scaled(m, 6 - f + e);
                if u <= i64::MAX {
                    Some(u)
                } else {
                    None
                }
            },
            None => None,
        }
    } else {
        None
    }
}

proof fn lemma_digit_run_bounds(b: Seq<u8>, i: int)
    requires
        0 <= i <= b.len(),
    ensures
        0 <= digit_run(b, i) <= b.len() - i,
        forall|j: int| i <= j < i + digit_run(b, i) ==> is_digit(#[trigger] b[j]),
        i + digit_run(b, i) < b.len() ==> !is_digit(b[i + digit_run(b, i)]),
    decreases b.len() - i,
{
    if i < b.len() && is_digit(b[i]) {
        lemma_digit_run_bounds(b, i + 1);
    }
}

proof fn lemma_digits_val_nonneg(b: Seq<u8>)
    requires
        forall|j: int| 0 <= j < b.len() ==> is_digit(#[trigger] b[j]),
    ensures
        digits_val(b) >= 0,
    decreases b.len(),
{
    if b.len() > 0 {
        lemma_digits_val_nonneg(b.drop_last());
    }
}

proof fn lemma_pow10_positive(n: nat)
    ensures
        pow10(n) >= 1,
    decreases n,
{
    if n > 0 {
        lemma_pow10_positive((n - 1) as nat);
    }
}

/// Reads `b[from..to]` as digits: `None` once the value passes `limit`.
fn read_digits(b: &[u8], from: usize, to: usize, start: u128, limit: u128) -> (r: Option<u128>)
    requires
        from <= to <= b@.len(),
        forall|j: int| from <= j < to ==> is_digit(#[trigger] b@[j]),
        limit < 0x1000_0000_0000_0000_0000_0000_0000_0000,
        start <= limit,
    ensures
        ({
            let v = start * pow10((to - from) as nat) + digits_val(b@.subrange(from as int, to as int));
            match r {
                Some(x) => x == v && x <= limit,
                None => v > limit,
            }
        }),
{
    let mut v: u128 = start;
    let mut i: usize = from;
    assert(b@.subrange(from as int, from as int) =~= Seq::<u8>::empty());
    while i < to
        invariant
            from <= i <= to <= b@.len(),
            forall|j: int| from <= j < to ==> is_digit(#[trigger] b@[j]),
            limit < 0x1000_0000_0000_0000_0000_0000_0000_0000,
            v <= limit,
            v == start * pow10((i - from) as nat) + digits_val(b@.subrange(from as int, i as int)),
        decreases to - i,
    {
        let d = (b[i] - 48u8) as u128;
        let ghost prev = b@.subrange(from as int, i as int);
        assert(b@.subrange(from as int, i + 1).drop_last() =~= prev);
        assert(pow10((i + 1 - from) as nat) == 10 * pow10((i - from) as nat));
        assert(start * pow10((i + 1 - from) as nat) == (start * pow10((i - from) as nat)) * 10) by (nonlinear_arith)
            requires pow10((i + 1 - from) as nat) == 10 * pow10((i - from) as nat);
        v = v * 10 + d;
        i = i + 1;
        if v > limit {
            proof {
                lemma_rest_not_smaller(b@, from as int, i as int, to as int, start);
            }
            return None;
        }
    }
    Some(v)
}

proof fn lemma_rest_not_smaller(b: Seq<u8>, from: int, i: int, to: int, start: u128)
    requires
        0 <= from <= i <= to <= b.len(),
        forall|j: int| from <= j < to ==> is_digit(#[trigger] b[j]),
    ensures
        start * pow10((i - from) as nat) + digits_val(b.subrange(from, i))
            <= start * pow10((to - from) as nat) + digits_val(b.subrange(from, to)),
    decreases to - i,
{
    if i < to {
        lemma_rest_not_smaller(b, from, i + 1, to, start);
        let x = start * pow10((i - from) as nat) + digits_val(b.subrange(from, i));
        assert(b.subrange(from, i + 1).drop_last() =~= b.subrange(from, i));
        assert(pow10((i + 1 - from) as nat) == 10 * pow10((i - from) as nat));
        let p = pow10((i - from) as nat);
        lemma_pow10_positive((i - from) as nat);
        assert(0 <= b[i] - 48 <= 9);
        let sub = b.subrange(from, i);
        assert forall|j: int| 0 <= j < sub.len() implies is_digit(#[trigger] sub[j]) by {
            assert(sub[j] == b[from + j]);
        }
        lemma_digits_val_nonneg(sub);
        assert(x <= start * pow10((i + 1 - from) as nat) + digits_val(b.subrange(from, i + 1)))
            by (nonlinear_arith)
            requires
                x == start * p + digits_val(sub),
                pow10((i + 1 - from) as nat) == 10 * p,
                digits_val(b.subrange(from, i + 1)) == digits_val(sub) * 10 + (b[i] - 48),
                0 <= b[i] - 48,
                digits_val(sub) >= 0,
                p >= 1,
        ;
    }
}

proof fn lemma_digits_val_concat(x: Seq<u8>, y: Seq<u8>)
    ensures
        digits_val(x + y) == digits_val(x) * pow10(y.len()) + digits_val(y),
    decreases y.len(),
{
    if y.len() > 0 {
        assert((x + y).drop_last() =~= x + y.drop_last());
        lemma_digits_val_concat(x, y.drop_last());
        assert(pow10(y.len()) == 10 * pow10((y.len() - 1) as nat));
        assert(digits_val(x) * pow10(y.len()) == (digits_val(x) * pow10((y.len() - 1) as nat)) * 10)
            by (nonlinear_arith)
            requires pow10(y.len()) == 10 * pow10((y.len() - 1) as nat);
    }
}

proof fn lemma_pow10_split(a: nat, b: nat)
    ensures
        pow10(a + b) == pow10(a) * pow10(b),
    decreases b,
{
    if b > 0 {
        lemma_pow10_split(a, (b - 1) as nat);
        assert(pow10(a + b) == 10 * pow10((a + b - 1) as nat));
        assert(pow10(a) * pow10(b) == pow10(a) * (10 * pow10((b - 1) as nat)));
        assert(pow10(a) * (10 * pow10((b - 1) as nat)) == 10 * (pow10(a) * pow10((b - 1) as nat)))
            by (nonlinear_arith);
    }
}

/// `digit_run(b, from)`, counted.
fn count_digits(b: &[u8], from: usize) -> (r: usize)
    requires
        from <= b@.len(),
    ensures
        r == digit_run(b@, from as int),
        from + r <= b@.len(),
{
    let mut i: usize = from;
    proof {
        lemma_digit_run_bounds(b@, from as int);
    }
    while i < b.len() && 48u8 <= b[i] && b[i] <= 57u8
        invariant
            from <= i <= b@.len(),
            digit_run(b@, from as int) == (i - from) + digit_run(b@, i as int),
        decreases b@.len() - i,
    {
        i = i + 1;
    }
    i - from
}

/// The value of an integer literal's text, by `int_units`.
pub fn parse_int(b: &[u8]) -> (r: Option<Number>)
    ensures
        match int_units(b@) {
            Some(u) => r == Some(Number { units: u as i64 }),
            None => r is None,
        },
{
    let n = count_digits(b, 0);
    if n == 0 || n != b.len() {
        return None;
    }
    proof {
        lemma_digit_run_bounds(b@, 0);
        assert(b@.subrange(0, b@.len() as int) =~= b@);
    }
    match read_digits(b, 0, n, 0, MAX_WHOLE as u128) {
        Some(v) => Some(Number { units: v as i64 * SCALE }),
        None => None,
    }
}

/// `m * 10^k` as `scaled` gives it, or `None` when that exceeds `i64::MAX`.
fn scale_mantissa(m: u128, k: i128) -> (r: Option<i64>)
    requires
        m <= MAX_MANTISSA,
        k > -0x1_0000_0000_0000_0000_0000,
    ensures
        match r {
            Some(u) => u as int == scaled(m as int, k as int),
            None => scaled(m as int, k as int) > i64::MAX,
        },
{
    let mut acc: u128 = m;
    let mut i: u128 = 0;
    if k >= 0 {
        if acc > i64::MAX as u128 {
            proof {
                lemma_pow10_positive(k as nat);
                assert(m * pow10(k as nat) >= m) by (nonlinear_arith)
                    requires pow10(k as nat) >= 1, m >= 0;
            }
            return None;
        }
        while i < k as u128
            invariant
                0 <= k,
                i <= k,
                acc <= i64::MAX,
                acc == m * pow10(i as nat),
            decreases k - i,
        {
            proof {
                assert(pow10((i + 1) as nat) == 10 * pow10(i as nat));
                assert(m * pow10((i + 1) as nat) == (m * pow10(i as nat)) * 10) by (nonlinear_arith)
                    requires pow10((i + 1) as nat) == 10 * pow10(i as nat);
            }
            acc = acc * 10;
            i = i + 1;
            if acc > i64::MAX as u128 {
                proof {
                    let rest = (k - i) as nat;
                    lemma_pow10_split(i as nat, rest);
                    lemma_pow10_positive(rest);
                    assert((i as nat + rest) as nat == k as nat);
                    lemma_pow10_positive(i as nat);
                    assert(m * pow10(k as nat) >= acc) by (nonlinear_arith)
                        requires
                            pow10(k as nat) == pow10(i as nat) * pow10(rest),
                            pow10(rest) >= 1,
                            acc == m * pow10(i as nat),
                            m >= 0,
                            pow10(i as nat) >= 1,
                    {
                        assert(m * (pow10(i as nat) * pow10(rest)) == (m * pow10(i as nat)) * pow10(rest));
                    }
                    lemma_pow10_positive(i as nat);
                }
                return None;
            }
        }
        Some(acc as i64)
    } else {
        let d: u128 = (-k) as u128;
        while i < d
            invariant
                k < 0,
                d == -k,
                i <= d,
                acc == m as int / pow10(i as nat),
            decreases d - i,
        {
            proof {
                lemma_pow10_positive(i as nat);
                lemma_div_denominator(m as int, pow10(i as nat), 10);
                assert(pow10((i + 1) as nat) == pow10(i as nat) * 10);
            }
            acc = acc / 10;
            i = i + 1;
        }
        proof {
            lemma_pow10_positive(d as nat);
            assert(acc <= m) by (nonlinear_arith)
                requires acc == m as int / pow10(d as nat), pow10(d as nat) >= 1, m >= 0;
        }
        if acc > i64::MAX as u128 {
            None
        } else {
            Some(acc as i64)
        }
    }
}

/// The exponent of a float literal whose digits end at `at`.
fn read_exponent(b: &[u8], at: usize) -> (r: Option<i128>)
    requires
        at <= b@.len(),
    ensures
        match exponent_of(b@, at as int) {
            Some(e) => r == Some(e as i128),
            None => r is None,
        },
        r matches Some(e) ==> -10000 < e < 10000,
        exponent_of(b@, at as int) matches Some(e) ==> -10000 < e < 10000,
{
    if at == b.len() {
        return Some(0);
    }
    if b[at] != 101u8 && b[at] != 69u8 {
        return None;
    }
    let signed = at + 1 < b.len() && (b[at + 1] == 45u8 || b[at + 1] == 43u8);
    let negative = signed && b[at + 1] == 45u8;
    let ds = if signed {
        at + 2
    } else {
        at + 1
    };
    let n = count_digits(b, ds);
    if n == 0 || ds + n != b.len() {
        return None;
    }
    proof {
        lemma_digit_run_bounds(b@, ds as int);
        assert(0 * pow10((b@.len() - ds) as nat) == 0);
    }
    match read_digits(b, ds, b.len(), 0, MAX_EXPONENT as u128) {
        Some(v) => if negative {
            Some(-(v as i128))
        } else {
            Some(v as i128)
        },
        None => None,
    }
}

/// The value of a float literal's text, by `float_units`.
pub fn parse_float(b: &[u8]) -> (r: Option<Number>)
    ensures
        match float_units(b@) {
            Some(u) => r == Some(Number { units: u as i64 }),
            None => r is None,
        },
{
    let a = count_digits(b, 0);
    let has_dot = a < b.len() && b[a] == 46u8;
    let f = if has_dot {
        count_digits(b, a + 1)
    } else {
        0
    };
    let end = if has_dot {
        a + 1 + f
    } else {
        a
    };
    if !((a > 0 || f > 0) && (!has_dot || f > 0)) {
        return None;
    }
    let ghost whole = b@.subrange(0, a as int);
    let ghost frac = if has_dot { b@.subrange(a + 1, end as int) } else { Seq::<u8>::empty() };
    proof {
        lemma_digit_run_bounds(b@, 0);
        if has_dot {
            lemma_digit_run_bounds(b@, a + 1);
        }
        lemma_digits_val_concat(whole, frac);
        assert(0 * pow10(a as nat) == 0);
    }
    let m1 = match read_digits(b, 0, a, 0, MAX_MANTISSA) {
        Some(v) => v,
        None => {
            proof {
                assert forall|j: int| 0 <= j < frac.len() implies is_digit(#[trigger] frac[j]) by {
                    assert(frac[j] == b@[a + 1 + j]);
                }
                lemma_digits_val_nonneg(frac);
                lemma_pow10_positive(frac.len());
                assert(digits_val(whole) * pow10(frac.len()) >= digits_val(whole)) by (nonlinear_arith)
                    requires pow10(frac.len()) >= 1, digits_val(whole) > 0;
            }
            return None;
        },
    };
    let m = if has_dot {
        match read_digits(b, a + 1, end, m1, MAX_MANTISSA) {
            Some(v) => v,
            None => return None,
        }
    } else {
        proof {
            assert(pow10(0) == 1);
            assert(frac =~= Seq::<u8>::empty());
        }
        m1
    };
    let e = match read_exponent(b, end) {
        Some(e) => e,
        None => return None,
    };
    let k: i128 = 6 - f as i128 + e;

    match scale_mantissa(m, k) {
        Some(u) => Some(Number { units: u }),
        None => None,
    }
}

} // verus!
