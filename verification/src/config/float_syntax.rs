use vstd::prelude::*;

use crate::text::{all_digits, chars_of, is_digit};

verus! {

// The syntax of decimal floating-point numbers that the standard library reads: an
// optional sign, then `inf`, `infinity` or `nan` in any case, or digits with at most one
// decimal point (and at least one digit), optionally followed by `e` or `E`, an optional
// sign and at least one digit.

/// `+` or `-`.
pub open spec fn is_sign(c: char) -> bool {
    c == '+' || c == '-'
}

/// `e` or `E`.
pub open spec fn is_exp_mark(c: char) -> bool {
    c == 'e' || c == 'E'
}

/// `t` spells the word given in lower and upper case, each letter in either case.
pub open spec fn ci_eq(t: Seq<char>, lower: Seq<char>, upper: Seq<char>) -> bool {
    &&& t.len() == lower.len()
    &&& t.len() == upper.len()
    &&& forall|i: int| 0 <= i < t.len() ==> #[trigger] t[i] == lower[i] || t[i] == upper[i]
}

/// Digits with at most one decimal point, and at least one digit.
pub open spec fn mantissa_ok(m: Seq<char>) -> bool {
    ||| m.len() > 0 && all_digits(m)
    ||| exists|d: int|
        0 <= d < m.len() && m[d] == '.' && m.len() > 1 && all_digits(m.subrange(0, d))
            && all_digits(#[trigger] m.subrange(d + 1, m.len() as int))
}

/// What follows the exponent mark: an optional sign and at least one digit.
pub open spec fn exponent_ok(x: Seq<char>) -> bool {
    let y = if x.len() > 0 && is_sign(x[0]) {
        x.drop_first()
    } else {
        x
    };
    y.len() > 0 && all_digits(y)
}

/// A number: a mantissa, optionally followed by an exponent.
pub open spec fn number_ok(t: Seq<char>) -> bool {
    ||| mantissa_ok(t)
    ||| exists|k: int|
        0 <= k < t.len() && is_exp_mark(t[k]) && mantissa_ok(#[trigger] t.subrange(0, k))
            && exponent_ok(t.subrange(k + 1, t.len() as int))
}

/// The text of a floating-point number, as the standard library reads one.
pub open spec fn float_text(s: Seq<char>) -> bool {
    let t = if s.len() > 0 && is_sign(s[0]) {
        s.drop_first()
    } else {
        s
    };
    ||| ci_eq(t, "inf"@, "INF"@)
    ||| ci_eq(t, "infinity"@, "INFINITY"@)
    ||| ci_eq(t, "nan"@, "NAN"@)
    ||| number_ok(t)
}

proof fn lemma_mantissa_chars(m: Seq<char>, i: int)
    requires
        mantissa_ok(m),
        0 <= i < m.len(),
    ensures
        is_digit(m[i]) || m[i] == '.',
{
    if !(m.len() > 0 && all_digits(m)) {
        let d = choose|d: int|
            0 <= d < m.len() && m[d] == '.' && m.len() > 1 && all_digits(m.subrange(0, d))
                && all_digits(#[trigger] m.subrange(d + 1, m.len() as int));
        if i < d {
            assert(m.subrange(0, d)[i] == m[i]);
        } else if i > d {
            assert(m.subrange(d + 1, m.len() as int)[i - d - 1] == m[i]);
        }
    }
}

fn digits_between(v: &Vec<char>, lo: usize, hi: usize) -> (r: bool)
    requires
        lo <= hi <= v.len(),
    ensures
        r == all_digits(v@.subrange(lo as int, hi as int)),
{
    let mut i: usize = lo;
    while i < hi
        invariant
            lo <= i <= hi <= v.len(),
            forall|k: int| lo <= k < i ==> is_digit(#[trigger] v@[k]),
        decreases hi - i,
    {
        if !(v[i] >= '0' && v[i] <= '9') {
            assert(v@.subrange(lo as int, hi as int)[i - lo] == v@[i as int]);
            return false;
        }
        i = i + 1;
    }
    assert forall|k: int| 0 <= k < hi - lo implies is_digit(#[trigger] v@.subrange(lo as int, hi as int)[k]) by {
        assert(v@.subrange(lo as int, hi as int)[k] == v@[lo + k]);
    }
    true
}

fn mantissa_between(v: &Vec<char>, lo: usize, hi: usize) -> (r: bool)
    requires
        lo <= hi <= v.len(),
    ensures
        r == mantissa_ok(v@.subrange(lo as int, hi as int)),
{
    let ghost m = v@.subrange(lo as int, hi as int);
    let mut d: usize = lo;
    while d < hi && v[d] != '.'
        invariant
            lo <= d <= hi <= v.len(),
            m == v@.subrange(lo as int, hi as int),
            forall|k: int| lo <= k < d ==> v@[k] != '.',
        decreases hi - d,
    {
        d = d + 1;
    }
    if d == hi {
        let r = hi > lo && digits_between(v, lo, hi);
        proof {
            if !r && hi > lo {
                assert forall|e: int|
                    0 <= e < m.len() && m[e] == '.' implies !all_digits(#[trigger] m.subrange(e + 1, m.len() as int)) by {
                    assert(m[e] == v@[lo + e]);
                }
            }
        }
        return r;
    }
    let a = digits_between(v, lo, d);
    let b = digits_between(v, d + 1, hi);
    let r = a && b && hi - lo > 1;
    proof {
        let e = (d - lo) as int;
        assert(m[e] == '.');
        assert(m.subrange(0, e) =~= v@.subrange(lo as int, d as int));
        assert(m.subrange(e + 1, m.len() as int) =~= v@.subrange(d + 1, hi as int));
        if all_digits(m) {
            assert(!is_digit(m[e]));
        }
        if !r {
            assert forall|f: int|
                0 <= f < m.len() && m[f] == '.' && m.len() > 1 && all_digits(m.subrange(0, f)) implies !all_digits(
                #[trigger] m.subrange(f + 1, m.len() as int),
            ) by {
                if f < e {
                    assert(m[f] == v@[lo + f]);
                } else if f > e {
                    assert(m.subrange(0, f)[e] == m[e]);
                }
            }
        }
    }
    r
}

fn exponent_between(v: &Vec<char>, lo: usize, hi: usize) -> (r: bool)
    requires
        lo <= hi <= v.len(),
    ensures
        r == exponent_ok(v@.subrange(lo as int, hi as int)),
{
    let ghost x = v@.subrange(lo as int, hi as int);
    let start = if lo < hi && (v[lo] == '+' || v[lo] == '-') {
        lo + 1
    } else {
        lo
    };
    proof {
        if lo < hi && is_sign(v@[lo as int]) {
            assert(x.drop_first() =~= v@.subrange(start as int, hi as int));
        } else {
            assert(x =~= v@.subrange(start as int, hi as int));
        }
    }
    start < hi && digits_between(v, start, hi)
}

fn word_between(v: &Vec<char>, lo: usize, lower: &str, upper: &str) -> (r: bool)
    requires
        lo <= v.len(),
    ensures
        r == ci_eq(v@.subrange(lo as int, v.len() as int), lower@, upper@),
{
    let l = chars_of(lower);
    let u = chars_of(upper);
    let ghost t = v@.subrange(lo as int, v.len() as int);
    if v.len() - lo != l.len() || v.len() - lo != u.len() {
        return false;
    }
    let mut i: usize = 0;
    while i < l.len()
        invariant
            i <= l.len(),
            lo + l.len() == v.len(),
            l@ == lower@,
            u@ == upper@,
            t == v@.subrange(lo as int, v.len() as int),
            t.len() == l.len() && t.len() == u.len(),
            forall|k: int| 0 <= k < i ==> #[trigger] t[k] == l@[k] || t[k] == u@[k],
        decreases l.len() - i,
    {
        assert(t[i as int] == v@[lo + i]);
        if v[lo + i] != l[i] && v[lo + i] != u[i] {
            return false;
        }
        i = i + 1;
    }
    true
}

/// Whether `s` is the text of a floating-point number, as the standard library reads one.
pub fn is_float_text(s: &str) -> (r: bool)
    ensures
        r == float_text(s@),
{
    let v = chars_of(s);
    let lo: usize = if v.len() > 0 && (v[0] == '+' || v[0] == '-') {
        1
    } else {
        0
    };
    let ghost t = v@.subrange(lo as int, v.len() as int);
    proof {
        if v@.len() > 0 && is_sign(v@[0]) {
            assert(s@.drop_first() =~= t);
        } else {
            assert(s@ =~= t);
        }
    }
    if word_between(&v, lo, "inf", "INF") || word_between(&v, lo, "infinity", "INFINITY")
        || word_between(&v, lo, "nan", "NAN") {
        return true;
    }
    let mut k: usize = lo;
    while k < v.len() && v[k] != 'e' && v[k] != 'E'
        invariant
            lo <= k <= v.len(),
            forall|j: int| lo <= j < k ==> !is_exp_mark(v@[j]),
        decreases v.len() - k,
    {
        k = k + 1;
    }
    if k == v.len() {
        let r = mantissa_between(&v, lo, v.len());
        proof {
            assert forall|j: int| 0 <= j < t.len() implies !is_exp_mark(#[trigger] t[j]) by {
                assert(t[j] == v@[lo + j]);
            }
        }
        return r;
    }
    let a = mantissa_between(&v, lo, k);
    let b = exponent_between(&v, k + 1, v.len());
    proof {
        let e = (k - lo) as int;
        assert(t[e] == v@[k as int]);
        assert(t.subrange(0, e) =~= v@.subrange(lo as int, k as int));
        assert(t.subrange(e + 1, t.len() as int) =~= v@.subrange(k + 1, v.len() as int));
        if mantissa_ok(t) {
            lemma_mantissa_chars(t, e);
        }
        if !(a && b) {
            assert forall|f: int|
                0 <= f < t.len() && is_exp_mark(t[f]) && mantissa_ok(#[trigger] t.subrange(0, f)) implies !exponent_ok(
                t.subrange(f + 1, t.len() as int),
            ) by {
                if f < e {
                    assert(t[f] == v@[lo + f]);
                } else if f > e {
                    lemma_mantissa_chars(t.subrange(0, f), e);
                    assert(t.subrange(0, f)[e] == t[e]);
                }
            }
        }
    }
    a && b
}

} // verus!
