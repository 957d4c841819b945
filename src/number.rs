//! Numbers written as text: the syntax of the magnitudes printed in directory
//! listings, which is what Rust's `f64` parser reads (an optional sign, then
//! digits with an optional fraction and an optional exponent, as in `12`,
//! `1.5`, `.5`, `3.`, `-2e10`, or `inf`, `infinity` or `nan` in any case), and
//! unsigned integers.

use vstd::prelude::*;
use vstd::string::*;

verus! {

pub open spec fn is_digit(c: char) -> bool {
    '0' <= c && c <= '9'
}

pub open spec fn all_digits(s: Seq<char>) -> bool {
    forall|i: int| 0 <= i < s.len() ==> is_digit(#[trigger] s[i])
}

/// `s` without one leading `+` or `-`.
pub open spec fn unsigned(s: Seq<char>) -> Seq<char> {
    if s.len() > 0 && (s[0] == '+' || s[0] == '-') {
        s.drop_first()
    } else {
        s
    }
}

/// Digits with at most one `.` among them, and at least one digit.
pub open spec fn is_mantissa(m: Seq<char>) -> bool {
    (m.len() > 0 && all_digits(m)) || exists|k: int|
        0 <= k < m.len() && #[trigger] m[k] == '.' && m.len() >= 2 && all_digits(m.subrange(0, k))
            && all_digits(m.subrange(k + 1, m.len() as int))
}

/// An optionally signed, non-empty run of digits.
pub open spec fn is_exponent(x: Seq<char>) -> bool {
    unsigned(x).len() > 0 && all_digits(unsigned(x))
}

pub open spec fn is_exponent_mark(c: char) -> bool {
    c == 'e' || c == 'E'
}

/// A mantissa, optionally followed by `e` or `E` and an exponent.
pub open spec fn is_unsigned_number(b: Seq<char>) -> bool {
    is_mantissa(b) || exists|k: int|
        0 <= k < b.len() && is_exponent_mark(#[trigger] b[k]) && is_mantissa(b.subrange(0, k))
            && is_exponent(b.subrange(k + 1, b.len() as int))
}

/// `b` spells the word whose lower-case letters are `lower` and upper-case
/// letters are `upper`, each letter in either case.
pub open spec fn spells_word(b: Seq<char>, lower: Seq<char>, upper: Seq<char>) -> bool {
    &&& b.len() == lower.len()
    &&& lower.len() == upper.len()
    &&& forall|i: int| 0 <= i < b.len() ==> #[trigger] b[i] == lower[i] || b[i] == upper[i]
}

/// An infinity or a NaN, in any mix of cases: `inf`, `infinity` or `nan`.
pub open spec fn is_special_value(b: Seq<char>) -> bool {
    spells_word(b, "inf"@, "INF"@) || spells_word(b, "infinity"@, "INFINITY"@) || spells_word(
        b,
        "nan"@,
        "NAN"@,
    )
}

/// A number as Rust's `f64` parser reads it: optionally signed, a decimal
/// number or one of the special values.
pub open spec fn is_decimal_number(s: Seq<char>) -> bool {
    is_unsigned_number(unsigned(s)) || is_special_value(unsigned(s))
}

proof fn lemma_mantissa_chars(m: Seq<char>, i: int)
    requires
        is_mantissa(m),
        0 <= i < m.len(),
    ensures
        is_digit(m[i]) || m[i] == '.',
{
    if !(m.len() > 0 && all_digits(m)) {
        let k = choose|k: int|
            0 <= k < m.len() && #[trigger] m[k] == '.' && m.len() >= 2 && all_digits(
                m.subrange(0, k),
            ) && all_digits(m.subrange(k + 1, m.len() as int));
        if i < k {
            assert(m.subrange(0, k)[i] == m[i]);
        } else if i > k {
            assert(m.subrange(k + 1, m.len() as int)[i - k - 1] == m[i]);
        }
    }
}

fn digits_only(s: &str, lo: usize, hi: usize) -> (r: bool)
    requires
        lo <= hi <= s@.len(),
    ensures
        r == all_digits(s@.subrange(lo as int, hi as int)),
{
    let ghost m = s@.subrange(lo as int, hi as int);
    let mut i: usize = lo;
    while i < hi
        invariant
            lo <= i <= hi <= s@.len(),
            m == s@.subrange(lo as int, hi as int),
            forall|j: int| 0 <= j < i - lo ==> is_digit(#[trigger] m[j]),
        decreases hi - i,
    {
        let c = s.get_char(i);
        if !('0' <= c && c <= '9') {
            assert(m[i - lo] == c);
            return false;
        }
        i = i + 1;
    }
    true
}

/// The first index in `lo..hi` holding `a` or `b`, or `hi` where there is none.
fn find_either(s: &str, lo: usize, hi: usize, a: char, b: char) -> (k: usize)
    requires
        lo <= hi <= s@.len(),
    ensures
        lo <= k <= hi,
        forall|j: int| lo <= j < k ==> s@[j] != a && s@[j] != b,
        k < hi ==> s@[k as int] == a || s@[k as int] == b,
{
    let mut i: usize = lo;
    while i < hi
        invariant
            lo <= i <= hi <= s@.len(),
            forall|j: int| lo <= j < i ==> s@[j] != a && s@[j] != b,
        decreases hi - i,
    {
        let c = s.get_char(i);
        if c == a || c == b {
            return i;
        }
        i = i + 1;
    }
    hi
}

fn mantissa_in(s: &str, lo: usize, hi: usize) -> (r: bool)
    requires
        lo <= hi <= s@.len(),
    ensures
        r == is_mantissa(s@.subrange(lo as int, hi as int)),
{
    let ghost m = s@.subrange(lo as int, hi as int);
    let k = find_either(s, lo, hi, '.', '.');
    if k == hi {
        assert forall|j: int| 0 <= j < m.len() implies m[j] != '.' by {
            assert(m[j] == s@[lo + j]);
        }
        hi > lo && digits_only(s, lo, hi)
    } else {
        let kk: Ghost<int> = Ghost(k - lo);
        assert(m[kk@] == '.');
        assert(!all_digits(m));
        let r = hi - lo >= 2 && digits_only(s, lo, k) && digits_only(s, k + 1, hi);
        assert(m.subrange(0, kk@) =~= s@.subrange(lo as int, k as int));
        assert(m.subrange(kk@ + 1, m.len() as int) =~= s@.subrange(k + 1, hi as int));
        if !r {
            assert forall|k2: int|
                0 <= k2 < m.len() && #[trigger] m[k2] == '.' && m.len() >= 2 && all_digits(
                    m.subrange(0, k2),
                ) implies !all_digits(m.subrange(k2 + 1, m.len() as int)) by {
                if k2 < kk@ {
                    assert(s@[lo + k2] == m[k2]);
                } else if k2 > kk@ {
                    assert(m.subrange(0, k2)[kk@] == '.');
                }
            }
        }
        r
    }
}

fn exponent_in(s: &str, lo: usize, hi: usize) -> (r: bool)
    requires
        lo <= hi <= s@.len(),
    ensures
        r == is_exponent(s@.subrange(lo as int, hi as int)),
{
    let ghost x = s@.subrange(lo as int, hi as int);
    if lo < hi {
        let c = s.get_char(lo);
        if c == '+' || c == '-' {
            assert(x.drop_first() =~= s@.subrange(lo + 1, hi as int));
            return lo + 1 < hi && digits_only(s, lo + 1, hi);
        }
    }
    lo < hi && digits_only(s, lo, hi)
}

fn unsigned_number_in(s: &str, lo: usize, hi: usize) -> (r: bool)
    requires
        lo <= hi <= s@.len(),
    ensures
        r == is_unsigned_number(s@.subrange(lo as int, hi as int)),
{
    let ghost b = s@.subrange(lo as int, hi as int);
    let k = find_either(s, lo, hi, 'e', 'E');
    if k == hi {
        assert forall|j: int| 0 <= j < b.len() implies !is_exponent_mark(#[trigger] b[j]) by {
            assert(b[j] == s@[lo + j]);
        }
        mantissa_in(s, lo, hi)
    } else {
        let kk: Ghost<int> = Ghost(k - lo);
        assert(b[kk@] == s@[k as int]);
        proof {
            if is_mantissa(b) {
                lemma_mantissa_chars(b, kk@);
            }
        }
        let r = mantissa_in(s, lo, k) && exponent_in(s, k + 1, hi);
        assert(b.subrange(0, kk@) =~= s@.subrange(lo as int, k as int));
        assert(b.subrange(kk@ + 1, b.len() as int) =~= s@.subrange(k + 1, hi as int));
        if !r {
            assert forall|k2: int|
                0 <= k2 < b.len() && is_exponent_mark(#[trigger] b[k2]) && is_mantissa(
                    b.subrange(0, k2),
                ) implies !is_exponent(b.subrange(k2 + 1, b.len() as int)) by {
                if k2 < kk@ {
                    assert(s@[lo + k2] == b[k2]);
                } else if k2 > kk@ {
                    assert(b.subrange(0, k2)[kk@] == b[kk@]);
                    if is_mantissa(b.subrange(0, k2)) {
                        lemma_mantissa_chars(b.subrange(0, k2), kk@);
                    }
                }
            }
        }
        r
    }
}

/// Whether the characters `lo..hi` of `s` spell the word `lower` / `upper`
/// (see `spells_word`).
fn word_in(s: &str, lo: usize, hi: usize, lower: &str, upper: &str) -> (r: bool)
    requires
        lo <= hi <= s@.len(),
    ensures
        r == spells_word(s@.subrange(lo as int, hi as int), lower@, upper@),
{
    let ghost b = s@.subrange(lo as int, hi as int);
    let n = lower.unicode_len();
    if hi - lo != n || upper.unicode_len() != n {
        return false;
    }
    let mut i: usize = 0;
    while i < n
        invariant
            lo <= hi <= s@.len(),
            b == s@.subrange(lo as int, hi as int),
            n == b.len() == lower@.len() == upper@.len(),
            i <= n,
            forall|j: int| 0 <= j < i ==> #[trigger] b[j] == lower@[j] || b[j] == upper@[j],
        decreases n - i,
    {
        let c = s.get_char(lo + i);
        assert(b[i as int] == c);
        if c != lower.get_char(i) && c != upper.get_char(i) {
            return false;
        }
        i = i + 1;
    }
    true
}

fn special_value_in(s: &str, lo: usize, hi: usize) -> (r: bool)
    requires
        lo <= hi <= s@.len(),
    ensures
        r == is_special_value(s@.subrange(lo as int, hi as int)),
{
    word_in(s, lo, hi, "inf", "INF") || word_in(s, lo, hi, "infinity", "INFINITY") || word_in(
        s,
        lo,
        hi,
        "nan",
        "NAN",
    )
}

/// Whether the characters `lo..hi` of `s` form a number that `f64` reads.
pub fn decimal_number_in(s: &str, lo: usize, hi: usize) -> (r: bool)
    requires
        lo <= hi <= s@.len(),
    ensures
        r == is_decimal_number(s@.subrange(lo as int, hi as int)),
{
    let ghost x = s@.subrange(lo as int, hi as int);
    if lo < hi {
        let c = s.get_char(lo);
        if c == '+' || c == '-' {
            assert(x.drop_first() =~= s@.subrange(lo + 1, hi as int));
            return unsigned_number_in(s, lo + 1, hi) || special_value_in(s, lo + 1, hi);
        }
    }
    unsigned_number_in(s, lo, hi) || special_value_in(s, lo, hi)
}

/// The value of a digit character.
pub open spec fn digit_value(c: char) -> nat {
    ((c as u32) - ('0' as u32)) as nat
}

/// The value of a run of decimal digits.
pub open spec fn digits_value(s: Seq<char>) -> nat
    decreases s.len(),
{
    if s.len() == 0 {
        0
    } else {
        digits_value(s.drop_last()) * 10 + digit_value(s.last())
    }
}

/// The value of an unsigned integer text: an optional `+`, then one or more digits.
pub open spec fn unsigned_integer_value(s: Seq<char>) -> Option<nat> {
    let d = if s.len() > 0 && s[0] == '+' {
        s.drop_first()
    } else {
        s
    };
    if d.len() > 0 && all_digits(d) {
        Some(digits_value(d))
    } else {
        None
    }
}

proof fn lemma_digits_value_grows(s: Seq<char>, i: int, j: int)
    requires
        0 <= i <= j <= s.len(),
    ensures
        digits_value(s.subrange(0, i)) <= digits_value(s.subrange(0, j)),
    decreases j - i,
{
    if i < j {
        lemma_digits_value_grows(s, i, j - 1);
        assert(s.subrange(0, j).drop_last() =~= s.subrange(0, j - 1));
    }
}

/// Reads an unsigned integer text; `None` where it is not one or its value
/// exceeds `usize::MAX`.
pub fn parse_usize(s: &str) -> (r: Option<usize>)
    ensures
        r == match unsigned_integer_value(s@) {
            Some(v) => if v <= usize::MAX {
                Some(v as usize)
            } else {
                None::<usize>
            },
            None => None::<usize>,
        },
{
    let n = s.unicode_len();
    let mut lo: usize = 0;
    if n > 0 && s.get_char(0) == '+' {
        lo = 1;
    }
    let ghost d = s@.subrange(lo as int, n as int);
    assert(d =~= (if s@.len() > 0 && s@[0] == '+' {
        s@.drop_first()
    } else {
        s@
    }));
    if lo == n || !digits_only(s, lo, n) {
        return None;
    }
    let mut acc: usize = 0;
    let mut i: usize = lo;
    assert(d.subrange(0, 0) =~= Seq::<char>::empty());
    while i < n
        invariant
            lo <= i <= n == s@.len(),
            d == s@.subrange(lo as int, n as int),
            all_digits(d),
            unsigned_integer_value(s@) == Some(digits_value(d)),
            acc == digits_value(d.subrange(0, i - lo)),
        decreases n - i,
    {
        let c = s.get_char(i);
        assert(d[i - lo] == c);
        let v = (c as u32 - '0' as u32) as usize;
        assert(d.subrange(0, i + 1 - lo).drop_last() =~= d.subrange(0, i - lo));
        assert(digits_value(d.subrange(0, i + 1 - lo)) == acc * 10 + v);
        if acc > (usize::MAX - v) / 10 {
            proof {
                assert(digits_value(d.subrange(0, i + 1 - lo)) > usize::MAX) by (nonlinear_arith)
                    requires
                        acc > (usize::MAX - v) / 10,
                        digits_value(d.subrange(0, i + 1 - lo)) == acc * 10 + v,
                        v <= 9,
                ;
                lemma_digits_value_grows(d, i + 1 - lo, d.len() as int);
                assert(d.subrange(0, d.len() as int) =~= d);
                assert(digits_value(d) > usize::MAX);
            }
            return None;
        }
        assert(acc * 10 + v <= usize::MAX) by (nonlinear_arith)
            requires
                acc <= (usize::MAX - v) / 10,
                v <= 9,
        ;
        acc = acc * 10 + v;
        i = i + 1;
    }
    assert(d.subrange(0, n - lo) =~= d);
    Some(acc)
}

} // verus!
