//! The texts that denote a floating-point number.
//!
//! A text denotes a number when it is an optional sign followed by `inf`,
//! `infinity` or `nan` in any mix of cases, or by a decimal numeral: digits
//! with at most one point among them and at least one digit in all,
//! optionally followed by an exponent (`e` or `E`, an optional sign, digits).
//! These are the texts that Rust's standard parsing of a floating-point
//! number accepts; nothing may stand before or behind them.

use vstd::prelude::*;
use crate::chars::{char_is_digit, is_digit, to_chars};

verus! {

/// The end of the longest run of digits that starts at `i`.
pub open spec fn digits_end(s: Seq<char>, i: int) -> int
    decreases s.len() - i,
{
    if 0 <= i < s.len() && is_digit(s[i]) {
        digits_end(s, i + 1)
    } else {
        i
    }
}

pub open spec fn is_sign(c: char) -> bool {
    c == '+' || c == '-'
}

/// Whether `t` spells a word, given in lower and in upper case, in any mix
/// of the two.
pub open spec fn spells(t: Seq<char>, lower: Seq<char>, upper: Seq<char>) -> bool {
    &&& t.len() == lower.len()
    &&& forall|i: int| 0 <= i < t.len() ==> (#[trigger] t[i] == lower[i] || t[i] == upper[i])
}

/// Whether `t` is one of the words for a value that is no finite number.
pub open spec fn is_special_word(t: Seq<char>) -> bool {
    spells(t, "inf"@, "INF"@) || spells(t, "infinity"@, "INFINITY"@) || spells(
        t,
        "nan"@,
        "NAN"@,
    )
}

/// Whether an exponent starts at `i` and runs to the end of `s`.
pub open spec fn is_exponent(s: Seq<char>, i: int) -> bool {
    let d = if i + 1 < s.len() && is_sign(s[i + 1]) {
        i + 2
    } else {
        i + 1
    };
    &&& 0 <= i < s.len()
    &&& (s[i] == 'e' || s[i] == 'E')
    &&& d < s.len()
    &&& is_digit(s[d])
    &&& digits_end(s, d) == s.len()
}

/// Whether a decimal numeral starts at `b` and runs to the end of `s`.
pub open spec fn is_decimal(s: Seq<char>, b: int) -> bool {
    let whole_end = digits_end(s, b);
    let point = whole_end < s.len() && s[whole_end] == '.';
    let fraction = if point {
        whole_end + 1
    } else {
        whole_end
    };
    let fraction_end = digits_end(s, fraction);
    &&& (whole_end - b) + (fraction_end - fraction) > 0
    &&& (fraction_end == s.len() || is_exponent(s, fraction_end))
}

/// Whether `s` denotes a number.
pub open spec fn is_number_text(s: Seq<char>) -> bool {
    let b: int = if s.len() > 0 && is_sign(s[0]) {
        1
    } else {
        0
    };
    is_special_word(s.subrange(b, s.len() as int)) || is_decimal(s, b)
}

fn skip_digits(v: &Vec<char>, i: usize) -> (j: usize)
    requires
        i <= v@.len(),
    ensures
        j == digits_end(v@, i as int),
        i <= j <= v@.len(),
{
    let mut j: usize = i;
    while j < v.len() && char_is_digit(v[j])
        invariant
            i <= j <= v@.len(),
            digits_end(v@, j as int) == digits_end(v@, i as int),
        decreases v@.len() - j,
    {
        j = j + 1;
    }
    j
}

fn spells_word(v: &Vec<char>, from: usize, lower: &str, upper: &str) -> (r: bool)
    requires
        from <= v@.len(),
        lower@.len() == upper@.len(),
    ensures
        r == spells(v@.subrange(from as int, v@.len() as int), lower@, upper@),
{
    let ghost t = v@.subrange(from as int, v@.len() as int);
    let n: usize = lower.unicode_len();
    if v.len() - from != n {
        return false;
    }
    let mut i: usize = 0;
    while i < n
        invariant
            from <= v@.len(),
            n == lower@.len(),
            n == upper@.len(),
            v@.len() - from == n,
            v@.len() <= usize::MAX,
            t == v@.subrange(from as int, v@.len() as int),
            i <= n,
            forall|k: int| 0 <= k < i ==> (#[trigger] t[k] == lower@[k] || t[k] == upper@[k]),
        decreases n - i,
    {
        let c: char = v[from + i];
        assert(t[i as int] == c);
        if c != lower.get_char(i) && c != upper.get_char(i) {
            return false;
        }
        i = i + 1;
    }
    true
}

/// Decides whether the characters of `v` denote a number.
pub fn is_number(v: &Vec<char>) -> (r: bool)
    ensures
        r == is_number_text(v@),
{
    let n: usize = v.len();
    let b: usize = if n > 0 && (v[0] == '+' || v[0] == '-') {
        1
    } else {
        0
    };
    proof {
        reveal_strlit("inf");
        reveal_strlit("INF");
        reveal_strlit("infinity");
        reveal_strlit("INFINITY");
        reveal_strlit("nan");
        reveal_strlit("NAN");
    }
    if spells_word(v, b, "inf", "INF") || spells_word(v, b, "infinity", "INFINITY") || spells_word(
        v,
        b,
        "nan",
        "NAN",
    ) {
        return true;
    }
    let whole_end: usize = skip_digits(v, b);
    let point: bool = whole_end < n && v[whole_end] == '.';
    let fraction: usize = if point {
        whole_end + 1
    } else {
        whole_end
    };
    let fraction_end: usize = skip_digits(v, fraction);
    if (whole_end - b) + (fraction_end - fraction) == 0 {
        return false;
    }
    if fraction_end == n {
        return true;
    }
    if v[fraction_end] != 'e' && v[fraction_end] != 'E' {
        return false;
    }
    let d: usize = if fraction_end + 1 < n && (v[fraction_end + 1] == '+' || v[fraction_end + 1]
        == '-') {
        fraction_end + 2
    } else {
        fraction_end + 1
    };
    if d >= n || !char_is_digit(v[d]) {
        return false;
    }
    skip_digits(v, d) == n
}

/// Decides whether `s` denotes a number.
pub fn denotes_number(s: &str) -> (r: bool)
    ensures
        r == is_number_text(s@),
{
    let v = to_chars(s);
    is_number(&v)
}

} // verus!
