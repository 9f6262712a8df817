//! Cleaning and reading the scalar texts that the feed carries.

use vstd::prelude::*;
use crate::date::{digit_char, digit_text, digits_value, is_digit};

verus! {

/// Quote characters and backslashes are artifacts of JSON quoting.
pub open spec fn kept(c: char) -> bool {
    c != '"' && c != '\\'
}

/// `s` without its quote characters and backslashes.
pub open spec fn stripped(s: Seq<char>) -> Seq<char>
    decreases s.len(),
{
    if s.len() == 0 {
        Seq::empty()
    } else if kept(s.last()) {
        stripped(s.drop_last()).push(s.last())
    } else {
        stripped(s.drop_last())
    }
}

/// Removes every quote character and backslash from `s`.
pub fn strip_quoting(s: &str) -> (r: String)
    ensures
        r@ == stripped(s@),
{
    let n = s.unicode_len();
    let mut out = String::new();
    let mut i: usize = 0;
    while i < n
        invariant
            n == s@.len(),
            i <= n,
            out@ == stripped(s@.subrange(0, i as int)),
        decreases n - i,
    {
        let c = s.get_char(i);
        if c != '"' && c != '\\' {
            out.append(s.substring_char(i, i + 1));
        }
        assert(s@.subrange(0, i + 1).drop_last() =~= s@.subrange(0, i as int));
        i = i + 1;
    }
    assert(s@.subrange(0, n as int) =~= s@);
    out
}

/// How many ASCII digits follow one another in `s` from position `i` on.
pub open spec fn digit_run(s: Seq<char>, i: int) -> int
    decreases s.len() - i,
{
    if i < 0 || i >= s.len() || !is_digit(s[i]) {
        0
    } else {
        1 + digit_run(s, i + 1)
    }
}

pub open spec fn sign_len(s: Seq<char>, i: int) -> int {
    if 0 <= i < s.len() && (s[i] == '+' || s[i] == '-') { 1 } else { 0 }
}

/// Where the mantissa of `s` ends: sign, integer digits, and a fraction.
pub open spec fn mantissa_end(s: Seq<char>) -> int {
    let b = sign_len(s, 0) + digit_run(s, sign_len(s, 0));
    if b < s.len() && s[b] == '.' { b + 1 + digit_run(s, b + 1) } else { b }
}

/// Whether `s` is a finite decimal number: an optional sign, digits with at
/// most one decimal point (at least one digit in all), and an optional
/// exponent `e` or `E` with an optional sign and at least one digit.
pub open spec fn is_decimal(s: Seq<char>) -> bool {
    let a = sign_len(s, 0);
    let c = mantissa_end(s);
    &&& c - a > (if c > a + digit_run(s, a) { 1int } else { 0int })
    &&& (c == s.len() || {
        &&& (s[c] == 'e' || s[c] == 'E')
        &&& {
            let d = c + 1 + sign_len(s, c + 1);
            digit_run(s, d) > 0 && d + digit_run(s, d) == s.len()
        }
    })
}

proof fn lemma_digit_run_bounds(s: Seq<char>, i: int)
    requires
        0 <= i <= s.len(),
    ensures
        0 <= digit_run(s, i) <= s.len() - i,
        forall|k: int| i <= k < i + digit_run(s, i) ==> is_digit(#[trigger] s[k]),
        i + digit_run(s, i) < s.len() ==> !is_digit(s[i + digit_run(s, i)]),
    decreases s.len() - i,
{
    if i < s.len() && is_digit(s[i]) {
        lemma_digit_run_bounds(s, i + 1);
    }
}

/// Counts the digits that follow one another in `s` from `i` on.
fn run_of_digits(s: &str, n: usize, i: usize) -> (r: usize)
    requires
        n == s@.len(),
        i <= n,
    ensures
        r == digit_run(s@, i as int),
        i + r <= n,
{
    let mut j: usize = i;
    let mut more = true;
    while more && j < n
        invariant
            n == s@.len(),
            i <= j <= n,
            digit_run(s@, i as int) == (j - i) + digit_run(s@, j as int),
            !more ==> digit_run(s@, j as int) == 0,
        decreases n - j + (if more { 1int } else { 0int }),
    {
        let c = s.get_char(j);
        if '0' <= c && c <= '9' {
            j = j + 1;
        } else {
            more = false;
        }
    }
    proof {
        lemma_digit_run_bounds(s@, j as int);
    }
    j - i
}

fn sign_at(s: &str, n: usize, i: usize) -> (r: usize)
    requires
        n == s@.len(),
    ensures
        r == sign_len(s@, i as int),
{
    if i < n {
        let c = s.get_char(i);
        if c == '+' || c == '-' {
            return 1;
        }
    }
    0
}

/// Whether `s` is a finite decimal number (see `is_decimal`).
pub fn check_decimal(s: &str) -> (r: bool)
    ensures
        r == is_decimal(s@),
{
    let n = s.unicode_len();
    let a = sign_at(s, n, 0);
    let int_digits = run_of_digits(s, n, a);
    let b = a + int_digits;
    let mut c = b;
    if b < n && s.get_char(b) == '.' {
        c = b + 1 + run_of_digits(s, n, b + 1);
    }
    let point: usize = if c > b { 1 } else { 0 };
    if c - a <= point {
        return false;
    }
    if c == n {
        return true;
    }
    let e = s.get_char(c);
    if e != 'e' && e != 'E' {
        return false;
    }
    let d = c + 1 + sign_at(s, n, c + 1);
    if d > n {
        return false;
    }
    let k = run_of_digits(s, n, d);
    k > 0 && d + k == n
}

/// The integer that `s` denotes as an optional sign followed by decimal
/// digits, if it fits in an `i32`.
pub open spec fn int_of_text(s: Seq<char>) -> Option<i32> {
    let a = sign_len(s, 0);
    let neg = a == 1 && s[0] == '-';
    let mag = digits_value(s, a, s.len() as int);
    let v = if neg { -mag } else { mag };
    if s.len() > a && a + digit_run(s, a) == s.len() && i32::MIN <= v <= i32::MAX {
        Some(v as i32)
    } else {
        None
    }
}

proof fn lemma_digits_value_grows(s: Seq<char>, from: int, i: int, to: int)
    requires
        from <= i <= to <= s.len(),
        forall|k: int| from <= k < to ==> is_digit(#[trigger] s[k]),
    ensures
        digits_value(s, from, i) <= digits_value(s, from, to),
        0 <= digits_value(s, from, i),
    decreases to - from,
{
    if to > i {
        lemma_digits_value_grows(s, from, i, to - 1);
        assert(is_digit(s[to - 1]));
    } else if i > from {
        lemma_digits_value_grows(s, from, i - 1, i - 1);
        assert(is_digit(s[i - 1]));
    }
}

/// Reads an integer written in decimal with an optional sign.
pub fn parse_int(s: &str) -> (r: Option<i32>)
    ensures
        r == int_of_text(s@),
{
    let n = s.unicode_len();
    let a = sign_at(s, n, 0);
    let k = run_of_digits(s, n, a);
    if n <= a || a + k != n {
        return None;
    }
    proof {
        lemma_digit_run_bounds(s@, a as int);
    }
    let neg = a == 1 && s.get_char(0) == '-';
    let mut v: i64 = 0;
    let mut i: usize = a;
    while i < n
        invariant
            n == s@.len(),
            a <= i <= n,
            a as int == sign_len(s@, 0),
            a + digit_run(s@, a as int) == n,
            neg == (a == 1 && s@[0] == '-'),
            forall|k: int| a <= k < n ==> is_digit(#[trigger] s@[k]),
            v as int == digits_value(s@, a as int, i as int),
            0 <= v <= 2147483648,
        decreases n - i,
    {
        let c = s.get_char(i);
        assert(is_digit(s@[i as int]));
        let next = v * 10 + ((c as u32) - ('0' as u32)) as i64;
        if next > 2147483648 {
            proof {
                assert(digits_value(s@, a as int, i + 1) == next);
                lemma_digits_value_grows(s@, a as int, i + 1, n as int);
                assert(digits_value(s@, a as int, n as int) > 2147483648);
            }
            return None;
        }
        v = next;
        i = i + 1;
    }
    if neg {
        Some((0 - v) as i32)
    } else if v > 2147483647 {
        None
    } else {
        Some(v as i32)
    }
}


/// The decimal digits of `n`, without leading zeros.
pub open spec fn decimal_text(n: nat) -> Seq<char>
    decreases n,
{
    if n < 10 {
        seq![digit_char(n as int)]
    } else {
        decimal_text(n / 10).push(digit_char((n % 10) as int))
    }
}

/// The decimal text of `v`, with a minus sign when it is negative.
pub open spec fn int_text(v: int) -> Seq<char> {
    if v < 0 {
        seq!['-'] + decimal_text((-v) as nat)
    } else {
        decimal_text(v as nat)
    }
}

fn append_decimal(n: u64, out: &mut String)
    ensures
        final(out)@ == old(out)@ + decimal_text(n as nat),
    decreases n,
{
    if n >= 10 {
        append_decimal(n / 10, out);
    }
    out.append(digit_text((n % 10) as u32));
    proof {
        if n >= 10 {
            assert(final(out)@ =~= old(out)@ + decimal_text(n as nat));
        }
    }
}

/// Writes `v` in decimal.
pub fn int_to_text(v: i32) -> (r: String)
    ensures
        r@ == int_text(v as int),
{
    let mut out = String::new();
    if v < 0 {
        out.append("-");
        proof {
            reveal_strlit("-");
        }
    }
    let mag: u64 = if v < 0 { (0 - (v as i64)) as u64 } else { v as u64 };
    append_decimal(mag, &mut out);
    proof {
        assert(out@ =~= int_text(v as int));
    }
    out
}

} // verus!
