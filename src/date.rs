//! Calendar dates written as `YYYY-MM-DD`.

use vstd::prelude::*;

verus! {

/// A day of the proleptic Gregorian calendar with a four-digit year.
#[derive(Clone, Copy, Debug, PartialEq, Eq, Structural, Hash)]
pub struct CalendarDate {
    pub year: u32,
    pub month: u32,
    pub day: u32,
}

pub open spec fn is_leap_year(y: int) -> bool {
    (y % 4 == 0 && y % 100 != 0) || y % 400 == 0
}

pub open spec fn days_in_month(y: int, m: int) -> int {
    if m == 2 {
        if is_leap_year(y) { 29 } else { 28 }
    } else if m == 4 || m == 6 || m == 9 || m == 11 {
        30
    } else {
        31
    }
}

/// Whether `(y, m, d)` names an existing day with a year of at most four digits.
pub open spec fn valid_ymd(y: int, m: int, d: int) -> bool {
    &&& 0 <= y <= 9999
    &&& 1 <= m <= 12
    &&& 1 <= d <= days_in_month(y, m)
}

pub open spec fn is_digit(c: char) -> bool {
    '0' <= c <= '9'
}

pub open spec fn digit_value(c: char) -> int {
    c as int - '0' as int
}

pub open spec fn digit_char(n: int) -> char {
    ((n + '0' as int) as u32) as char
}

/// Whether `s` has the shape `DDDD-DD-DD` with ASCII digits `D`.
pub open spec fn has_iso_shape(s: Seq<char>) -> bool {
    &&& s.len() == 10
    &&& s[4] == '-'
    &&& s[7] == '-'
    &&& forall|i: int| 0 <= i < 10 && i != 4 && i != 7 ==> is_digit(#[trigger] s[i])
}

/// The value of the decimal digits `s[from..to]`.
pub open spec fn digits_value(s: Seq<char>, from: int, to: int) -> int
    decreases to - from,
{
    if to <= from {
        0
    } else {
        digits_value(s, from, to - 1) * 10 + digit_value(s[to - 1])
    }
}

impl CalendarDate {
    pub open spec fn valid(self) -> bool {
        valid_ymd(self.year as int, self.month as int, self.day as int)
    }

    /// The text `YYYY-MM-DD` of this date, zero-padded.
    pub open spec fn iso_text(self) -> Seq<char> {
        seq![
            digit_char(self.year as int / 1000),
            digit_char(self.year as int / 100 % 10),
            digit_char(self.year as int / 10 % 10),
            digit_char(self.year as int % 10),
            '-',
            digit_char(self.month as int / 10),
            digit_char(self.month as int % 10),
            '-',
            digit_char(self.day as int / 10),
            digit_char(self.day as int % 10),
        ]
    }

    /// Whether this day comes no later than `other`.
    pub open spec fn no_later_than(self, other: CalendarDate) -> bool {
        ||| self.year < other.year
        ||| self.year == other.year && self.month < other.month
        ||| self.year == other.year && self.month == other.month && self.day <= other.day
    }

    /// Whether this day comes no later than `other`.
    pub fn is_no_later_than(&self, other: &CalendarDate) -> (r: bool)
        ensures
            r == self.no_later_than(*other),
    {
        self.year < other.year || (self.year == other.year && self.month < other.month) || (
        self.year == other.year && self.month == other.month && self.day <= other.day)
    }
}

/// The date that `s` denotes, if it is a `YYYY-MM-DD` text of an existing day.
pub open spec fn date_of_text(s: Seq<char>) -> Option<CalendarDate> {
    if has_iso_shape(s) && valid_ymd(
        digits_value(s, 0, 4),
        digits_value(s, 5, 7),
        digits_value(s, 8, 10),
    ) {
        Some(
            CalendarDate {
                year: digits_value(s, 0, 4) as u32,
                month: digits_value(s, 5, 7) as u32,
                day: digits_value(s, 8, 10) as u32,
            },
        )
    } else {
        None
    }
}

/// Relies on chrono's `NaiveDate::from_ymd_opt`, which returns `None` exactly for
/// a month outside 1..=12, a day the month lacks, or a year outside its range
/// (which holds every four-digit year).
#[verifier::external_body]
fn chrono_accepts(year: u32, month: u32, day: u32) -> (r: bool)
    requires
        year <= 9999,
    ensures
        r == valid_ymd(year as int, month as int, day as int),
{
    chrono::NaiveDate::from_ymd_opt(year as i32, month, day).is_some()
}

/// Reads the digits `s[from..to]` as a number.
fn read_digits(s: &str, from: usize, to: usize) -> (r: u32)
    requires
        from <= to <= s@.len(),
        to - from <= 4,
        forall|i: int| from <= i < to ==> is_digit(#[trigger] s@[i]),
    ensures
        r as int == digits_value(s@, from as int, to as int),
        r < 10000,
{
    let mut v: u32 = 0;
    let mut i: usize = from;
    while i < to
        invariant
            from <= i <= to,
            to <= s@.len(),
            to - from <= 4,
            forall|k: int| from <= k < to ==> is_digit(#[trigger] s@[k]),
            v as int == digits_value(s@, from as int, i as int),
            0 <= v < pow10((i - from) as nat),
        decreases to - i,
    {
        let c = s.get_char(i);
        assert(is_digit(s@[i as int]));
        let d = (c as u32) - ('0' as u32);
        proof {
            reveal_with_fuel(pow10, 5);
        }
        assert(v * 10 + d < pow10((i + 1 - from) as nat)) by {
            assert(pow10((i + 1 - from) as nat) == 10 * pow10((i - from) as nat));
        }
        v = v * 10 + d;
        i = i + 1;
    }
    proof {
        reveal_with_fuel(pow10, 5);
    }
    v
}

pub open spec fn pow10(n: nat) -> int
    decreases n,
{
    if n == 0 { 1 } else { 10 * pow10((n - 1) as nat) }
}

/// Parses a `YYYY-MM-DD` text into the date it names.
pub fn parse_date(s: &str) -> (r: Option<CalendarDate>)
    ensures
        r == date_of_text(s@),
{
    let n = s.unicode_len();
    if n != 10 {
        return None;
    }
    let mut i: usize = 0;
    while i < 10
        invariant
            s@.len() == 10,
            i <= 10,
            forall|k: int| 0 <= k < i && k != 4 && k != 7 ==> is_digit(#[trigger] s@[k]),
        decreases 10 - i,
    {
        let c = s.get_char(i);
        if i == 4 || i == 7 {
            if c != '-' {
                return None;
            }
        } else if !('0' <= c && c <= '9') {
            return None;
        }
        i = i + 1;
    }
    if s.get_char(4) != '-' || s.get_char(7) != '-' {
        return None;
    }
    let y = read_digits(s, 0, 4);
    let m = read_digits(s, 5, 7);
    let d = read_digits(s, 8, 10);
    if chrono_accepts(y, m, d) {
        Some(CalendarDate { year: y, month: m, day: d })
    } else {
        None
    }
}


/// The one-character text of the digit `n`.
pub(crate) fn digit_text(n: u32) -> (r: &'static str)
    requires
        n < 10,
    ensures
        r@ == seq![digit_char(n as int)],
{
    let r = match n {
        0 => "0",
        1 => "1",
        2 => "2",
        3 => "3",
        4 => "4",
        5 => "5",
        6 => "6",
        7 => "7",
        8 => "8",
        _ => "9",
    };
    proof {
        reveal_strlit("0");
        reveal_strlit("1");
        reveal_strlit("2");
        reveal_strlit("3");
        reveal_strlit("4");
        reveal_strlit("5");
        reveal_strlit("6");
        reveal_strlit("7");
        reveal_strlit("8");
        reveal_strlit("9");
    }
    r
}

impl CalendarDate {
    /// Writes this date as `YYYY-MM-DD`.
    pub fn to_iso_string(&self) -> (r: String)
        requires
            self.valid(),
        ensures
            r@ == self.iso_text(),
    {
        let mut out = String::new();
        out.append(digit_text(self.year / 1000));
        out.append(digit_text(self.year / 100 % 10));
        out.append(digit_text(self.year / 10 % 10));
        out.append(digit_text(self.year % 10));
        out.append("-");
        out.append(digit_text(self.month / 10));
        out.append(digit_text(self.month % 10));
        out.append("-");
        out.append(digit_text(self.day / 10));
        out.append(digit_text(self.day % 10));
        proof {
            reveal_strlit("-");
            assert(out@ =~= self.iso_text());
        }
        out
    }
}

proof fn lemma_digit_round_trip(c: char)
    requires
        is_digit(c),
    ensures
        digit_char(digit_value(c)) == c,
        0 <= digit_value(c) < 10,
{
}

proof fn lemma_digit_char(n: int)
    requires
        0 <= n < 10,
    ensures
        is_digit(digit_char(n)),
        digit_value(digit_char(n)) == n,
{
}

/// Reading a `YYYY-MM-DD` text and writing the date back gives the same text,
/// and writing a date and reading it back gives the same date.
pub proof fn lemma_date_text_round_trip(s: Seq<char>, d: CalendarDate)
    ensures
        date_of_text(s) matches Some(p) ==> p.valid() && p.iso_text() == s,
        d.valid() ==> date_of_text(d.iso_text()) == Some(d),
{
    reveal_with_fuel(digits_value, 5);
    if let Some(p) = date_of_text(s) {
        assert(is_digit(s[0]) && is_digit(s[1]) && is_digit(s[2]) && is_digit(s[3]));
        assert(is_digit(s[5]) && is_digit(s[6]) && is_digit(s[8]) && is_digit(s[9]));
        lemma_digit_round_trip(s[0]);
        lemma_digit_round_trip(s[1]);
        lemma_digit_round_trip(s[2]);
        lemma_digit_round_trip(s[3]);
        lemma_digit_round_trip(s[5]);
        lemma_digit_round_trip(s[6]);
        lemma_digit_round_trip(s[8]);
        lemma_digit_round_trip(s[9]);
        let (a, b, c, e) = (digit_value(s[0]), digit_value(s[1]), digit_value(s[2]), digit_value(s[3]));
        let y = ((a * 10 + b) * 10 + c) * 10 + e;
        assert(y / 1000 == a && y / 100 % 10 == b && y / 10 % 10 == c && y % 10 == e)
            by (nonlinear_arith)
            requires 0 <= a < 10, 0 <= b < 10, 0 <= c < 10, 0 <= e < 10, y == ((a * 10 + b) * 10 + c) * 10 + e;
        let (f, g) = (digit_value(s[5]), digit_value(s[6]));
        assert((f * 10 + g) / 10 == f && (f * 10 + g) % 10 == g);
        let (h, k) = (digit_value(s[8]), digit_value(s[9]));
        assert((h * 10 + k) / 10 == h && (h * 10 + k) % 10 == k);
        assert(p.iso_text() =~= s);
    }
    if d.valid() {
        let t = d.iso_text();
        let y = d.year as int;
        lemma_digit_char(y / 1000);
        lemma_digit_char(y / 100 % 10);
        lemma_digit_char(y / 10 % 10);
        lemma_digit_char(y % 10);
        lemma_digit_char(d.month as int / 10);
        lemma_digit_char(d.month as int % 10);
        lemma_digit_char(d.day as int / 10);
        lemma_digit_char(d.day as int % 10);
        assert(((y / 1000 * 10 + y / 100 % 10) * 10 + y / 10 % 10) * 10 + y % 10 == y)
            by (nonlinear_arith)
            requires 0 <= y <= 9999;
        assert(has_iso_shape(t));
    }
}

} // verus!
