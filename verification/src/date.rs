//! Calendar dates as plain year/month/day values: ordering, whole-month
//! spans, and the fixed ten-character rendering stored in event details.
use vstd::prelude::*;
use crate::numfmt::{dec_digit, digit_str};

verus! {

/// A calendar date held as plain values. Depreciation periods are given and
/// stored at day resolution.
#[derive(Clone, Copy, Debug, PartialEq, Eq, Structural)]
pub struct CalendarDate {
    pub year: i32,
    pub month: u32,
    pub day: u32,
}

impl CalendarDate {
    /// A date the ten-character rendering can carry.
    pub open spec fn valid(self) -> bool {
        &&& 1 <= self.year <= 9999
        &&& 1 <= self.month <= 12
        &&& 1 <= self.day <= 31
    }

    /// Strict chronological order, by year, then month, then day.
    pub open spec fn before(self, other: Self) -> bool {
        ||| self.year < other.year
        ||| (self.year == other.year && self.month < other.month)
        ||| (self.year == other.year && self.month == other.month && self.day < other.day)
    }

    /// Whether this date falls strictly before the other.
    pub fn earlier(&self, other: &Self) -> (r: bool)
        ensures
            r == self.before(*other),
    {
        self.year < other.year || (self.year == other.year && self.month < other.month) || (
        self.year == other.year && self.month == other.month && self.day < other.day)
    }
}

/// The number of whole months from `start` to `end`: the month difference,
/// one less when the end day has not yet reached the start day, floored at
/// zero.
pub open spec fn spec_months_between(start: CalendarDate, end: CalendarDate) -> int {
    let raw = (end.year - start.year) * 12 + end.month - start.month;
    let adjusted = if end.day < start.day {
        raw - 1
    } else {
        raw
    };
    if adjusted > 0 {
        adjusted
    } else {
        0
    }
}

/// Counts the whole months between two dates.
pub fn months_between(start: CalendarDate, end: CalendarDate) -> (r: i32)
    requires
        start.valid(),
        end.valid(),
    ensures
        r == spec_months_between(start, end),
        0 <= r <= 120000,
{
    let raw: i32 = (end.year - start.year) * 12 + (end.month as i32 - start.month as i32);
    let adjusted: i32 = if end.day < start.day {
        raw - 1
    } else {
        raw
    };
    if adjusted > 0 {
        adjusted
    } else {
        0
    }
}

/// The four-digit zero-padded rendering of a value up to 9999.
pub open spec fn pad4(n: int) -> Seq<char> {
    seq![
        dec_digit(n / 1000 % 10),
        dec_digit(n / 100 % 10),
        dec_digit(n / 10 % 10),
        dec_digit(n % 10),
    ]
}

/// The two-digit zero-padded rendering of a value up to 99.
pub open spec fn pad2(n: int) -> Seq<char> {
    seq![dec_digit(n / 10 % 10), dec_digit(n % 10)]
}

/// The ten-character rendering of a date: zero-padded year, month and day
/// separated by hyphens.
pub open spec fn date_chars(d: CalendarDate) -> Seq<char> {
    pad4(d.year as int) + seq!['-'] + pad2(d.month as int) + seq!['-'] + pad2(d.day as int)
}

/// Renders a date in its ten-character form.
pub fn format_date(d: &CalendarDate) -> (r: String)
    requires
        d.valid(),
    ensures
        r@ == date_chars(*d),
        r@.len() == 10,
{
    proof {
        reveal_strlit("-");
    }
    let y = d.year as u32;
    let mut out = String::new();
    out.append(digit_str((y / 1000 % 10) as u8));
    out.append(digit_str((y / 100 % 10) as u8));
    out.append(digit_str((y / 10 % 10) as u8));
    out.append(digit_str((y % 10) as u8));
    out.append("-");
    out.append(digit_str((d.month / 10 % 10) as u8));
    out.append(digit_str((d.month % 10) as u8));
    out.append("-");
    out.append(digit_str((d.day / 10 % 10) as u8));
    out.append(digit_str((d.day % 10) as u8));
    assert(out@ =~= date_chars(*d));
    out
}

/// Whether a character is a decimal digit.
pub open spec fn is_dec_digit(c: char) -> bool {
    c == '0' || c == '1' || c == '2' || c == '3' || c == '4' || c == '5' || c == '6' || c == '7'
        || c == '8' || c == '9'
}

/// The value of a decimal digit character.
pub open spec fn digit_val(c: char) -> int {
    if c == '0' {
        0
    } else if c == '1' {
        1
    } else if c == '2' {
        2
    } else if c == '3' {
        3
    } else if c == '4' {
        4
    } else if c == '5' {
        5
    } else if c == '6' {
        6
    } else if c == '7' {
        7
    } else if c == '8' {
        8
    } else {
        9
    }
}

/// The date a ten-character rendering denotes, or nothing when the text is
/// not in that form or the date is out of range.
pub open spec fn spec_parse_date(s: Seq<char>) -> Option<CalendarDate> {
    if s.len() == 10 && is_dec_digit(s[0]) && is_dec_digit(s[1]) && is_dec_digit(s[2])
        && is_dec_digit(s[3]) && s[4] == '-' && is_dec_digit(s[5]) && is_dec_digit(s[6]) && s[7]
        == '-' && is_dec_digit(s[8]) && is_dec_digit(s[9]) {
        let d = CalendarDate {
            year: (((digit_val(s[0]) * 10 + digit_val(s[1])) * 10 + digit_val(s[2])) * 10
                + digit_val(s[3])) as i32,
            month: (digit_val(s[5]) * 10 + digit_val(s[6])) as u32,
            day: (digit_val(s[8]) * 10 + digit_val(s[9])) as u32,
        };
        if d.valid() {
            Option::Some(d)
        } else {
            Option::None
        }
    } else {
        Option::None
    }
}

/// Reads one digit character.
fn read_digit(s: &str, i: usize) -> (r: Option<u32>)
    requires
        i < s@.len(),
    ensures
        match r {
            Option::Some(v) => is_dec_digit(s@[i as int]) && v == digit_val(s@[i as int]) && v
                <= 9,
            Option::None => !is_dec_digit(s@[i as int]),
        },
{
    let c = s.get_char(i);
    if c == '0' {
        Option::Some(0)
    } else if c == '1' {
        Option::Some(1)
    } else if c == '2' {
        Option::Some(2)
    } else if c == '3' {
        Option::Some(3)
    } else if c == '4' {
        Option::Some(4)
    } else if c == '5' {
        Option::Some(5)
    } else if c == '6' {
        Option::Some(6)
    } else if c == '7' {
        Option::Some(7)
    } else if c == '8' {
        Option::Some(8)
    } else if c == '9' {
        Option::Some(9)
    } else {
        Option::None
    }
}

/// Parses the ten-character date form; malformed text yields nothing.
pub fn parse_date(s: &str) -> (r: Option<CalendarDate>)
    ensures
        r == spec_parse_date(s@),
{
    if s.unicode_len() != 10 {
        return Option::None;
    }
    let c4 = s.get_char(4);
    let c7 = s.get_char(7);
    if c4 != '-' || c7 != '-' {
        return Option::None;
    }
    let d0 = read_digit(s, 0);
    let d1 = read_digit(s, 1);
    let d2 = read_digit(s, 2);
    let d3 = read_digit(s, 3);
    let d5 = read_digit(s, 5);
    let d6 = read_digit(s, 6);
    let d8 = read_digit(s, 8);
    let d9 = read_digit(s, 9);
    match (d0, d1, d2, d3, d5, d6, d8, d9) {
        (
            Option::Some(y0),
            Option::Some(y1),
            Option::Some(y2),
            Option::Some(y3),
            Option::Some(m0),
            Option::Some(m1),
            Option::Some(dd0),
            Option::Some(dd1),
        ) => {
            let parsed = CalendarDate {
                year: (((y0 * 10 + y1) * 10 + y2) * 10 + y3) as i32,
                month: m0 * 10 + m1,
                day: dd0 * 10 + dd1,
            };
            if 1 <= parsed.year && 1 <= parsed.month && parsed.month <= 12 && 1 <= parsed.day
                && parsed.day <= 31 {
                Option::Some(parsed)
            } else {
                Option::None
            }
        },
        _ => Option::None,
    }
}

/// A digit character renders and reads back to the same value.
proof fn lemma_digit_inverse(x: int)
    requires
        0 <= x <= 9,
    ensures
        is_dec_digit(dec_digit(x)),
        digit_val(dec_digit(x)) == x,
{
}

/// A rendered valid date always parses back to the same date.
#[verifier::rlimit(50)]
pub proof fn lemma_date_round_trip(d: CalendarDate)
    requires
        d.valid(),
    ensures
        spec_parse_date(date_chars(d)) == Option::Some(d),
{
    let s = date_chars(d);
    let y = d.year as int;
    let m = d.month as int;
    let dy = d.day as int;
    assert(s[0] == dec_digit(y / 1000 % 10));
    assert(s[1] == dec_digit(y / 100 % 10));
    assert(s[2] == dec_digit(y / 10 % 10));
    assert(s[3] == dec_digit(y % 10));
    assert(s[4] == '-');
    assert(s[5] == dec_digit(m / 10 % 10));
    assert(s[6] == dec_digit(m % 10));
    assert(s[7] == '-');
    assert(s[8] == dec_digit(dy / 10 % 10));
    assert(s[9] == dec_digit(dy % 10));
    lemma_digit_inverse(y / 1000 % 10);
    lemma_digit_inverse(y / 100 % 10);
    lemma_digit_inverse(y / 10 % 10);
    lemma_digit_inverse(y % 10);
    lemma_digit_inverse(m / 10 % 10);
    lemma_digit_inverse(m % 10);
    lemma_digit_inverse(dy / 10 % 10);
    lemma_digit_inverse(dy % 10);
    assert(((y / 1000 % 10) * 10 + y / 100 % 10) * 10 + y / 10 % 10 == y / 10) by {
        assert(y / 1000 % 10 == y / 1000);
        assert(y / 10 == (y / 1000) * 100 + (y / 10) % 100);
        assert((y / 10) % 100 == (y / 100 % 10) * 10 + y / 10 % 10);
    };
    assert((y / 10) * 10 + y % 10 == y);
    assert((m / 10 % 10) * 10 + m % 10 == m) by {
        assert(m / 10 % 10 == m / 10);
    };
    assert((dy / 10 % 10) * 10 + dy % 10 == dy) by {
        assert(dy / 10 % 10 == dy / 10);
    };
}

} // verus!
