use vstd::prelude::*;

use crate::chars::{digit_char, digit_val, is_digit, spec_digit_char, val_of_digit};

verus! {

/// A calendar date of the proleptic Gregorian calendar, held as plain
/// year/month/day numbers. Years are restricted to the four-digit range that
/// the task-record grammar can write down.
#[derive(Clone, Copy, PartialEq, Eq, Structural, Debug)]
pub struct Date {
    pub year: u32,
    pub month: u32,
    pub day: u32,
}

pub open spec fn is_leap_year(y: int) -> bool {
    (y % 4 == 0 && y % 100 != 0) || y % 400 == 0
}

pub open spec fn spec_days_in_month(y: int, m: int) -> int {
    if m == 2 {
        if is_leap_year(y) {
            29
        } else {
            28
        }
    } else if m == 4 || m == 6 || m == 9 || m == 11 {
        30
    } else {
        31
    }
}

pub fn days_in_month(y: u32, m: u32) -> (r: u32)
    ensures
        r == spec_days_in_month(y as int, m as int),
{
    if m == 2 {
        if (y % 4 == 0 && y % 100 != 0) || y % 400 == 0 {
            29
        } else {
            28
        }
    } else if m == 4 || m == 6 || m == 9 || m == 11 {
        30
    } else {
        31
    }
}

/// The first date the grammar can write: 0000-01-01.
pub open spec fn min_date() -> Date {
    Date { year: 0, month: 1, day: 1 }
}

/// The last date the grammar can write: 9999-12-31.
pub open spec fn max_date() -> Date {
    Date { year: 9999, month: 12, day: 31 }
}

/// The next calendar day; saturates at the top of the representable range.
pub open spec fn spec_next_day(d: Date) -> Date {
    if d == max_date() {
        d
    } else if (d.day as int) < spec_days_in_month(d.year as int, d.month as int) {
        Date { year: d.year, month: d.month, day: (d.day + 1) as u32 }
    } else if d.month < 12 {
        Date { year: d.year, month: (d.month + 1) as u32, day: 1 }
    } else {
        Date { year: (d.year + 1) as u32, month: 1, day: 1 }
    }
}

/// The previous calendar day; saturates at the bottom of the representable
/// range.
pub open spec fn spec_prev_day(d: Date) -> Date {
    if d == min_date() {
        d
    } else if d.day > 1 {
        Date { year: d.year, month: d.month, day: (d.day - 1) as u32 }
    } else if d.month > 1 {
        Date {
            year: d.year,
            month: (d.month - 1) as u32,
            day: spec_days_in_month(d.year as int, d.month as int - 1) as u32,
        }
    } else {
        Date { year: (d.year - 1) as u32, month: 12, day: 31 }
    }
}

/// `n` applications of `spec_next_day`.
pub open spec fn spec_add_days(d: Date, n: nat) -> Date
    decreases n,
{
    if n == 0 {
        d
    } else {
        spec_add_days(spec_next_day(d), (n - 1) as nat)
    }
}

/// Day count in a fixed linear numbering of Gregorian dates. Shifting the
/// year by 400 keeps every intermediate quantity non-negative and leaves
/// weekdays unchanged, since 400 Gregorian years are exactly 20871 weeks.
pub open spec fn spec_day_number(d: Date) -> int {
    let m = d.month as int;
    let y = if m <= 2 {
        d.year as int + 399
    } else {
        d.year as int + 400
    };
    let era = y / 400;
    let yoe = y - era * 400;
    let mp = if m <= 2 {
        m + 9
    } else {
        m - 3
    };
    let doy = (153 * mp + 2) / 5 + d.day as int - 1;
    era * 146097 + yoe * 365 + yoe / 4 - yoe / 100 + doy
}

/// Weekday of a date, numbered Monday = 1 .. Sunday = 7.
pub open spec fn spec_weekday(d: Date) -> int {
    (spec_day_number(d) + 2) % 7 + 1
}

/// Days to add to reach the coming Friday from a weekday numbered
/// Monday = 1 .. Sunday = 7.
pub open spec fn spec_weekend_delta(w: int) -> int {
    if w <= 5 {
        5 - w
    } else {
        12 - w
    }
}

impl Date {
    pub open spec fn valid(self) -> bool {
        &&& self.year <= 9999
        &&& 1 <= self.month <= 12
        &&& 1 <= self.day <= spec_days_in_month(self.year as int, self.month as int)
    }

    pub fn check_valid(&self) -> (r: bool)
        ensures
            r == self.valid(),
    {
        self.year <= 9999 && 1 <= self.month && self.month <= 12 && 1 <= self.day && self.day
            <= days_in_month(self.year, self.month)
    }

    pub fn succ(&self) -> (r: Date)
        requires
            self.valid(),
        ensures
            r == spec_next_day(*self),
            r.valid(),
    {
        if self.year == 9999 && self.month == 12 && self.day == 31 {
            *self
        } else if self.day < days_in_month(self.year, self.month) {
            Date { year: self.year, month: self.month, day: self.day + 1 }
        } else if self.month < 12 {
            Date { year: self.year, month: self.month + 1, day: 1 }
        } else {
            Date { year: self.year + 1, month: 1, day: 1 }
        }
    }

    pub fn pred(&self) -> (r: Date)
        requires
            self.valid(),
        ensures
            r == spec_prev_day(*self),
            r.valid(),
    {
        if self.year == 0 && self.month == 1 && self.day == 1 {
            *self
        } else if self.day > 1 {
            Date { year: self.year, month: self.month, day: self.day - 1 }
        } else if self.month > 1 {
            Date { year: self.year, month: self.month - 1, day: days_in_month(self.year, self.month - 1) }
        } else {
            Date { year: self.year - 1, month: 12, day: 31 }
        }
    }

    pub fn add_days(&self, n: u32) -> (r: Date)
        requires
            self.valid(),
        ensures
            r == spec_add_days(*self, n as nat),
            r.valid(),
    {
        let mut cur: Date = *self;
        let mut k: u32 = 0;
        while k < n
            invariant
                k <= n,
                cur.valid(),
                spec_add_days(*self, n as nat) == spec_add_days(cur, (n - k) as nat),
            decreases n - k,
        {
            cur = cur.succ();
            k += 1;
        }
        cur
    }

    pub fn weekday(&self) -> (r: u32)
        requires
            self.valid(),
        ensures
            r == spec_weekday(*self),
            1 <= r <= 7,
    {
        let year = self.year as u64;
        let y: u64 = if self.month <= 2 {
            year + 399
        } else {
            year + 400
        };
        let era: u64 = y / 400;
        assert(era * 400 <= y);
        let yoe: u64 = y - era * 400;
        let mp: u64 = if self.month <= 2 {
            self.month as u64 + 9
        } else {
            self.month as u64 - 3
        };
        let doy: u64 = (153 * mp + 2) / 5 + self.day as u64 - 1;
        assert(yoe / 100 <= 3);
        let dn: u64 = era * 146097 + yoe * 365 + yoe / 4 - yoe / 100 + doy;
        ((dn + 2) % 7 + 1) as u32
    }
}

/// The ten characters `YYYY-MM-DD` of a date.
pub open spec fn spec_date_seq(d: Date) -> Seq<char> {
    let y = d.year as int;
    let m = d.month as int;
    let dd = d.day as int;
    let yr = y % 1000;
    let yr2 = yr % 100;
    seq![
        spec_digit_char(y / 1000),
        spec_digit_char(yr / 100),
        spec_digit_char(yr2 / 10),
        spec_digit_char(yr2 % 10),
        '-',
        spec_digit_char(m / 10),
        spec_digit_char(m % 10),
        '-',
        spec_digit_char(dd / 10),
        spec_digit_char(dd % 10),
    ]
}

/// Ten characters starting at `i` have the shape `YYYY-MM-DD`.
pub open spec fn date_pattern_at(s: Seq<char>, i: int) -> bool {
    &&& 0 <= i
    &&& i + 10 <= s.len()
    &&& is_digit(s[i])
    &&& is_digit(s[i + 1])
    &&& is_digit(s[i + 2])
    &&& is_digit(s[i + 3])
    &&& s[i + 4] == '-'
    &&& is_digit(s[i + 5])
    &&& is_digit(s[i + 6])
    &&& s[i + 7] == '-'
    &&& is_digit(s[i + 8])
    &&& is_digit(s[i + 9])
}

/// The date written by a `YYYY-MM-DD` pattern at `i`.
pub open spec fn date_value_at(s: Seq<char>, i: int) -> Date {
    Date {
        year: (digit_val(s[i]) * 1000 + digit_val(s[i + 1]) * 100 + digit_val(s[i + 2]) * 10
            + digit_val(s[i + 3])) as u32,
        month: (digit_val(s[i + 5]) * 10 + digit_val(s[i + 6])) as u32,
        day: (digit_val(s[i + 8]) * 10 + digit_val(s[i + 9])) as u32,
    }
}

/// A well-shaped date pattern at `i` that also names a valid calendar date.
pub open spec fn date_ok_at(s: Seq<char>, i: int) -> bool {
    date_pattern_at(s, i) && date_value_at(s, i).valid()
}

/// Reads a `YYYY-MM-DD` token at position `i`, accepting only valid
/// calendar dates.
pub fn read_date_at(s: &Vec<char>, i: usize) -> (r: Option<Date>)
    ensures
        r == (if date_ok_at(s@, i as int) {
            Some(date_value_at(s@, i as int))
        } else {
            None::<Date>
        }),
{
    if s.len() < 10 || i > s.len() - 10 {
        return None;
    }
    if !(crate::chars::digit(s[i]) && crate::chars::digit(s[i + 1]) && crate::chars::digit(s[i + 2])
        && crate::chars::digit(s[i + 3]) && s[i + 4] == '-' && crate::chars::digit(s[i + 5])
        && crate::chars::digit(s[i + 6]) && s[i + 7] == '-' && crate::chars::digit(s[i + 8])
        && crate::chars::digit(s[i + 9])) {
        return None;
    }
    let year = val_of_digit(s[i]) * 1000 + val_of_digit(s[i + 1]) * 100 + val_of_digit(s[i + 2])
        * 10 + val_of_digit(s[i + 3]);
    let month = val_of_digit(s[i + 5]) * 10 + val_of_digit(s[i + 6]);
    let day = val_of_digit(s[i + 8]) * 10 + val_of_digit(s[i + 9]);
    let d = Date { year, month, day };
    if d.check_valid() {
        Some(d)
    } else {
        None
    }
}

/// Appends the ten characters `YYYY-MM-DD` of a valid date.
pub fn push_date(out: &mut String, d: &Date)
    requires
        d.valid(),
    ensures
        final(out)@ == old(out)@ + spec_date_seq(*d),
{
    let y = d.year;
    let yr = y % 1000;
    let yr2 = yr % 100;
    crate::chars::push_char(out, digit_char(y / 1000));
    crate::chars::push_char(out, digit_char(yr / 100));
    crate::chars::push_char(out, digit_char(yr2 / 10));
    crate::chars::push_char(out, digit_char(yr2 % 10));
    crate::chars::push_char(out, '-');
    crate::chars::push_char(out, digit_char(d.month / 10));
    crate::chars::push_char(out, digit_char(d.month % 10));
    crate::chars::push_char(out, '-');
    crate::chars::push_char(out, digit_char(d.day / 10));
    crate::chars::push_char(out, digit_char(d.day % 10));
    proof {
        assert(final(out)@ =~= old(out)@ + spec_date_seq(*d));
    }
}

/// Rendering a valid date gives a well-shaped pattern that reads back as the
/// same date, and its characters are digits or dashes (so none of them is
/// whitespace and none is any other marker of the grammar).
pub proof fn lemma_date_seq_roundtrip(d: Date)
    requires
        d.valid(),
    ensures
        spec_date_seq(d).len() == 10,
        date_pattern_at(spec_date_seq(d), 0),
        date_value_at(spec_date_seq(d), 0) == d,
        date_ok_at(spec_date_seq(d), 0),
        forall|j: int|
            0 <= j < 10 ==> (is_digit(#[trigger] spec_date_seq(d)[j]) || spec_date_seq(d)[j]
                == '-'),
{
    let s = spec_date_seq(d);
    let y = d.year as int;
    let m = d.month as int;
    let dd = d.day as int;
    let yr = y % 1000;
    let yr2 = yr % 100;
    crate::chars::lemma_digit_char_val(y / 1000);
    crate::chars::lemma_digit_char_val(yr / 100);
    crate::chars::lemma_digit_char_val(yr2 / 10);
    crate::chars::lemma_digit_char_val(yr2 % 10);
    crate::chars::lemma_digit_char_val(m / 10);
    crate::chars::lemma_digit_char_val(m % 10);
    crate::chars::lemma_digit_char_val(dd / 10);
    crate::chars::lemma_digit_char_val(dd % 10);
    assert(y == 1000 * (y / 1000) + yr);
    assert(yr == 100 * (yr / 100) + yr2);
    assert(yr2 == 10 * (yr2 / 10) + yr2 % 10);
    assert(m == 10 * (m / 10) + m % 10);
    assert(dd == 10 * (dd / 10) + dd % 10);
    assert(date_value_at(s, 0).year == d.year);
    assert(date_value_at(s, 0).month == d.month);
    assert(date_value_at(s, 0).day == d.day);
    assert forall|j: int| 0 <= j < 10 implies (is_digit(#[trigger] s[j]) || s[j] == '-') by {
        if j == 4 || j == 7 {
        } else {
        }
    }
}

/// Relies on chrono: `Local::now().date_naive()` is the current calendar
/// date, and `Datelike::month` / `Datelike::day` return a month in 1..=12
/// and a day in 1..=31, as chrono documents.
#[verifier::external_body]
fn today_ymd() -> (r: (i64, u64, u64))
    ensures
        1 <= r.1 <= 12,
        1 <= r.2 <= 31,
{
    let d = chrono::Local::now().date_naive();
    let y = chrono::Datelike::year(&d);
    let m = chrono::Datelike::month(&d);
    let dd = chrono::Datelike::day(&d);
    (y as i64, m as u64, dd as u64)
}

/// The current local date, clamped into the range the record grammar can
/// express; falls back to 2000-01-01 should the clock report a year outside
/// 0..=9999 or a day that does not exist in its month.
pub fn today() -> (r: Date)
    ensures
        r.valid(),
{
    let (y, m, dd) = today_ymd();
    if 0 <= y && y <= 9999 {
        let cand = Date { year: y as u32, month: m as u32, day: dd as u32 };
        if cand.day <= days_in_month(cand.year, cand.month) {
            return cand;
        }
    }
    Date { year: 2000, month: 1, day: 1 }
}

} // verus!
