//! Wall-clock timestamps with a verified proleptic-Gregorian calendar.
//!
//! A [`Timestamp`] holds the wall-time fields of an RFC 3339 date-time
//! together with its UTC offset.  Parsing is delegated to chrono behind
//! a trusted wrapper; every computation on the parsed fields (minute
//! arithmetic, day rollover, formatting) is verified here against the
//! calendar model: `min_idx` numbers every minute from the start of
//! year 0.

use vstd::prelude::*;
use crate::text::{dec2, dec4, push_2dig, push_4dig, push_char, is_digit, digit_val};
use chrono::{Datelike, Timelike};

verus! {

#[derive(Clone, Copy, PartialEq, Eq, Structural, Debug)]
pub struct Timestamp {
    pub year: i32,
    pub month: u32,
    pub day: u32,
    pub hour: u32,
    pub minute: u32,
    pub second: u32,
    /// Offset of local wall time ahead of UTC, in seconds.
    pub offset_sec: i32,
}

pub open spec fn is_leap(y: int) -> bool {
    y % 4 == 0 && (y % 100 != 0 || y % 400 == 0)
}

pub open spec fn days_in_year(y: int) -> int {
    if is_leap(y) {
        366
    } else {
        365
    }
}

pub open spec fn days_in_month(y: int, m: int) -> int {
    if m == 1 {
        31
    } else if m == 2 {
        if is_leap(y) {
            29
        } else {
            28
        }
    } else if m == 3 {
        31
    } else if m == 4 {
        30
    } else if m == 5 {
        31
    } else if m == 6 {
        30
    } else if m == 7 {
        31
    } else if m == 8 {
        31
    } else if m == 9 {
        30
    } else if m == 10 {
        31
    } else if m == 11 {
        30
    } else {
        31
    }
}

/// Days in the months of year `y` that precede month `m`.
pub open spec fn days_before_month(y: int, m: int) -> int
    decreases m,
{
    if m <= 1 {
        0
    } else {
        days_before_month(y, m - 1) + days_in_month(y, m - 1)
    }
}

/// Days in the years that precede year `y`, counting from year 0.
pub open spec fn days_before_year(y: int) -> int
    decreases y,
{
    if y <= 0 {
        0
    } else {
        days_before_year(y - 1) + days_in_year(y - 1)
    }
}

impl Timestamp {
    /// Field-validity of a timestamp: a real calendar date, a real wall
    /// time, and an RFC 3339 offset (whole minutes, below a day).
    pub open spec fn wf(self) -> bool {
        &&& 0 <= self.year <= 9999
        &&& 1 <= self.month <= 12
        &&& 1 <= self.day <= days_in_month(self.year as int, self.month as int)
        &&& self.hour <= 23
        &&& self.minute <= 59
        &&& self.second <= 59
        &&& -86340 <= self.offset_sec <= 86340
        &&& self.offset_sec % 60 == 0
    }

    /// Days from the start of year 0 to this date.
    pub open spec fn date_idx(self) -> int {
        days_before_year(self.year as int) + days_before_month(
            self.year as int,
            self.month as int,
        ) + (self.day - 1)
    }

    /// Minutes from the start of year 0 to this wall time.
    pub open spec fn min_idx(self) -> int {
        self.date_idx() * 1440 + self.hour * 60 + self.minute
    }
}

pub proof fn lemma_dbm_nonneg(y: int, m: int)
    requires
        m >= 1,
    ensures
        days_before_month(y, m) >= 0,
    decreases m,
{
    if m > 1 {
        lemma_dbm_nonneg(y, m - 1);
    }
}

pub proof fn lemma_dby_nonneg(y: int)
    ensures
        days_before_year(y) >= 0,
    decreases y,
{
    if y > 0 {
        lemma_dby_nonneg(y - 1);
    }
}

/// The twelve months of a year hold exactly the days of the year.
pub proof fn lemma_dbm_total(y: int)
    ensures
        days_before_month(y, 13) == days_in_year(y),
{
    reveal_with_fuel(days_before_month, 14);
}

pub proof fn lemma_dby_mono(a: int, b: int)
    requires
        a <= b,
    ensures
        days_before_year(a) <= days_before_year(b),
    decreases b - a,
{
    if a < b {
        lemma_dby_mono(a, b - 1);
    }
}

pub proof fn lemma_dbm_mono(y: int, a: int, b: int)
    requires
        a <= b,
    ensures
        days_before_month(y, a) <= days_before_month(y, b),
    decreases b - a,
{
    if a < b {
        lemma_dbm_mono(y, a, b - 1);
    }
}

/// A well-formed timestamp's day number stays inside its year.
pub proof fn lemma_date_idx_bounds(ts: Timestamp)
    requires
        ts.wf(),
    ensures
        days_before_year(ts.year as int) <= ts.date_idx(),
        ts.date_idx() < days_before_year(ts.year as int + 1),
{
    lemma_dbm_nonneg(ts.year as int, ts.month as int);
    lemma_dbm_mono(ts.year as int, ts.month as int + 1, 13);
    lemma_dbm_total(ts.year as int);
}

pub proof fn lemma_min_idx_nonneg(ts: Timestamp)
    requires
        ts.wf(),
    ensures
        ts.min_idx() >= 0,
{
    lemma_date_idx_bounds(ts);
    lemma_dby_nonneg(ts.year as int);
}

/// Executable days-in-month.
pub fn days_in_month_x(y: i32, m: u32) -> (d: u32)
    ensures
        d == days_in_month(y as int, m as int),
{
    if m == 2 {
        if (y % 4 == 0 && y % 100 != 0) || y % 400 == 0 {
            29
        } else {
            28
        }
    } else if m == 4 || m == 6 || m == 9 || m == 11 {
        30
    } else if m == 1 || m == 3 || m == 5 || m == 7 || m == 8 || m == 10 || m == 12 {
        31
    } else {
        31
    }
}

/// Executable days-in-year.
pub fn days_in_year_x(y: i32) -> (d: u32)
    ensures
        d == days_in_year(y as int),
{
    if (y % 4 == 0 && y % 100 != 0) || y % 400 == 0 {
        366
    } else {
        365
    }
}

/// Computes the minute index of a well-formed timestamp.
pub fn ts_min_idx(ts: &Timestamp) -> (idx: u64)
    requires
        ts.wf(),
    ensures
        idx == ts.min_idx(),
{
    let mut days: u64 = 0;
    let mut y: i32 = 0;
    while y < ts.year
        invariant
            0 <= y <= ts.year <= 9999,
            days == days_before_year(y as int),
            days <= 366 * y,
        decreases ts.year - y,
    {
        days = days + days_in_year_x(y) as u64;
        y = y + 1;
    }
    proof {
        lemma_dby_at_most_366(ts.year as int);
    }
    let mut m: u32 = 1;
    while m < ts.month
        invariant
            1 <= m <= ts.month <= 12,
            days == days_before_year(ts.year as int) + days_before_month(ts.year as int, m as int),
            days_before_year(ts.year as int) <= 366 * 9999,
            days_before_month(ts.year as int, m as int) <= 366,
            0 <= days_before_month(ts.year as int, m as int),
        decreases ts.month - m,
    {
        days = days + days_in_month_x(ts.year, m) as u64;
        m = m + 1;
        proof {
            lemma_dbm_nonneg(ts.year as int, m as int);
            lemma_dbm_mono(ts.year as int, m as int, 13);
            lemma_dbm_total(ts.year as int);
        }
    }
    days = days + (ts.day - 1) as u64;
    proof {
        lemma_dby_nonneg(ts.year as int);
        lemma_dbm_nonneg(ts.year as int, ts.month as int);
    }
    days * 1440 + (ts.hour * 60 + ts.minute) as u64
}

/// Month and day-of-month of day number `d` inside year `y`, counting
/// `d` from 0 at the start of month `m`.
pub open spec fn md_from_days(d: int, y: int, m: int) -> (int, int)
    decreases 13 - m,
{
    if m >= 12 || d < days_in_month(y, m) {
        (m, d + 1)
    } else {
        md_from_days(d - days_in_month(y, m), y, m + 1)
    }
}

/// Year, month and day-of-month of day number `d`, counting `d` from 0
/// at the start of year `y`.
pub open spec fn ymd_from_days(d: int, y: int) -> (int, int, int)
    decreases d,
{
    if d < days_in_year(y) || d < 0 {
        let (m, dd) = md_from_days(d, y, 1);
        (y, m, dd)
    } else {
        ymd_from_days(d - days_in_year(y), y + 1)
    }
}

/// The timestamp at minute index `idx` (fields beyond the minute are
/// taken as given).  Total; meaningful for `idx >= 0`.
pub open spec fn ts_from_idx(idx: int, second: u32, offset_sec: i32) -> Timestamp {
    let d = idx / 1440;
    let rem = idx % 1440;
    let (y, m, dd) = ymd_from_days(d, 0);
    Timestamp {
        year: y as i32,
        month: m as u32,
        day: dd as u32,
        hour: (rem / 60) as u32,
        minute: (rem % 60) as u32,
        second,
        offset_sec,
    }
}

/// The timestamp `delta` minutes after `ts`, same second and offset.
pub open spec fn shift_ts(ts: Timestamp, delta: int) -> Timestamp {
    ts_from_idx(ts.min_idx() + delta, ts.second, ts.offset_sec)
}

/// Whether minute index `idx` still falls before year 10000.
pub open spec fn idx_in_range(idx: int) -> bool {
    0 <= idx < days_before_year(10000) * 1440
}

/// Builds the timestamp at minute index `idx`, or `None` past year 9999.
pub fn ts_from_min_idx(idx: u64, second: u32, offset_sec: i32) -> (r: Option<Timestamp>)
    requires
        second <= 59,
        -86340 <= offset_sec <= 86340,
        offset_sec % 60 == 0,
    ensures
        match r {
            Some(t) => idx_in_range(idx as int) && t == ts_from_idx(idx as int, second, offset_sec)
                && t.wf() && t.min_idx() == idx,
            None => !idx_in_range(idx as int),
        },
{
    let days_total: u64 = idx / 1440;
    let rem: u32 = (idx % 1440) as u32;
    let mut d: u64 = days_total;
    let mut y: i32 = 0;
    while y <= 9999 && d >= days_in_year_x(y) as u64
        invariant
            0 <= y <= 10000,
            days_before_year(y as int) + d == days_total,
            ymd_from_days(days_total as int, 0) == ymd_from_days(d as int, y as int),
        decreases d,
    {
        d = d - days_in_year_x(y) as u64;
        y = y + 1;
        proof {
            lemma_dby_nonneg(y as int);
        }
    }
    if y > 9999 {
        proof {
            lemma_dby_mono(10000, y as int);
        }
        return None;
    }
    // d is now a day inside year y
    let mut m: u32 = 1;
    let d0: u64 = d;
    while m < 12 && d >= days_in_month_x(y, m) as u64
        invariant
            1 <= m <= 12,
            0 <= d,
            days_before_month(y as int, m as int) + d == d0,
            d0 < days_in_year(y as int),
            md_from_days(d0 as int, y as int, 1) == md_from_days(d as int, y as int, m as int),
        decreases 12 - m,
    {
        d = d - days_in_month_x(y, m) as u64;
        m = m + 1;
    }
    proof {
        if m == 12 {
            lemma_dbm_total(y as int);
            assert(days_before_month(y as int, 13) == days_in_year(y as int));
            assert(days_before_month(y as int, 13)
                == days_before_month(y as int, 12) + days_in_month(y as int, 12));
        }
        lemma_dby_nonneg(y as int);
        lemma_dbm_nonneg(y as int, m as int);
        lemma_dbm_mono(y as int, m as int + 1, 13);
        lemma_dbm_total(y as int);
        lemma_dby_mono(y as int + 1, 10000);
    }
    let day: u32 = (d + 1) as u32;
    let t = Timestamp {
        year: y,
        month: m,
        day,
        hour: rem / 60,
        minute: rem % 60,
        second,
        offset_sec,
    };
    Some(t)
}

/// The timestamp `delta` minutes after `ts`, or `None` past year 9999.
pub fn add_minutes(ts: &Timestamp, delta: u64) -> (r: Option<Timestamp>)
    requires
        ts.wf(),
        delta <= u32::MAX as u64 * 2,
    ensures
        match r {
            Some(t) => idx_in_range(ts.min_idx() + delta) && t == shift_ts(*ts, delta as int)
                && t.wf() && t.min_idx() == ts.min_idx() + delta,
            None => !idx_in_range(ts.min_idx() + delta),
        },
{
    let idx = ts_min_idx(ts);
    proof {
        lemma_min_idx_nonneg(*ts);
        lemma_date_idx_bounds(*ts);
        lemma_dby_mono(ts.year as int + 1, 10000);
        lemma_dby_nonneg(10000);
        // min_idx fits far below u64 overflow
        assert(days_before_year(10000) <= 366 * 10000) by {
            lemma_dby_at_most_366(10000);
        }
    }
    ts_from_min_idx(idx + delta, ts.second, ts.offset_sec)
}

/// The timestamp `delta` minutes before `ts`, or `None` before year 0.
pub fn sub_minutes(ts: &Timestamp, delta: u64) -> (r: Option<Timestamp>)
    requires
        ts.wf(),
    ensures
        match r {
            Some(t) => ts.min_idx() - delta >= 0 && t == shift_ts(*ts, -(delta as int))
                && t.wf() && t.min_idx() == ts.min_idx() - delta,
            None => ts.min_idx() - delta < 0,
        },
{
    let idx = ts_min_idx(ts);
    proof {
        lemma_min_idx_nonneg(*ts);
        lemma_date_idx_bounds(*ts);
        lemma_dby_mono(ts.year as int + 1, 10000);
    }
    if idx < delta {
        return None;
    }
    ts_from_min_idx(idx - delta, ts.second, ts.offset_sec)
}

pub proof fn lemma_dby_at_most_366(y: int)
    requires
        y >= 0,
    ensures
        days_before_year(y) <= 366 * y,
    decreases y,
{
    if y > 0 {
        lemma_dby_at_most_366(y - 1);
    }
}

// ---------------------------------------------------------------------
// Formatting
// ---------------------------------------------------------------------

/// `YYYY-MM-DD` of the timestamp's date.
pub open spec fn fmt_date(ts: Timestamp) -> Seq<char> {
    dec4(ts.year as int) + seq!['-'] + dec2(ts.month as int) + seq!['-'] + dec2(ts.day as int)
}

/// `HH:MM` of the timestamp's wall time.
pub open spec fn fmt_hm(ts: Timestamp) -> Seq<char> {
    dec2(ts.hour as int) + seq![':'] + dec2(ts.minute as int)
}

/// The RFC 3339 rendering of the offset: `Z` for UTC, else `+HH:MM` or
/// `-HH:MM`.
pub open spec fn fmt_offset(off: int) -> Seq<char> {
    if off == 0 {
        seq!['Z']
    } else {
        let a = if off > 0 {
            off
        } else {
            -off
        };
        (if off > 0 {
            seq!['+']
        } else {
            seq!['-']
        }) + dec2(a / 3600) + seq![':'] + dec2((a % 3600) / 60)
    }
}

/// The full RFC 3339 rendering, whole seconds.
pub open spec fn fmt_rfc3339(ts: Timestamp) -> Seq<char> {
    fmt_date(ts) + seq!['T'] + fmt_hm(ts) + seq![':'] + dec2(ts.second as int) + fmt_offset(
        ts.offset_sec as int,
    )
}

/// `YYYY-MM-DDTHH:MM:SS` without an offset (wall time only).
pub open spec fn fmt_local(ts: Timestamp) -> Seq<char> {
    fmt_date(ts) + seq!['T'] + fmt_hm(ts) + seq![':'] + dec2(ts.second as int)
}

/// Renders the date part, `YYYY-MM-DD`.
pub fn format_date(ts: &Timestamp) -> (r: String)
    requires
        ts.wf(),
    ensures
        r@ == fmt_date(*ts),
{
    let mut s = String::new();
    push_4dig(&mut s, ts.year as u32);
    push_char(&mut s, '-');
    push_2dig(&mut s, ts.month);
    push_char(&mut s, '-');
    push_2dig(&mut s, ts.day);
    assert(s@ =~= fmt_date(*ts));
    s
}

/// Renders the wall time, `HH:MM`.
pub fn format_hm(ts: &Timestamp) -> (r: String)
    requires
        ts.wf(),
    ensures
        r@ == fmt_hm(*ts),
{
    let mut s = String::new();
    push_2dig(&mut s, ts.hour);
    push_char(&mut s, ':');
    push_2dig(&mut s, ts.minute);
    assert(s@ =~= fmt_hm(*ts));
    s
}

/// Renders the full RFC 3339 form, whole seconds, `Z` for UTC.
pub fn format_rfc3339(ts: &Timestamp) -> (r: String)
    requires
        ts.wf(),
    ensures
        r@ == fmt_rfc3339(*ts),
{
    let mut s = format_date(ts);
    push_char(&mut s, 'T');
    push_2dig(&mut s, ts.hour);
    push_char(&mut s, ':');
    push_2dig(&mut s, ts.minute);
    push_char(&mut s, ':');
    push_2dig(&mut s, ts.second);
    if ts.offset_sec == 0 {
        push_char(&mut s, 'Z');
    } else {
        let a: u32 = if ts.offset_sec > 0 {
            push_char(&mut s, '+');
            ts.offset_sec as u32
        } else {
            push_char(&mut s, '-');
            (-ts.offset_sec) as u32
        };
        push_2dig(&mut s, a / 3600);
        push_char(&mut s, ':');
        push_2dig(&mut s, (a % 3600) / 60);
    }
    assert(s@ =~= fmt_rfc3339(*ts));
    s
}

/// Renders the offset-free form, `YYYY-MM-DDTHH:MM:SS`.
pub fn format_local(ts: &Timestamp) -> (r: String)
    requires
        ts.wf(),
    ensures
        r@ == fmt_local(*ts),
{
    let mut s = format_date(ts);
    push_char(&mut s, 'T');
    push_2dig(&mut s, ts.hour);
    push_char(&mut s, ':');
    push_2dig(&mut s, ts.minute);
    push_char(&mut s, ':');
    push_2dig(&mut s, ts.second);
    assert(s@ =~= fmt_local(*ts));
    s
}

// ---------------------------------------------------------------------
// Plain-date parsing (the engine's own `YYYY-MM-DD` key grammar)
// ---------------------------------------------------------------------

/// Whether `s` is exactly `YYYY-MM-DD` with a real calendar date.
pub open spec fn date_parses(s: Seq<char>) -> bool {
    &&& s.len() == 10
    &&& is_digit(s[0]) && is_digit(s[1]) && is_digit(s[2]) && is_digit(s[3])
    &&& s[4] == '-'
    &&& is_digit(s[5]) && is_digit(s[6])
    &&& s[7] == '-'
    &&& is_digit(s[8]) && is_digit(s[9])
    &&& 1 <= date_month_of(s) <= 12
    &&& 1 <= date_day_of(s) <= days_in_month(date_year_of(s), date_month_of(s))
}

pub open spec fn date_year_of(s: Seq<char>) -> int {
    digit_val(s[0]) * 1000 + digit_val(s[1]) * 100 + digit_val(s[2]) * 10 + digit_val(s[3])
}

pub open spec fn date_month_of(s: Seq<char>) -> int {
    digit_val(s[5]) * 10 + digit_val(s[6])
}

pub open spec fn date_day_of(s: Seq<char>) -> int {
    digit_val(s[8]) * 10 + digit_val(s[9])
}

/// Parses a strict `YYYY-MM-DD` date into its numeric fields.
pub fn parse_date(s: &str) -> (r: Option<(i32, u32, u32)>)
    ensures
        match r {
            Some(p) => date_parses(s@) && p.0 == date_year_of(s@) && p.1 == date_month_of(s@)
                && p.2 == date_day_of(s@),
            None => !date_parses(s@),
        },
{
    if s.unicode_len() != 10 {
        return None;
    }
    let c4 = s.get_char(4);
    let c7 = s.get_char(7);
    if c4 != '-' || c7 != '-' {
        return None;
    }
    let d0 = crate::text::digit_val_of(s.get_char(0));
    let d1 = crate::text::digit_val_of(s.get_char(1));
    let d2 = crate::text::digit_val_of(s.get_char(2));
    let d3 = crate::text::digit_val_of(s.get_char(3));
    let d5 = crate::text::digit_val_of(s.get_char(5));
    let d6 = crate::text::digit_val_of(s.get_char(6));
    let d8 = crate::text::digit_val_of(s.get_char(8));
    let d9 = crate::text::digit_val_of(s.get_char(9));
    if d0 >= 10 || d1 >= 10 || d2 >= 10 || d3 >= 10 || d5 >= 10 || d6 >= 10 || d8 >= 10 || d9
        >= 10 {
        return None;
    }
    let y: u32 = d0 * 1000 + d1 * 100 + d2 * 10 + d3;
    let m: u32 = d5 * 10 + d6;
    let d: u32 = d8 * 10 + d9;
    if m < 1 || m > 12 {
        return None;
    }
    if d < 1 || d > days_in_month_x(y as i32, m) {
        return None;
    }
    Some((y as i32, m, d))
}

// ---------------------------------------------------------------------
// Trusted chrono wrappers
// ---------------------------------------------------------------------

/// The timestamp that chrono's RFC 3339 parser yields for `s`, if any.
/// The result depends on the characters of `s` alone.
pub uninterp spec fn rfc3339_parsed(s: Seq<char>) -> Option<Timestamp>;

/// Relies on `chrono::DateTime::parse_from_rfc3339`: parses strict
/// RFC 3339 into validated wall-time fields (4-digit year, real date,
/// hour below 24, minute and second below 60 after the leap-second
/// clamp, offset in whole minutes within a day).
#[verifier::external_body]
pub fn parse_rfc3339(s: &str) -> (r: Option<Timestamp>)
    ensures
        r == rfc3339_parsed(s@),
        r matches Some(t) ==> t.wf(),
{
    match chrono::DateTime::parse_from_rfc3339(s) {
        Ok(dt) => Some(Timestamp {
            year: dt.year(),
            month: dt.month(),
            day: dt.day(),
            hour: dt.hour(),
            minute: dt.minute(),
            second: dt.second(),
            offset_sec: dt.offset().local_minus_utc(),
        }),
        Err(_) => None,
    }
}

/// Relies on `chrono::Utc::now`: the current moment in UTC, which is a
/// valid calendar time with a zero offset.
#[verifier::external_body]
pub fn now_utc() -> (r: Timestamp)
    ensures
        r.wf(),
        r.offset_sec == 0,
{
    let dt = chrono::Utc::now();
    Timestamp {
        year: dt.year(),
        month: dt.month(),
        day: dt.day(),
        hour: dt.hour(),
        minute: dt.minute(),
        second: dt.second(),
        offset_sec: 0,
    }
}

} // verus!
