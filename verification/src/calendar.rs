//! Dates and times of day in UTC, from Unix time.

use vstd::prelude::*;

use crate::text;

verus! {

/// Whether a year of the Gregorian calendar is a leap year.
pub open spec fn is_leap(y: int) -> bool {
    y % 4 == 0 && (y % 100 != 0 || y % 400 == 0)
}

/// The leap years from year 1 to year `y`; counted backwards for earlier years.
pub open spec fn leap_years(y: int) -> int {
    y / 4 - y / 100 + y / 400
}

/// The days from 1 January 1970 to 1 January of a year.
pub open spec fn days_to_year(y: int) -> int {
    365 * (y - 1970) + leap_years(y - 1) - leap_years(1969)
}

/// The days of a month.
pub open spec fn month_days(y: int, m: int) -> int {
    if m == 2 {
        if is_leap(y) {
            29
        } else {
            28
        }
    } else if m == 4 || m == 6 || m == 9 || m == 11 {
        30
    } else {
        31
    }
}

/// The days of a year before the first of a month.
pub open spec fn days_to_month(y: int, m: int) -> int
    decreases m,
{
    if m <= 1 {
        0
    } else {
        days_to_month(y, m - 1) + month_days(y, m - 1)
    }
}

/// Whether a year, a month and a day are a date.
pub open spec fn is_date(y: int, m: int, d: int) -> bool {
    1 <= m <= 12 && 1 <= d <= month_days(y, m)
}

/// The days from 1 January 1970 to a date.
pub open spec fn day_number(y: int, m: int, d: int) -> int {
    days_to_year(y) + days_to_month(y, m) + d - 1
}

/// A leap year is one more than there were before it; another year is none.
pub proof fn leap_years_step(y: int)
    ensures
        leap_years(y) == leap_years(y - 1) + (if is_leap(y) {
            1int
        } else {
            0
        }),
{
    let a = y / 400;
    let r = y % 400;
    assert(y == 400 * a + r);
    assert(y / 4 == 100 * a + r / 4 && y % 4 == r % 4);
    assert(y / 100 == 4 * a + r / 100 && y % 100 == r % 100);
    if r > 0 {
        assert((y - 1) / 400 == a);
        assert((y - 1) / 4 == 100 * a + (r - 1) / 4);
        assert((y - 1) / 100 == 4 * a + (r - 1) / 100);
    } else {
        assert((y - 1) / 400 == a - 1);
        assert((y - 1) / 4 == 100 * a - 1);
        assert((y - 1) / 100 == 4 * a - 1);
    }
}

/// The days of a year in front of each month, and of the whole year.
pub proof fn month_starts(y: int)
    ensures
        days_to_month(y, 1) == 0,
        days_to_month(y, 2) == 31,
        ({
            let l: int = if is_leap(y) {
                1
            } else {
                0
            };
            &&& days_to_month(y, 3) == 59 + l
            &&& days_to_month(y, 4) == 90 + l
            &&& days_to_month(y, 5) == 120 + l
            &&& days_to_month(y, 6) == 151 + l
            &&& days_to_month(y, 7) == 181 + l
            &&& days_to_month(y, 8) == 212 + l
            &&& days_to_month(y, 9) == 243 + l
            &&& days_to_month(y, 10) == 273 + l
            &&& days_to_month(y, 11) == 304 + l
            &&& days_to_month(y, 12) == 334 + l
            &&& days_to_month(y, 13) == 365 + l
        }),
{
    reveal_with_fuel(days_to_month, 14);
}

/// The days from 1 March of the year 0 to 1 March of a year.
spec fn march_days(y: int) -> int {
    365 * y + leap_years(y)
}

proof fn march_first(y: int)
    ensures
        march_days(y) == day_number(y, 3, 1) + 719_468,
        march_days(y) == day_number(y + 1, 1, 1) - 306 + 719_468,
{
    leap_years_step(y);
    month_starts(y);
    month_starts(y + 1);
}

/// The year of a 400-year cycle, from March on, that a day of it falls in.
fn year_of_cycle(day: i64) -> (r: (i64, i64))
    requires
        0 <= day < 146_097,
    ensures
        0 <= r.0 < 400,
        day == march_days(r.0 as int) + r.1,
        0 <= r.1 <= 365,
        r.1 == 365 ==> is_leap(r.0 + 1),
{
    let century: i64 = if day / 36_524 < 3 {
        day / 36_524
    } else {
        3
    };
    let in_century: i64 = day - 36_524 * century;
    let four: i64 = in_century / 1461;
    let in_four: i64 = in_century - 1461 * four;
    let one: i64 = if in_four / 365 < 3 {
        in_four / 365
    } else {
        3
    };
    let in_year: i64 = in_four - 365 * one;
    let year: i64 = 100 * century + 4 * four + one;
    proof {
        assert(0 <= century <= 3);
        assert(0 <= in_century <= 36_524 && (century < 3 ==> in_century < 36_524));
        assert(0 <= four <= 24);
        assert(0 <= in_four <= 1460);
        assert(0 <= one <= 3);
        assert(year / 400 == 0);
        assert(year / 100 == century);
        assert(year / 4 == 25 * century + four);
    }
    (year, in_year)
}

/// The month and the day of the day of a year that begins in March.
fn month_of_day(doy: i64) -> (r: (u32, u32))
    requires
        0 <= doy <= 365,
    ensures
        ({
            let m = r.0 as int;
            let d = r.1 as int;
            &&& 1 <= m <= 12
            &&& 1 <= d <= 31
            &&& m >= 3 ==> days_to_month(1, m) - 59 + d - 1 == doy && d <= month_days(1, m)
            &&& m <= 2 ==> days_to_month(1, m) + 306 + d - 1 == doy && d <= 31
            &&& m == 2 ==> d <= 29 && (d == 29 ==> doy == 365)
        }),
{
    proof {
        month_starts(1);
    }
    let mp: i64 = (5 * doy + 2) / 153;
    let d: u32 = (doy - (153 * mp + 2) / 5 + 1) as u32;
    let m: u32 = if mp < 10 {
        (mp + 3) as u32
    } else {
        (mp - 9) as u32
    };
    (m, d)
}

/// The date of a day, counted from 1 January 1970.
pub fn civil_from_days(z: i64) -> (r: (i64, u32, u32))
    requires
        z <= i64::MAX - 719_468,
    ensures
        is_date(r.0 as int, r.1 as int, r.2 as int),
        day_number(r.0 as int, r.1 as int, r.2 as int) == z,
{
    let z0: i64 = z + 719_468;
    let era: i64 = if z0 >= 0 {
        z0 / 146_097
    } else {
        -((-(z0 + 1)) / 146_097) - 1
    };
    assert(0 <= z0 - era * 146_097 < 146_097);
    let day: i64 = z0 - era * 146_097;
    let (yoe, doy) = year_of_cycle(day);
    let (m, d) = month_of_day(doy);
    let march_year: i64 = yoe + era * 400;
    let y: i64 = if m <= 2 {
        march_year + 1
    } else {
        march_year
    };
    proof {
        let g = march_year as int;
        assert(g == 400 * era + yoe);
        assert(g / 400 == era && g / 100 == 4 * era + yoe / 100 && g / 4 == 100 * era + yoe / 4);
        assert(march_days(g) == march_days(yoe as int) + 146_097 * era);
        assert(z0 == march_days(g) + doy);
        assert((g + 1) % 400 == (yoe + 1) % 400 && (g + 1) % 100 == (yoe + 1) % 100 && (g + 1) % 4
            == (yoe + 1) % 4);
        march_first(g);
        month_starts(y as int);
        month_starts(1);
        month_starts(g);
    }
    (y, m, d)
}

/// A date is that of one day only: no two dates have the same day number.
pub proof fn dates_are_distinct(y: int, m: int, d: int, y2: int, m2: int, d2: int)
    requires
        is_date(y, m, d),
        is_date(y2, m2, d2),
        day_number(y, m, d) == day_number(y2, m2, d2),
    ensures
        y == y2 && m == m2 && d == d2,
{
    month_starts(y);
    month_starts(y2);
    if y < y2 {
        years_add_up(y, y2);
    } else if y2 < y {
        years_add_up(y2, y);
    }
}

proof fn years_add_up(y: int, y2: int)
    requires
        y < y2,
    ensures
        days_to_year(y2) >= days_to_year(y) + 365 + (if is_leap(y) {
            1int
        } else {
            0
        }),
    decreases y2 - y,
{
    leap_years_step(y2 - 1);
    if y + 1 < y2 {
        years_add_up(y, y2 - 1);
    }
}

// ---------------------------------------------------------------------------
// Text
// ---------------------------------------------------------------------------

/// Zeros.
pub open spec fn zeros(n: nat) -> Seq<char> {
    Seq::new(n, |i: int| '0')
}

/// A number in decimal digits, with zeros before it up to a width.
pub open spec fn padded(n: nat, width: nat) -> Seq<char> {
    let d = text::decimal(n);
    if d.len() < width {
        zeros((width - d.len()) as nat) + d
    } else {
        d
    }
}

fn push_padded(s: &mut String, n: u64, width: usize)
    ensures
        final(s)@ == old(s)@ + padded(n as nat, width as nat),
{
    let d = text::to_chars(text::decimal_text(n).as_str());
    let len: usize = d.len();
    let mut i: usize = len;
    assert(s@ =~= old(s)@ + zeros(0));
    while i < width
        invariant
            len <= i,
            i <= width || i == len,
            s@ == old(s)@ + zeros((i - len) as nat),
        decreases width - i,
    {
        s.push('0');
        assert(s@ =~= old(s)@ + zeros((i + 1 - len) as nat));
        i = i + 1;
    }
    text::push_decimal(s, n);
    assert(s@ =~= old(s)@ + padded(n as nat, width as nat));
}

/// Whole seconds of Unix time, from the seconds since 1970; a time before 1970
/// has none and counts as its beginning.
pub fn unix_secs(since_epoch: Option<u64>) -> (r: i64)
    requires
        since_epoch matches Some(d) ==> d <= i64::MAX,
    ensures
        r == (match since_epoch {
            Some(d) => d as int,
            None => 0,
        }),
{
    match since_epoch {
        Some(d) => d as i64,
        None => 0,
    }
}

/// Hours, minutes and seconds of a time of day.
pub open spec fn clock_text(rem: nat) -> Seq<char> {
    padded(rem / 3600, 2).push(':') + padded((rem % 3600) / 60, 2).push(':') + padded(rem % 60, 2)
}

fn push_clock(s: &mut String, rem: u64)
    ensures
        final(s)@ == old(s)@ + clock_text(rem as nat),
{
    push_padded(s, rem / 3600, 2);
    s.push(':');
    push_padded(s, (rem % 3600) / 60, 2);
    s.push(':');
    push_padded(s, rem % 60, 2);
    assert(s@ =~= old(s)@ + clock_text(rem as nat));
}

/// The time of day in UTC of a Unix time, such as `14:03:51`.
pub fn fmt_clock(secs: i64) -> (r: String)
    requires
        secs >= 0,
    ensures
        r@ == clock_text((secs % 86_400) as nat),
{
    let mut s: String = String::new();
    push_clock(&mut s, (secs % 86_400) as u64);
    assert(s@ =~= clock_text((secs % 86_400) as nat));
    s
}

/// The text of a date.
pub open spec fn date_text(y: nat, m: nat, d: nat) -> Seq<char> {
    padded(y, 4).push('-') + padded(m, 2).push('-') + padded(d, 2)
}

/// A Unix time in UTC, such as `2026-06-29 14:03:51 UTC`.
pub fn fmt_utc(secs: i64) -> (r: String)
    requires
        secs >= 0,
    ensures
        exists|y: nat, m: nat, d: nat|
            is_date(y as int, m as int, d as int) && day_number(y as int, m as int, d as int)
                == secs as int / 86_400 && r@ == #[trigger] date_text(y, m, d).push(' ')
                + clock_text((secs % 86_400) as nat) + " UTC"@,
{
    let (y, m, d) = civil_from_days(secs / 86_400);
    proof {
        if y < 1970 {
            years_add_up(y as int, 1970);
            month_starts(y as int);
            assert(days_to_year(1970) == 0);
        }
    }
    let mut s: String = String::new();
    push_padded(&mut s, y as u64, 4);
    s.push('-');
    push_padded(&mut s, m as u64, 2);
    s.push('-');
    push_padded(&mut s, d as u64, 2);
    assert(s@ =~= date_text(y as nat, m as nat, d as nat));
    s.push(' ');
    push_clock(&mut s, (secs % 86_400) as u64);
    s.append(" UTC");
    s
}

/// A span of time in text: its two or three largest units.
pub open spec fn uptime_text(s: nat) -> Seq<char> {
    let days = s / 86_400;
    let h = (s % 86_400) / 3600;
    let m = (s % 3600) / 60;
    let sec = s % 60;
    if days > 0 {
        text::decimal(days) + "d "@ + text::decimal(h) + "h "@ + text::decimal(m) + "m"@
    } else if h > 0 {
        text::decimal(h) + "h "@ + text::decimal(m) + "m "@ + text::decimal(sec) + "s"@
    } else if m > 0 {
        text::decimal(m) + "m "@ + text::decimal(sec) + "s"@
    } else {
        text::decimal(sec) + "s"@
    }
}

/// A span of whole seconds in text, such as `2d 3h 4m`.
pub fn fmt_uptime(s: u64) -> (r: String)
    ensures
        r@ == uptime_text(s as nat),
{
    let days: u64 = s / 86_400;
    let h: u64 = (s % 86_400) / 3600;
    let m: u64 = (s % 3600) / 60;
    let sec: u64 = s % 60;
    let mut t: String = String::new();
    if days > 0 {
        text::push_decimal(&mut t, days);
        t.append("d ");
        text::push_decimal(&mut t, h);
        t.append("h ");
        text::push_decimal(&mut t, m);
        t.append("m");
    } else if h > 0 {
        text::push_decimal(&mut t, h);
        t.append("h ");
        text::push_decimal(&mut t, m);
        t.append("m ");
        text::push_decimal(&mut t, sec);
        t.append("s");
    } else if m > 0 {
        text::push_decimal(&mut t, m);
        t.append("m ");
        text::push_decimal(&mut t, sec);
        t.append("s");
    } else {
        text::push_decimal(&mut t, sec);
        t.append("s");
    }
    assert(t@ =~= uptime_text(s as nat));
    t
}

} // verus!
