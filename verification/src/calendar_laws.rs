//! Dates, times of day and spans of time, from one day to the next.

use vstd::prelude::*;

use crate::calendar;
use crate::text;
use crate::text_laws;

verus! {

/// How many days each month has.
pub proof fn months_have_their_days(y: int)
    ensures
        forall|d: int| #[trigger] calendar::is_date(y, 1, d) <==> 1 <= d <= 31,
        y % 4 != 0 ==> forall|d: int| #[trigger] calendar::is_date(y, 2, d) <==> 1 <= d <= 28,
        y % 4 == 0 && y % 100 != 0 ==> forall|d: int| #[trigger]
            calendar::is_date(y, 2, d) <==> 1 <= d <= 29,
        y % 100 == 0 && y % 400 != 0 ==> forall|d: int| #[trigger]
            calendar::is_date(y, 2, d) <==> 1 <= d <= 28,
        y % 400 == 0 ==> forall|d: int| #[trigger] calendar::is_date(y, 2, d) <==> 1 <= d <= 29,
        forall|d: int| #[trigger] calendar::is_date(y, 3, d) <==> 1 <= d <= 31,
        forall|d: int| #[trigger] calendar::is_date(y, 4, d) <==> 1 <= d <= 30,
        forall|d: int| #[trigger] calendar::is_date(y, 5, d) <==> 1 <= d <= 31,
        forall|d: int| #[trigger] calendar::is_date(y, 6, d) <==> 1 <= d <= 30,
        forall|d: int| #[trigger] calendar::is_date(y, 7, d) <==> 1 <= d <= 31,
        forall|d: int| #[trigger] calendar::is_date(y, 8, d) <==> 1 <= d <= 31,
        forall|d: int| #[trigger] calendar::is_date(y, 9, d) <==> 1 <= d <= 30,
        forall|d: int| #[trigger] calendar::is_date(y, 10, d) <==> 1 <= d <= 31,
        forall|d: int| #[trigger] calendar::is_date(y, 11, d) <==> 1 <= d <= 30,
        forall|d: int| #[trigger] calendar::is_date(y, 12, d) <==> 1 <= d <= 31,
        forall|m: int, d: int| #[trigger] calendar::is_date(y, m, d) ==> 1 <= m <= 12,
{
}

/// Days are numbered from 1 January 1970 on, one after the other: within a month,
/// from the end of one month to the next, and from the end of one year to the next.
pub proof fn days_follow_one_another(y: int, m: int, d: int)
    requires
        calendar::is_date(y, m, d),
    ensures
        calendar::day_number(1970, 1, 1) == 0,
        calendar::is_date(y, m, d + 1) ==> calendar::day_number(y, m, d + 1)
            == calendar::day_number(y, m, d) + 1,
        !calendar::is_date(y, m, d + 1) && m < 12 ==> calendar::day_number(y, m + 1, 1)
            == calendar::day_number(y, m, d) + 1,
        !calendar::is_date(y, m, d + 1) && m == 12 ==> calendar::day_number(y + 1, 1, 1)
            == calendar::day_number(y, m, d) + 1,
{
    calendar::month_starts(y);
    calendar::month_starts(1970);
    calendar::month_starts(y + 1);
    calendar::leap_years_step(y);
}

/// Two decimal digits.
pub open spec fn two_digits(n: nat) -> Seq<char> {
    seq![(48 + n / 10) as char, (48 + n % 10) as char]
}

proof fn padding_two(n: nat)
    requires
        n < 100,
    ensures
        calendar::padded(n, 2) == two_digits(n),
{
    let d = text::decimal(n);
    text_laws::decimal_by_places(n / 10, n % 10);
    text_laws::decimal_by_places(0, n % 10);
    if n < 10 {
        assert(calendar::zeros(1) =~= seq!['0']);
        assert('0' as nat == 48);
        assert(calendar::padded(n, 2) =~= two_digits(n));
    } else {
        text_laws::decimal_by_places(0, n / 10);
        assert(d =~= two_digits(n));
    }
}

/// A time of day is its hour, minute and second in two digits each, parted by colons.
pub proof fn a_clock_shows_two_digits_each(h: nat, m: nat, s: nat)
    requires
        h < 24,
        m < 60,
        s < 60,
    ensures
        calendar::clock_text(3600 * h + 60 * m + s) == two_digits(h) + seq![':'] + two_digits(m)
            + seq![':'] + two_digits(s),
{
    let r = 3600 * h + 60 * m + s;
    assert(r / 3600 == h && (r % 3600) / 60 == m && r % 60 == s);
    padding_two(h);
    padding_two(m);
    padding_two(s);
    assert(calendar::clock_text(r) =~= two_digits(h) + seq![':'] + two_digits(m) + seq![':']
        + two_digits(s));
}

/// A date is its year in four digits, its month and its day in two each, parted by
/// hyphens.
pub proof fn a_date_shows_its_digits(y: nat, m: nat, d: nat)
    requires
        y < 10_000,
        m < 100,
        d < 100,
    ensures
        calendar::date_text(y, m, d) == two_digits(y / 100) + two_digits(y % 100) + seq!['-']
            + two_digits(m) + seq!['-'] + two_digits(d),
{
    padding_two(m);
    padding_two(d);
    padding_four(y);
    assert(calendar::date_text(y, m, d) =~= two_digits(y / 100) + two_digits(y % 100) + seq!['-']
        + two_digits(m) + seq!['-'] + two_digits(d));
}

proof fn padding_four(n: nat)
    requires
        n < 10_000,
    ensures
        calendar::padded(n, 4) == two_digits(n / 100) + two_digits(n % 100),
{
    let d = text::decimal(n);
    let w = two_digits(n / 100) + two_digits(n % 100);
    let a = n / 1000;
    let b = (n / 100) % 10;
    let c = (n / 10) % 10;
    let e = n % 10;
    assert('0' as nat == 48);
    assert((n / 100) / 10 == a && (n / 100) % 10 == b && (n % 100) / 10 == c && (n % 100) % 10 == e);
    if n < 10 {
        assert(d =~= seq![text::digit_char(n)]);
        assert(calendar::padded(n, 4) =~= w);
    } else if n < 100 {
        assert(text::decimal(n / 10) =~= seq![text::digit_char(n / 10)]);
        assert(calendar::padded(n, 4) =~= w);
    } else if n < 1000 {
        assert(text::decimal(n / 100) =~= seq![text::digit_char(n / 100)]);
        assert((n / 10) / 10 == n / 100);
        assert(text::decimal(n / 10) =~= seq![text::digit_char(n / 100), text::digit_char(c)]);
        assert(calendar::padded(n, 4) =~= w);
    } else {
        assert(text::decimal(n / 1000) =~= seq![text::digit_char(n / 1000)]);
        assert((n / 100) / 10 == n / 1000);
        assert(text::decimal(n / 100) =~= seq![text::digit_char(a), text::digit_char(b)]);
        assert((n / 10) / 10 == n / 100);
        assert(text::decimal(n / 10) =~= seq![
            text::digit_char(a),
            text::digit_char(b),
            text::digit_char(c),
        ]);
        assert(calendar::padded(n, 4) =~= w);
    }
}

/// A span of time shows its units from the largest one that it fills on: days, hours
/// and minutes; hours, minutes and seconds; minutes and seconds; or seconds.
pub proof fn a_span_shows_its_largest_units(days: nat, h: nat, m: nat, s: nat)
    requires
        h < 24,
        m < 60,
        s < 60,
    ensures
        ({
            let t = calendar::uptime_text(86_400 * days + 3600 * h + 60 * m + s);
            &&& days > 0 ==> t == text::decimal(days) + "d "@ + text::decimal(h) + "h "@
                + text::decimal(m) + "m"@
            &&& days == 0 && h > 0 ==> t == text::decimal(h) + "h "@ + text::decimal(m) + "m "@
                + text::decimal(s) + "s"@
            &&& days == 0 && h == 0 && m > 0 ==> t == text::decimal(m) + "m "@ + text::decimal(s)
                + "s"@
            &&& days == 0 && h == 0 && m == 0 ==> t == text::decimal(s) + "s"@
        }),
{
    let n = 86_400 * days + 3600 * h + 60 * m + s;
    assert(n / 86_400 == days && (n % 86_400) / 3600 == h && (n % 3600) / 60 == m && n % 60 == s);
}

} // verus!
