use dnsix::calendar::{civil_from_days, fmt_clock, fmt_uptime, fmt_utc, unix_secs};

#[test]
fn days_have_dates() {
    assert_eq!(civil_from_days(0), (1970, 1, 1));
    assert_eq!(civil_from_days(-1), (1969, 12, 31));
    assert_eq!(civil_from_days(59), (1970, 3, 1));
    assert_eq!(civil_from_days(11_016), (2000, 2, 29));
    assert_eq!(civil_from_days(11_017), (2000, 3, 1));
    assert_eq!(civil_from_days(20_633), (2026, 6, 29));
    assert_eq!(civil_from_days(-719_468), (0, 3, 1));
    assert_eq!(civil_from_days(-719_469), (0, 2, 29));
    assert_eq!(civil_from_days(47_540), (2100, 2, 28));
    assert_eq!(civil_from_days(47_541), (2100, 3, 1));
}

#[test]
fn days_run_on_without_a_gap() {
    let lengths = [31, 28, 31, 30, 31, 30, 31, 31, 30, 31, 30, 31];
    let (mut y, mut m, mut d) = civil_from_days(-150_000);
    for z in -149_999..150_000 {
        let leap = y % 4 == 0 && (y % 100 != 0 || y % 400 == 0);
        let len = lengths[m as usize - 1] + u32::from(leap && m == 2);
        d += 1;
        if d > len {
            d = 1;
            m += 1;
        }
        if m > 12 {
            m = 1;
            y += 1;
        }
        assert_eq!(civil_from_days(z), (y, m, d));
    }
}

#[test]
fn times_are_written_in_utc() {
    assert_eq!(fmt_utc(0), "1970-01-01 00:00:00 UTC");
    assert_eq!(fmt_utc(1_782_741_831), "2026-06-29 14:03:51 UTC");
    assert_eq!(fmt_clock(1_782_741_831), "14:03:51");
    assert_eq!(fmt_clock(86_399), "23:59:59");
    assert_eq!(fmt_utc(253_402_300_800), "10000-01-01 00:00:00 UTC");
}

#[test]
fn spans_are_written_by_their_largest_units() {
    assert_eq!(fmt_uptime(0), "0s");
    assert_eq!(fmt_uptime(59), "59s");
    assert_eq!(fmt_uptime(61), "1m 1s");
    assert_eq!(fmt_uptime(3_600), "1h 0m 0s");
    assert_eq!(fmt_uptime(86_400), "1d 0h 0m");
    assert_eq!(fmt_uptime(2 * 86_400 + 3 * 3_600 + 4 * 60 + 5), "2d 3h 4m");
}

#[test]
fn a_time_before_the_epoch_is_its_beginning() {
    assert_eq!(unix_secs(None), 0);
    assert_eq!(unix_secs(Some(7)), 7);
}
