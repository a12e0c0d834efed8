//! Date extraction: every format yields the literal calendar date its
//! lines encode, with the sentinel date for located but unparseable
//! substrings and no date at all for lines with no matching substring.

use logboop::dates::{check_leap_year, format_date, month_days, resolve_date};
use logboop::format::LogFormat;
use logboop::parser::{determine_date, determine_date_now};

#[test]
fn syslog_line_borrows_given_year() {
    let r = determine_date(&LogFormat::Syslog, "Jan  5 00:00:01 host kernel: boot", 2024);
    assert_eq!(r.as_deref(), Some("2024-01-05"));
}

#[test]
fn syslog_two_digit_day() {
    let r = determine_date(&LogFormat::Syslog, "May 17 03:12:01 host CRON: x", 2020);
    assert_eq!(r.as_deref(), Some("2020-05-17"));
}

#[test]
fn iso_line_yields_its_date() {
    let r = determine_date(&LogFormat::Iso, "2020-05-12 something", 1999);
    assert_eq!(r.as_deref(), Some("2020-05-12"));
}

#[test]
fn apache_access_line_yields_its_date() {
    let line = "127.0.0.1 - - [17/May/2020:12:00:00 +0000] \"GET / HTTP/1.1\" 200 5";
    let r = determine_date(&LogFormat::ApacheAccess, line, 1999);
    assert_eq!(r.as_deref(), Some("2020-05-17"));
}

#[test]
fn apache_error_line_yields_its_date() {
    let line = "[Sat May 16 02:07:16.656808 2020] [mpm_event:notice] [pid 1] resuming";
    let r = determine_date(&LogFormat::ApacheError, line, 1999);
    assert_eq!(r.as_deref(), Some("2020-05-16"));
}

#[test]
fn grafana_line_yields_its_date() {
    let line = "t=2020-05-12T18:14:21+0200 lvl=info msg=x";
    let r = determine_date(&LogFormat::GrafanaLogs, line, 1999);
    assert_eq!(r.as_deref(), Some("2020-05-12"));
}

#[test]
fn unparseable_substring_yields_sentinel() {
    // The substring is in the Iso date shape but names no real month.
    let r = determine_date(&LogFormat::Iso, "2020-13-40 tampered line", 1999);
    assert_eq!(r.as_deref(), Some("0001-01-01"));
}

#[test]
fn syslog_day_zero_yields_sentinel() {
    let r = determine_date(&LogFormat::Syslog, "Jan 00 host message", 2024);
    assert_eq!(r.as_deref(), Some("0001-01-01"));
}

#[test]
fn syslog_impossible_day_yields_sentinel() {
    let r = determine_date(&LogFormat::Syslog, "Feb 30 host message", 2023);
    assert_eq!(r.as_deref(), Some("0001-01-01"));
}

#[test]
fn no_matching_substring_yields_no_date() {
    let r = determine_date(&LogFormat::Iso, "    at java.lang.Thread.run(Thread.java:748)", 1999);
    assert_eq!(r, None);
}

#[test]
fn syslog_shape_not_found_in_iso_file() {
    let r = determine_date(&LogFormat::Syslog, "2020-05-12 something", 2024);
    assert_eq!(r, None);
}

#[test]
fn determine_date_now_iso_ignores_clock() {
    let r = determine_date_now(&LogFormat::Iso, "2020-05-12 something");
    assert_eq!(r.as_deref(), Some("2020-05-12"));
}

#[test]
fn every_month_abbreviation_parses() {
    let cases = [
        ("Jan", "01"),
        ("Feb", "02"),
        ("Mar", "03"),
        ("Apr", "04"),
        ("May", "05"),
        ("Jun", "06"),
        ("Jul", "07"),
        ("Aug", "08"),
        ("Sep", "09"),
        ("Oct", "10"),
        ("Nov", "11"),
        ("Dec", "12"),
    ];
    for (abbrev, num) in cases {
        let line = format!("{} 10 host daemon: tick", abbrev);
        let r = determine_date(&LogFormat::Syslog, &line, 2021);
        assert_eq!(r, Some(format!("2021-{}-10", num)));
    }
}

#[test]
fn apache_access_date_not_at_line_start() {
    let line = "long agent string before [01/Dec/1999:23:59:59 +0000] more";
    let r = determine_date(&LogFormat::ApacheAccess, line, 2024);
    assert_eq!(r.as_deref(), Some("1999-12-01"));
}

#[test]
fn apache_error_bad_day_yields_sentinel() {
    let line = "[Sat Feb 31 02:07:16.656808 2021] [core:warn] tampered";
    let r = determine_date(&LogFormat::ApacheError, line, 1999);
    assert_eq!(r.as_deref(), Some("0001-01-01"));
}

#[test]
fn grafana_zone_offset_does_not_shift_date() {
    let line = "t=2020-01-01T00:30:00-0700 lvl=dbug msg=x";
    let r = determine_date(&LogFormat::GrafanaLogs, line, 1999);
    assert_eq!(r.as_deref(), Some("2020-01-01"));
}

#[test]
fn leap_year_rules() {
    assert!(check_leap_year(2000));
    assert!(check_leap_year(2020));
    assert!(!check_leap_year(1900));
    assert!(!check_leap_year(2023));
}

#[test]
fn february_day_counts() {
    assert_eq!(month_days(2020, 2), 29);
    assert_eq!(month_days(2021, 2), 28);
    assert_eq!(month_days(2021, 4), 30);
    assert_eq!(month_days(2021, 12), 31);
}

#[test]
fn leap_day_resolves_only_in_leap_years() {
    assert_eq!(resolve_date(2020, 2, 29), "2020-02-29");
    assert_eq!(resolve_date(1900, 2, 29), "0001-01-01");
    assert_eq!(resolve_date(2000, 2, 29), "2000-02-29");
}

#[test]
fn resolve_rejects_out_of_range_years() {
    assert_eq!(resolve_date(-5, 1, 1), "0001-01-01");
    assert_eq!(resolve_date(10000, 1, 1), "0001-01-01");
}

#[test]
fn format_date_zero_pads() {
    assert_eq!(format_date(1, 1, 1), "0001-01-01");
    assert_eq!(format_date(2020, 5, 12), "2020-05-12");
    assert_eq!(format_date(999, 10, 3), "0999-10-03");
}
