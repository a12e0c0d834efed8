//! Classification: each format's detection pattern assigns exactly that
//! format from a file's first line, in fixed priority order.

use logboop::format::{classify, LogFormat};

#[test]
fn classify_syslog_first_line() {
    let r = classify("May 17 03:12:01 host CRON[123]: session opened");
    assert_eq!(r, Some(LogFormat::Syslog));
}

#[test]
fn classify_syslog_space_padded_day() {
    let r = classify("Jan  5 00:00:01 host kernel: boot");
    assert_eq!(r, Some(LogFormat::Syslog));
}

#[test]
fn classify_iso_first_line() {
    let r = classify("2020-05-12 18:14:21,000 fail2ban.filter: INFO found");
    assert_eq!(r, Some(LogFormat::Iso));
}

#[test]
fn classify_apache_access_first_line() {
    let r = classify("127.0.0.1 - - [17/May/2020:12:00:00 +0000] \"GET / HTTP/1.1\" 200 1234");
    assert_eq!(r, Some(LogFormat::ApacheAccess));
}

#[test]
fn classify_apache_error_first_line() {
    let r = classify("[Sat May 16 02:07:16.656808 2020] [mpm_event:notice] [pid 1] resuming");
    assert_eq!(r, Some(LogFormat::ApacheError));
}

#[test]
fn classify_grafana_first_line() {
    let r = classify("t=2020-05-12T18:14:21+0200 lvl=info msg=\"HTTP Server Listen\"");
    assert_eq!(r, Some(LogFormat::GrafanaLogs));
}

#[test]
fn classify_grafana_negative_offset() {
    let r = classify("t=2020-05-12T18:14:21-0700 lvl=warn msg=x");
    assert_eq!(r, Some(LogFormat::GrafanaLogs));
}

#[test]
fn classify_unknown_first_line() {
    assert_eq!(classify("hello world, nothing dated here"), None);
}

#[test]
fn classify_empty_first_line() {
    assert_eq!(classify(""), None);
}

#[test]
fn classify_priority_syslog_wins() {
    // Matches Syslog at the start and GrafanaLogs further in; the first
    // format in priority order wins.
    let r = classify("May 12 t=2020-05-12T18:14:21+0200 lvl=info trailing");
    assert_eq!(r, Some(LogFormat::Syslog));
}

#[test]
fn classify_day_out_of_shape() {
    // "32" fits no day-of-month shape, so the Syslog pattern misses.
    assert_eq!(classify("Jan 32 host message"), None);
}

#[test]
fn classify_iso_needs_full_date() {
    assert_eq!(classify("2020-05-1 too short"), None);
}
