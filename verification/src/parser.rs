//! The date parser: given a format and one raw line, locate the first
//! substring in that format's date shape and resolve it to a `YYYY-MM-DD`
//! string, or report that the line carries no date.
//!
//! A `Syslog` line writes no year; the parser borrows one from its caller,
//! and a public entry point reads the current UTC year from the clock.

use crate::dates::{resolve_date, resolved_date};
use crate::format::{
    access_match, access_match_at, check_grafana, check_iso, check_syslog, error_match,
    error_match_at, find_access, find_error, grafana_match, iso_match, syslog_match, LogFormat,
};
use crate::text::{digit_val, month_num, num2_at, num4_at};
use vstd::prelude::*;
use vstd::string::StrSliceExecFns;

verus! {

/// The day of month a `Syslog` day field writes: one digit after a blank,
/// or two digits.
pub open spec fn syslog_day_val(c0: char, c1: char) -> int {
    if c0 == ' ' {
        digit_val(c1)
    } else {
        10 * digit_val(c0) + digit_val(c1)
    }
}

/// `i` is the position of the first `ApacheAccess` date shape in `s`.
pub open spec fn is_first_access(s: Seq<char>, i: int) -> bool {
    access_match_at(s, i) && forall|j: int| 0 <= j < i ==> !access_match_at(s, j)
}

/// `i` is the position of the first `ApacheError` date shape in `s`.
pub open spec fn is_first_error(s: Seq<char>, i: int) -> bool {
    error_match_at(s, i) && forall|j: int| 0 <= j < i ==> !error_match_at(s, j)
}

/// The year, month and day encoded by the first substring of `s` in the
/// date shape of `fmt`, meaningful only when that shape matches.  A
/// `Syslog` line encodes no year; `year` stands in for it.
pub open spec fn date_fields(fmt: LogFormat, s: Seq<char>, year: int) -> (int, int, int) {
    match fmt {
        LogFormat::Syslog => (year, month_num(s[0], s[1], s[2]), syslog_day_val(s[4], s[5])),
        LogFormat::Iso => (num4_at(s, 0), num2_at(s, 5), num2_at(s, 8)),
        LogFormat::ApacheAccess => {
            let i = choose|i: int| is_first_access(s, i);
            (num4_at(s, i + 8), month_num(s[i + 4], s[i + 5], s[i + 6]), num2_at(s, i + 1))
        },
        LogFormat::ApacheError => {
            let i = choose|i: int| is_first_error(s, i);
            (num4_at(s, i + 28), month_num(s[i + 5], s[i + 6], s[i + 7]), num2_at(s, i + 9))
        },
        LogFormat::GrafanaLogs => (num4_at(s, 2), num2_at(s, 7), num2_at(s, 10)),
    }
}

/// The date the parser assigns to a line under format `fmt`: none when no
/// substring of the line is in the format's date shape; otherwise the
/// encoded calendar day as `YYYY-MM-DD`, or the sentinel date when the
/// encoded triple names no real day.
pub open spec fn extract_date(fmt: LogFormat, s: Seq<char>, year: int) -> Option<Seq<char>> {
    if crate::format::detects(fmt, s) {
        let (y, m, d) = date_fields(fmt, s, year);
        Some(resolved_date(y, m, d))
    } else {
        None
    }
}

/// Determine the date of a log line, given the format of its file and the
/// year to lend to `Syslog` lines.
pub fn determine_date(fmt: &LogFormat, line: &str, year: i32) -> (r: Option<String>)
    ensures
        r.deep_view() == extract_date(*fmt, line@, year as int),
{
    let n = line.unicode_len();
    match fmt {
        LogFormat::Syslog => {
            if check_syslog(line) {
                let m = crate::text::month_at(line, 0);
                let c0 = line.get_char(4);
                let c1 = line.get_char(5);
                let d = if c0 == ' ' {
                    crate::text::digit_value(c1)
                } else {
                    10 * crate::text::digit_value(c0) + crate::text::digit_value(c1)
                };
                Some(resolve_date(year as i64, m, d))
            } else {
                None
            }
        },
        LogFormat::Iso => {
            if check_iso(line) {
                let y = crate::text::num4(line, 0);
                let m = crate::text::num2(line, 5);
                let d = crate::text::num2(line, 8);
                Some(resolve_date(y as i64, m, d))
            } else {
                None
            }
        },
        LogFormat::ApacheAccess => {
            match find_access(line) {
                Some(i) => {
                    proof {
                        assert(is_first_access(line@, i as int));
                        let j = choose|j: int| is_first_access(line@, j);
                        assert(is_first_access(line@, j));
                        assert(j == i as int);
                    }
                    let y = crate::text::num4(line, i + 8);
                    let m = crate::text::month_at(line, i + 4);
                    let d = crate::text::num2(line, i + 1);
                    Some(resolve_date(y as i64, m, d))
                },
                None => None,
            }
        },
        LogFormat::ApacheError => {
            match find_error(line) {
                Some(i) => {
                    proof {
                        assert(is_first_error(line@, i as int));
                        let j = choose|j: int| is_first_error(line@, j);
                        assert(is_first_error(line@, j));
                        assert(j == i as int);
                    }
                    let y = crate::text::num4(line, i + 28);
                    let m = crate::text::month_at(line, i + 5);
                    let d = crate::text::num2(line, i + 9);
                    Some(resolve_date(y as i64, m, d))
                },
                None => None,
            }
        },
        LogFormat::GrafanaLogs => {
            if check_grafana(line) {
                let y = crate::text::num4(line, 2);
                let m = crate::text::num2(line, 7);
                let d = crate::text::num2(line, 10);
                Some(resolve_date(y as i64, m, d))
            } else {
                None
            }
        },
    }
}

/// Relies on `chrono::Utc::now` and `chrono::Datelike::year`: the year of
/// the current date and time in UTC, read from the system clock.  Nothing
/// is promised of the value; callers must hold for every year the clock
/// could say.
#[verifier::external_body]
pub(crate) fn utc_year() -> i32 {
    chrono::Datelike::year(&chrono::Utc::now())
}

/// Determine the date of a log line at the present moment: `Syslog` lines
/// borrow the current UTC year, every other format carries its own year
/// and is parsed the same whatever the clock says.
pub fn determine_date_now(fmt: &LogFormat, line: &str) -> (r: Option<String>)
    ensures
        fmt is Syslog ==> exists|y: int| r.deep_view() == #[trigger] extract_date(
            *fmt,
            line@,
            y,
        ),
        !(fmt is Syslog) ==> r.deep_view() == extract_date(*fmt, line@, 0),
{
    let year = utc_year();
    let r = determine_date(fmt, line, year);
    proof {
        if !(fmt is Syslog) {
            lemma_extract_date_ignores_year(*fmt, line@, year as int, 0);
        } else {
            assert(r.deep_view() == extract_date(*fmt, line@, year as int));
        }
    }
    r
}

/// A line that shows its file's format always yields a date: the literal
/// calendar day its date substring encodes, as `YYYY-MM-DD`, when that
/// day is real, and the sentinel date when it is not.  A line that does
/// not show the format yields none.
pub proof fn lemma_parse_yields_literal_date(fmt: LogFormat, s: Seq<char>, year: int)
    ensures
        ({
            let (y, m, d) = date_fields(fmt, s, year);
            &&& crate::format::detects(fmt, s) && crate::dates::valid_date(y, m, d)
                ==> extract_date(fmt, s, year) == Some(crate::dates::iso_date_seq(y, m, d))
            &&& crate::format::detects(fmt, s) && !crate::dates::valid_date(y, m, d)
                ==> extract_date(fmt, s, year) == Some(crate::dates::sentinel_date())
            &&& !crate::format::detects(fmt, s) ==> extract_date(fmt, s, year) is None
        }),
{
}

/// Only `Syslog` lines borrow the caller's year: under every other format
/// the parser's answer does not depend on it.
pub proof fn lemma_extract_date_ignores_year(fmt: LogFormat, s: Seq<char>, y1: int, y2: int)
    requires
        !(fmt is Syslog),
    ensures
        extract_date(fmt, s, y1) == extract_date(fmt, s, y2),
{
}

} // verus!
