//! Calendar dates: validity in the proleptic Gregorian calendar, the
//! `YYYY-MM-DD` output form, and the sentinel date used for substrings that
//! look like a date but name no real one.
//!
//! Only years writable with four digits (0 through 9999) are considered
//! valid here, since every output file name carries a four-digit year.

use crate::text::{digit_char, push_digit};
use vstd::prelude::*;
use vstd::string::StringExecFns;

verus! {

/// Leap years of the proleptic Gregorian calendar.
pub open spec fn is_leap_year(y: int) -> bool {
    y % 4 == 0 && (y % 100 != 0 || y % 400 == 0)
}

/// Number of days of month `m` (1 through 12) in year `y`.
pub open spec fn days_in_month(y: int, m: int) -> int {
    if m == 2 {
        if is_leap_year(y) {
            29
        } else {
            28
        }
    } else if m == 4 || m == 6 || m == 9 || m == 11 {
        30
    } else {
        31
    }
}

/// The triple names a real calendar day with a four-digit year.
pub open spec fn valid_date(y: int, m: int, d: int) -> bool {
    &&& 0 <= y <= 9999
    &&& 1 <= m <= 12
    &&& 1 <= d <= days_in_month(y, m)
}

/// The ten characters `YYYY-MM-DD` for a date triple, each part
/// zero-padded.
pub open spec fn iso_date_seq(y: int, m: int, d: int) -> Seq<char> {
    seq![
        digit_char(y / 1000 % 10),
        digit_char(y / 100 % 10),
        digit_char(y / 10 % 10),
        digit_char(y % 10),
        '-',
        digit_char(m / 10 % 10),
        digit_char(m % 10),
        '-',
        digit_char(d / 10 % 10),
        digit_char(d % 10),
    ]
}

/// The sentinel date written for a located but unparseable date substring.
pub open spec fn sentinel_date() -> Seq<char> {
    iso_date_seq(1, 1, 1)
}

/// The date string a located substring resolves to: its own date when that
/// is a real calendar day, the sentinel date otherwise.
pub open spec fn resolved_date(y: int, m: int, d: int) -> Seq<char> {
    if valid_date(y, m, d) {
        iso_date_seq(y, m, d)
    } else {
        sentinel_date()
    }
}

/// Executable leap-year test.
pub fn check_leap_year(y: u32) -> (r: bool)
    ensures
        r == is_leap_year(y as int),
{
    y % 4 == 0 && (y % 100 != 0 || y % 400 == 0)
}

/// Executable day count of a month.
pub fn month_days(y: u32, m: u32) -> (n: u32)
    requires
        1 <= m <= 12,
    ensures
        n == days_in_month(y as int, m as int),
{
    if m == 2 {
        if check_leap_year(y) {
            29
        } else {
            28
        }
    } else if m == 4 || m == 6 || m == 9 || m == 11 {
        30
    } else {
        31
    }
}

/// Write a date triple as its ten-character `YYYY-MM-DD` string.
pub fn format_date(y: u32, m: u32, d: u32) -> (r: String)
    requires
        y <= 9999,
        m <= 99,
        d <= 99,
    ensures
        r@ == iso_date_seq(y as int, m as int, d as int),
{
    let mut s = String::new();
    push_digit(&mut s, y / 1000);
    push_digit(&mut s, (y / 100) % 10);
    push_digit(&mut s, (y / 10) % 10);
    push_digit(&mut s, y % 10);
    push_hyphen(&mut s);
    push_digit(&mut s, m / 10);
    push_digit(&mut s, m % 10);
    push_hyphen(&mut s);
    push_digit(&mut s, d / 10);
    push_digit(&mut s, d % 10);
    proof {
        assert(y / 1000 == y as int / 1000 % 10);
        assert(s@ =~= iso_date_seq(y as int, m as int, d as int));
    }
    s
}

/// Append a single `-` to `s`.
fn push_hyphen(s: &mut String)
    ensures
        final (s)@ == old(s)@.push('-'),
{
    proof {
        reveal_strlit("-");
    }
    s.append("-");
    proof {
        assert(s@ =~= old(s)@.push('-'));
    }
}

/// Resolve a date triple drawn from a located substring: the triple itself
/// when it names a real day, the sentinel date otherwise.  The year is
/// signed because the year a `Syslog` line borrows comes from the clock.
pub fn resolve_date(y: i64, m: u32, d: u32) -> (r: String)
    requires
        m <= 99,
        d <= 99,
    ensures
        r@ == resolved_date(y as int, m as int, d as int),
{
    if 0 <= y && y <= 9999 && 1 <= m && m <= 12 && 1 <= d && d <= month_days(y as u32, m) {
        format_date(y as u32, m, d)
    } else {
        format_date(1, 1, 1)
    }
}

} // verus!
