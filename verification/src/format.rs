//! Log line formats: the closed set of recognized formats, the detection
//! pattern of each one, and the classifier that assigns a format to a file
//! from its first line.
//!
//! Each pattern is stated as a spec predicate over the characters of a
//! line; the executable matchers are proved equal to those predicates.

use crate::text::{check_digits, digits_at, is_digit, is_weekday, month_num};
use vstd::prelude::*;
use vstd::string::StrSliceExecFns;

verus! {

/// The recognized log line formats, in detection priority order.
#[derive(Clone, Copy, Debug, PartialEq, Eq, Structural)]
pub enum LogFormat {
    /// Month abbreviation and day of month, without a year, at the start of
    /// the line (the shape of `/var/log/messages` and friends).
    Syslog,
    /// A `YYYY-MM-DD` calendar date at the start of the line.
    Iso,
    /// `[DD/Mon/YYYY:` anywhere in the line, as in access logs.
    ApacheAccess,
    /// `[Weekday Mon DD HH:MM:SS.ffffff YYYY]` anywhere in the line, as in
    /// error logs.
    ApacheError,
    /// `t=YYYY-MM-DDTHH:MM:SS+HHMM lvl=` (or with `-` before the zone
    /// offset) at the start of the line.
    GrafanaLogs,
}

/// Two characters write a day of month the way `Syslog` lines do: `01`
/// through `29` with a possibly blank or dropped leading digit, or `30` or
/// `31`.  `00` and a blank followed by `0` also fit the shape; they name no
/// real day and later resolve to the sentinel date.
pub open spec fn syslog_day(c0: char, c1: char) -> bool {
    ||| ((c0 == '0' || c0 == '1' || c0 == '2' || c0 == ' ') && is_digit(c1))
    ||| (c0 == '3' && (c1 == '0' || c1 == '1'))
}

/// The line starts with a month abbreviation, a space, and a day of month:
/// the `Syslog` date shape, six characters long.
pub open spec fn syslog_match(s: Seq<char>) -> bool {
    &&& s.len() >= 6
    &&& month_num(s[0], s[1], s[2]) != 0
    &&& s[3] == ' '
    &&& syslog_day(s[4], s[5])
}

/// The line starts with `YYYY-MM-DD`: the `Iso` date shape, ten characters
/// long.
pub open spec fn iso_match(s: Seq<char>) -> bool {
    &&& s.len() >= 10
    &&& digits_at(s, 0, 4)
    &&& s[4] == '-'
    &&& digits_at(s, 5, 2)
    &&& s[7] == '-'
    &&& digits_at(s, 8, 2)
}

/// `[DD/Mon/YYYY:` stands at position `i`: the `ApacheAccess` date shape,
/// thirteen characters long.
pub open spec fn access_match_at(s: Seq<char>, i: int) -> bool {
    &&& 0 <= i
    &&& i + 13 <= s.len()
    &&& s[i] == '['
    &&& digits_at(s, i + 1, 2)
    &&& s[i + 3] == '/'
    &&& month_num(s[i + 4], s[i + 5], s[i + 6]) != 0
    &&& s[i + 7] == '/'
    &&& digits_at(s, i + 8, 4)
    &&& s[i + 12] == ':'
}

/// `[DD/Mon/YYYY:` stands somewhere in the line.
pub open spec fn access_match(s: Seq<char>) -> bool {
    exists|i: int| access_match_at(s, i)
}

/// `[Weekday Mon DD HH:MM:SS.ffffff YYYY]` stands at position `i`: the
/// `ApacheError` date shape, thirty-three characters long.
pub open spec fn error_match_at(s: Seq<char>, i: int) -> bool {
    &&& 0 <= i
    &&& i + 33 <= s.len()
    &&& s[i] == '['
    &&& is_weekday(s[i + 1], s[i + 2], s[i + 3])
    &&& s[i + 4] == ' '
    &&& month_num(s[i + 5], s[i + 6], s[i + 7]) != 0
    &&& s[i + 8] == ' '
    &&& digits_at(s, i + 9, 2)
    &&& s[i + 11] == ' '
    &&& digits_at(s, i + 12, 2)
    &&& s[i + 14] == ':'
    &&& digits_at(s, i + 15, 2)
    &&& s[i + 17] == ':'
    &&& digits_at(s, i + 18, 2)
    &&& s[i + 20] == '.'
    &&& digits_at(s, i + 21, 6)
    &&& s[i + 27] == ' '
    &&& digits_at(s, i + 28, 4)
    &&& s[i + 32] == ']'
}

/// `[Weekday Mon DD HH:MM:SS.ffffff YYYY]` stands somewhere in the line.
pub open spec fn error_match(s: Seq<char>) -> bool {
    exists|i: int| error_match_at(s, i)
}

/// The line starts with `t=YYYY-MM-DDTHH:MM:SS`, a zone offset sign, four
/// offset digits, and ` lvl=`: the `GrafanaLogs` date shape, thirty-one
/// characters long.
pub open spec fn grafana_match(s: Seq<char>) -> bool {
    &&& s.len() >= 31
    &&& s[0] == 't'
    &&& s[1] == '='
    &&& digits_at(s, 2, 4)
    &&& s[6] == '-'
    &&& digits_at(s, 7, 2)
    &&& s[9] == '-'
    &&& digits_at(s, 10, 2)
    &&& s[12] == 'T'
    &&& digits_at(s, 13, 2)
    &&& s[15] == ':'
    &&& digits_at(s, 16, 2)
    &&& s[18] == ':'
    &&& digits_at(s, 19, 2)
    &&& (s[21] == '+' || s[21] == '-')
    &&& digits_at(s, 22, 4)
    &&& s[26] == ' '
    &&& s[27] == 'l'
    &&& s[28] == 'v'
    &&& s[29] == 'l'
    &&& s[30] == '='
}

/// A line shows format `fmt`: its detection pattern matches the line.
pub open spec fn detects(fmt: LogFormat, s: Seq<char>) -> bool {
    match fmt {
        LogFormat::Syslog => syslog_match(s),
        LogFormat::Iso => iso_match(s),
        LogFormat::ApacheAccess => access_match(s),
        LogFormat::ApacheError => error_match(s),
        LogFormat::GrafanaLogs => grafana_match(s),
    }
}

/// The format assigned to a file whose first line is `s`: the first format
/// in priority order whose detection pattern matches, or none.
pub open spec fn classify_spec(s: Seq<char>) -> Option<LogFormat> {
    if syslog_match(s) {
        Some(LogFormat::Syslog)
    } else if iso_match(s) {
        Some(LogFormat::Iso)
    } else if access_match(s) {
        Some(LogFormat::ApacheAccess)
    } else if error_match(s) {
        Some(LogFormat::ApacheError)
    } else if grafana_match(s) {
        Some(LogFormat::GrafanaLogs)
    } else {
        None
    }
}

/// Rank of a format in detection priority order; lower is tried first.
pub open spec fn priority(fmt: LogFormat) -> int {
    match fmt {
        LogFormat::Syslog => 0,
        LogFormat::Iso => 1,
        LogFormat::ApacheAccess => 2,
        LogFormat::ApacheError => 3,
        LogFormat::GrafanaLogs => 4,
    }
}

/// Classification assigns the first matching format and nothing else: an
/// assigned format detects the line and no format of higher priority
/// does, and when none is assigned, no format at all detects the line.
pub proof fn lemma_classify_first_match(s: Seq<char>)
    ensures
        match classify_spec(s) {
            Some(fmt) => detects(fmt, s) && forall|f: LogFormat|
                priority(f) < priority(fmt) ==> !detects(f, s),
            None => forall|f: LogFormat| !detects(f, s),
        },
{
    match classify_spec(s) {
        Some(fmt) => {
            assert(detects(fmt, s));
            assert forall|f: LogFormat| priority(f) < priority(fmt) implies !detects(f, s) by {
                match f {
                    LogFormat::Syslog => {},
                    LogFormat::Iso => {},
                    LogFormat::ApacheAccess => {},
                    LogFormat::ApacheError => {},
                    LogFormat::GrafanaLogs => {},
                }
            }
        },
        None => {
            assert forall|f: LogFormat| !detects(f, s) by {
                match f {
                    LogFormat::Syslog => {},
                    LogFormat::Iso => {},
                    LogFormat::ApacheAccess => {},
                    LogFormat::ApacheError => {},
                    LogFormat::GrafanaLogs => {},
                }
            }
        },
    }
}

/// Executable `Syslog` detection.
pub fn check_syslog(s: &str) -> (r: bool)
    ensures
        r == syslog_match(s@),
{
    let n = s.unicode_len();
    if n < 6 {
        return false;
    }
    let m = crate::text::month_at(s, 0);
    if m == 0 {
        return false;
    }
    if s.get_char(3) != ' ' {
        return false;
    }
    let c0 = s.get_char(4);
    let c1 = s.get_char(5);
    ((c0 == '0' || c0 == '1' || c0 == '2' || c0 == ' ') && crate::text::check_digit(c1)) || (c0
        == '3' && (c1 == '0' || c1 == '1'))
}

/// Executable `Iso` detection.
pub fn check_iso(s: &str) -> (r: bool)
    ensures
        r == iso_match(s@),
{
    let n = s.unicode_len();
    n >= 10 && check_digits(s, 0, 4) && s.get_char(4) == '-' && check_digits(s, 5, 2)
        && s.get_char(7) == '-' && check_digits(s, 8, 2)
}

/// Executable `ApacheAccess` detection at one position.
pub fn check_access_at(s: &str, i: usize) -> (r: bool)
    requires
        i + 13 <= s@.len(),
        s@.len() <= usize::MAX,
    ensures
        r == access_match_at(s@, i as int),
{
    s.get_char(i) == '[' && check_digits(s, i + 1, 2) && s.get_char(i + 3) == '/'
        && crate::text::month_at(s, i + 4) != 0 && s.get_char(i + 7) == '/' && check_digits(
        s,
        i + 8,
        4,
    ) && s.get_char(i + 12) == ':'
}

/// Position of the first `ApacheAccess` date shape in the line, if any.
pub fn find_access(s: &str) -> (r: Option<usize>)
    ensures
        match r {
            Some(i) => access_match_at(s@, i as int) && forall|j: int|
                0 <= j < i ==> !access_match_at(s@, j),
            None => !access_match(s@),
        },
{
    let n = s.unicode_len();
    if n < 13 {
        return None;
    }
    let mut i: usize = 0;
    while i <= n - 13
        invariant
            n == s@.len(),
            n <= usize::MAX,
            13 <= n,
            i <= n - 12,
            forall|j: int| 0 <= j < i ==> !access_match_at(s@, j),
        decreases n - i,
    {
        if check_access_at(s, i) {
            return Some(i);
        }
        i += 1;
    }
    proof {
        assert(forall|j: int| access_match_at(s@, j) ==> j + 13 <= s@.len());
    }
    None
}

/// Executable `ApacheError` detection at one position.
pub fn check_error_at(s: &str, i: usize) -> (r: bool)
    requires
        i + 33 <= s@.len(),
        s@.len() <= usize::MAX,
    ensures
        r == error_match_at(s@, i as int),
{
    s.get_char(i) == '[' && crate::text::weekday_at(s, i + 1) && s.get_char(i + 4) == ' '
        && crate::text::month_at(s, i + 5) != 0 && s.get_char(i + 8) == ' ' && check_digits(
        s,
        i + 9,
        2,
    ) && s.get_char(i + 11) == ' ' && check_digits(s, i + 12, 2) && s.get_char(i + 14) == ':'
        && check_digits(s, i + 15, 2) && s.get_char(i + 17) == ':' && check_digits(s, i + 18, 2)
        && s.get_char(i + 20) == '.' && check_digits(s, i + 21, 6) && s.get_char(i + 27) == ' '
        && check_digits(s, i + 28, 4) && s.get_char(i + 32) == ']'
}

/// Position of the first `ApacheError` date shape in the line, if any.
pub fn find_error(s: &str) -> (r: Option<usize>)
    ensures
        match r {
            Some(i) => error_match_at(s@, i as int) && forall|j: int|
                0 <= j < i ==> !error_match_at(s@, j),
            None => !error_match(s@),
        },
{
    let n = s.unicode_len();
    if n < 33 {
        return None;
    }
    let mut i: usize = 0;
    while i <= n - 33
        invariant
            n == s@.len(),
            n <= usize::MAX,
            33 <= n,
            i <= n - 32,
            forall|j: int| 0 <= j < i ==> !error_match_at(s@, j),
        decreases n - i,
    {
        if check_error_at(s, i) {
            return Some(i);
        }
        i += 1;
    }
    proof {
        assert(forall|j: int| error_match_at(s@, j) ==> j + 33 <= s@.len());
    }
    None
}

/// Executable `GrafanaLogs` detection.
pub fn check_grafana(s: &str) -> (r: bool)
    ensures
        r == grafana_match(s@),
{
    let n = s.unicode_len();
    n >= 31 && s.get_char(0) == 't' && s.get_char(1) == '=' && check_digits(s, 2, 4)
        && s.get_char(6) == '-' && check_digits(s, 7, 2) && s.get_char(9) == '-' && check_digits(
        s,
        10,
        2,
    ) && s.get_char(12) == 'T' && check_digits(s, 13, 2) && s.get_char(15) == ':' && check_digits(
        s,
        16,
        2,
    ) && s.get_char(18) == ':' && check_digits(s, 19, 2) && (s.get_char(21) == '+' || s.get_char(21)
        == '-') && check_digits(s, 22, 4) && s.get_char(26) == ' ' && s.get_char(27) == 'l'
        && s.get_char(28) == 'v' && s.get_char(29) == 'l' && s.get_char(30) == '='
}

/// Assign a format to a file from its first line: the first format in
/// priority order whose detection pattern matches the line, or none.  An
/// empty first line matches no pattern.
pub fn classify(first_line: &str) -> (r: Option<LogFormat>)
    ensures
        r == classify_spec(first_line@),
{
    if check_syslog(first_line) {
        Some(LogFormat::Syslog)
    } else if check_iso(first_line) {
        Some(LogFormat::Iso)
    } else if find_access(first_line).is_some() {
        Some(LogFormat::ApacheAccess)
    } else if find_error(first_line).is_some() {
        Some(LogFormat::ApacheError)
    } else if check_grafana(first_line) {
        Some(LogFormat::GrafanaLogs)
    } else {
        None
    }
}

} // verus!
