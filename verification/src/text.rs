//! Character-level primitives shared by the classifier and the date parser:
//! ASCII digits, month and weekday abbreviations, and digit-by-digit string
//! building.

use vstd::prelude::*;
use vstd::string::StrSliceExecFns;
use vstd::string::StringExecFns;

verus! {

/// A character is an ASCII decimal digit.
pub open spec fn is_digit(c: char) -> bool {
    '0' <= c && c <= '9'
}

/// Numeric value of an ASCII decimal digit.
pub open spec fn digit_val(c: char) -> int {
    c as int - '0' as int
}

/// The ASCII digit character for a value between 0 and 9.
pub open spec fn digit_char(d: int) -> char {
    if d == 0 {
        '0'
    } else if d == 1 {
        '1'
    } else if d == 2 {
        '2'
    } else if d == 3 {
        '3'
    } else if d == 4 {
        '4'
    } else if d == 5 {
        '5'
    } else if d == 6 {
        '6'
    } else if d == 7 {
        '7'
    } else if d == 8 {
        '8'
    } else {
        '9'
    }
}

/// Every character from position `i` (inclusive) to `i + n` (exclusive) is a
/// decimal digit.
pub open spec fn digits_at(s: Seq<char>, i: int, n: int) -> bool {
    forall|j: int| i <= j < i + n ==> is_digit(#[trigger] s[j])
}

/// The number written by the two digits at positions `i` and `i + 1`.
pub open spec fn num2_at(s: Seq<char>, i: int) -> int {
    10 * digit_val(s[i]) + digit_val(s[i + 1])
}

/// The number written by the four digits at positions `i` through `i + 3`.
pub open spec fn num4_at(s: Seq<char>, i: int) -> int {
    1000 * digit_val(s[i]) + 100 * digit_val(s[i + 1]) + 10 * digit_val(s[i + 2]) + digit_val(
        s[i + 3],
    )
}

/// Month number (1 through 12) for a three-letter English month
/// abbreviation, or 0 when the three characters are no such abbreviation.
pub open spec fn month_num(c0: char, c1: char, c2: char) -> int {
    if c0 == 'J' && c1 == 'a' && c2 == 'n' {
        1
    } else if c0 == 'F' && c1 == 'e' && c2 == 'b' {
        2
    } else if c0 == 'M' && c1 == 'a' && c2 == 'r' {
        3
    } else if c0 == 'A' && c1 == 'p' && c2 == 'r' {
        4
    } else if c0 == 'M' && c1 == 'a' && c2 == 'y' {
        5
    } else if c0 == 'J' && c1 == 'u' && c2 == 'n' {
        6
    } else if c0 == 'J' && c1 == 'u' && c2 == 'l' {
        7
    } else if c0 == 'A' && c1 == 'u' && c2 == 'g' {
        8
    } else if c0 == 'S' && c1 == 'e' && c2 == 'p' {
        9
    } else if c0 == 'O' && c1 == 'c' && c2 == 't' {
        10
    } else if c0 == 'N' && c1 == 'o' && c2 == 'v' {
        11
    } else if c0 == 'D' && c1 == 'e' && c2 == 'c' {
        12
    } else {
        0
    }
}

/// The three characters are a three-letter English weekday abbreviation.
pub open spec fn is_weekday(c0: char, c1: char, c2: char) -> bool {
    ||| (c0 == 'M' && c1 == 'o' && c2 == 'n')
    ||| (c0 == 'T' && c1 == 'u' && c2 == 'e')
    ||| (c0 == 'W' && c1 == 'e' && c2 == 'd')
    ||| (c0 == 'T' && c1 == 'h' && c2 == 'u')
    ||| (c0 == 'F' && c1 == 'r' && c2 == 'i')
    ||| (c0 == 'S' && c1 == 'a' && c2 == 't')
    ||| (c0 == 'S' && c1 == 'u' && c2 == 'n')
}

/// Executable digit test, equal to [`is_digit`] on every character.
pub fn check_digit(c: char) -> (r: bool)
    ensures
        r == is_digit(c),
{
    '0' <= c && c <= '9'
}

/// Executable test that `s` holds digits only, from `i` to `i + n`
/// (exclusive).
pub fn check_digits(s: &str, i: usize, n: usize) -> (r: bool)
    requires
        i + n <= s@.len(),
        s@.len() <= usize::MAX,
    ensures
        r == digits_at(s@, i as int, n as int),
{
    let mut j: usize = 0;
    while j < n
        invariant
            j <= n,
            i + n <= s@.len(),
            s@.len() <= usize::MAX,
            forall|k: int| i <= k < i + j ==> is_digit(#[trigger] s@[k]),
        decreases n - j,
    {
        if !check_digit(s.get_char(i + j)) {
            return false;
        }
        j += 1;
    }
    true
}

/// Numeric value of a digit character.
pub fn digit_value(c: char) -> (v: u32)
    requires
        is_digit(c),
    ensures
        v == digit_val(c),
        v <= 9,
{
    (c as u32) - ('0' as u32)
}

/// Month number of the three characters at positions `i`, `i + 1` and
/// `i + 2` of `s`, or 0 when they spell no month abbreviation.
pub fn month_at(s: &str, i: usize) -> (m: u32)
    requires
        i + 3 <= s@.len(),
        s@.len() <= usize::MAX,
    ensures
        m == month_num(s@[i as int], s@[i + 1], s@[i + 2]),
        m <= 12,
{
    let c0 = s.get_char(i);
    let c1 = s.get_char(i + 1);
    let c2 = s.get_char(i + 2);
    if c0 == 'J' && c1 == 'a' && c2 == 'n' {
        1
    } else if c0 == 'F' && c1 == 'e' && c2 == 'b' {
        2
    } else if c0 == 'M' && c1 == 'a' && c2 == 'r' {
        3
    } else if c0 == 'A' && c1 == 'p' && c2 == 'r' {
        4
    } else if c0 == 'M' && c1 == 'a' && c2 == 'y' {
        5
    } else if c0 == 'J' && c1 == 'u' && c2 == 'n' {
        6
    } else if c0 == 'J' && c1 == 'u' && c2 == 'l' {
        7
    } else if c0 == 'A' && c1 == 'u' && c2 == 'g' {
        8
    } else if c0 == 'S' && c1 == 'e' && c2 == 'p' {
        9
    } else if c0 == 'O' && c1 == 'c' && c2 == 't' {
        10
    } else if c0 == 'N' && c1 == 'o' && c2 == 'v' {
        11
    } else if c0 == 'D' && c1 == 'e' && c2 == 'c' {
        12
    } else {
        0
    }
}

/// The three characters at positions `i`, `i + 1` and `i + 2` of `s` spell a
/// weekday abbreviation.
pub fn weekday_at(s: &str, i: usize) -> (r: bool)
    requires
        i + 3 <= s@.len(),
        s@.len() <= usize::MAX,
    ensures
        r == is_weekday(s@[i as int], s@[i + 1], s@[i + 2]),
{
    let c0 = s.get_char(i);
    let c1 = s.get_char(i + 1);
    let c2 = s.get_char(i + 2);
    (c0 == 'M' && c1 == 'o' && c2 == 'n') || (c0 == 'T' && c1 == 'u' && c2 == 'e') || (c0 == 'W'
        && c1 == 'e' && c2 == 'd') || (c0 == 'T' && c1 == 'h' && c2 == 'u') || (c0 == 'F' && c1
        == 'r' && c2 == 'i') || (c0 == 'S' && c1 == 'a' && c2 == 't') || (c0 == 'S' && c1 == 'u'
        && c2 == 'n')
}

/// The two digits at positions `i` and `i + 1` of `s`, as a number.
pub fn num2(s: &str, i: usize) -> (v: u32)
    requires
        i + 2 <= s@.len(),
        s@.len() <= usize::MAX,
        is_digit(s@[i as int]),
        is_digit(s@[i + 1]),
    ensures
        v == num2_at(s@, i as int),
        v <= 99,
{
    let d0 = digit_value(s.get_char(i));
    let d1 = digit_value(s.get_char(i + 1));
    10 * d0 + d1
}

/// The four digits at positions `i` through `i + 3` of `s`, as a number.
pub fn num4(s: &str, i: usize) -> (v: u32)
    requires
        i + 4 <= s@.len(),
        s@.len() <= usize::MAX,
        digits_at(s@, i as int, 4),
    ensures
        v == num4_at(s@, i as int),
        v <= 9999,
{
    let d0 = digit_value(s.get_char(i));
    let d1 = digit_value(s.get_char(i + 1));
    let d2 = digit_value(s.get_char(i + 2));
    let d3 = digit_value(s.get_char(i + 3));
    1000 * d0 + 100 * d1 + 10 * d2 + d3
}

/// Append the single digit character for `d` to `s`.
pub fn push_digit(s: &mut String, d: u32)
    requires
        d <= 9,
    ensures
        final (s)@ == old(s)@.push(digit_char(d as int)),
{
    let t: &str = if d == 0 {
        "0"
    } else if d == 1 {
        "1"
    } else if d == 2 {
        "2"
    } else if d == 3 {
        "3"
    } else if d == 4 {
        "4"
    } else if d == 5 {
        "5"
    } else if d == 6 {
        "6"
    } else if d == 7 {
        "7"
    } else if d == 8 {
        "8"
    } else {
        "9"
    };
    proof {
        reveal_strlit("0");
        reveal_strlit("1");
        reveal_strlit("2");
        reveal_strlit("3");
        reveal_strlit("4");
        reveal_strlit("5");
        reveal_strlit("6");
        reveal_strlit("7");
        reveal_strlit("8");
        reveal_strlit("9");
    }
    s.append(t);
    proof {
        assert(s@ =~= old(s)@.push(digit_char(d as int)));
    }
}

} // verus!
