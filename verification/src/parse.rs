//! The timestamp grammar: locating the `<...>` token on a line and parsing
//! it against the four accepted format variants.
//!
//! The variants, tried in this order, are
//! `YYYY-MM-DD Www HH:MM`, `YYYY-MM-DD Www`, `YYYY-MM-DD HH:MM` and
//! `YYYY-MM-DD`, where `Www` is a three-letter English weekday abbreviation
//! (any letter may be upper or lower case; the weekday is not checked
//! against the date).  When the first variant matches, the time of day in
//! the token is discarded and midnight of the parsed date is returned, so
//! a time of day is kept only when the third variant is the one that
//! matches.  Callers diffing records against a clock should know this.

use vstd::prelude::*;

use crate::date::{valid_date, valid_date_exec, DateTime};
use crate::text::{find_char, find_char_from};

verus! {

/// Why a line yielded no timestamp: the line has no well-formed `<...>`
/// token at all, or the token matches none of the accepted formats.
#[derive(Clone, Copy, Debug, PartialEq, Eq, Structural)]
pub enum ParseFailure {
    StructuralFailure,
    FormatFailure,
}

/// Decimal digit.
pub open spec fn is_digit(c: char) -> bool {
    '0' <= c && c <= '9'
}

/// Value of a decimal digit.
pub open spec fn digit_val(c: char) -> int {
    c as int - '0' as int
}

/// Four decimal digits at `i`.
pub open spec fn four_digits_at(t: Seq<char>, i: int) -> bool {
    is_digit(t[i]) && is_digit(t[i + 1]) && is_digit(t[i + 2]) && is_digit(t[i + 3])
}

/// Two decimal digits at `i`.
pub open spec fn two_digits_at(t: Seq<char>, i: int) -> bool {
    is_digit(t[i]) && is_digit(t[i + 1])
}

/// Value of the four-digit number at `i`.
pub open spec fn four_val_at(t: Seq<char>, i: int) -> int {
    digit_val(t[i]) * 1000 + digit_val(t[i + 1]) * 100 + digit_val(t[i + 2]) * 10 + digit_val(
        t[i + 3],
    )
}

/// Value of the two-digit number at `i`.
pub open spec fn two_val_at(t: Seq<char>, i: int) -> int {
    digit_val(t[i]) * 10 + digit_val(t[i + 1])
}

/// `c` is the letter `l` (given in lower case) in either case.
pub open spec fn letter_ci(c: char, l: char) -> bool {
    c == l || c as int + 32 == l as int
}

/// A three-letter English weekday abbreviation at `i`, in any letter case.
pub open spec fn weekday_at(t: Seq<char>, i: int) -> bool {
    ||| (letter_ci(t[i], 'm') && letter_ci(t[i + 1], 'o') && letter_ci(t[i + 2], 'n'))
    ||| (letter_ci(t[i], 't') && letter_ci(t[i + 1], 'u') && letter_ci(t[i + 2], 'e'))
    ||| (letter_ci(t[i], 'w') && letter_ci(t[i + 1], 'e') && letter_ci(t[i + 2], 'd'))
    ||| (letter_ci(t[i], 't') && letter_ci(t[i + 1], 'h') && letter_ci(t[i + 2], 'u'))
    ||| (letter_ci(t[i], 'f') && letter_ci(t[i + 1], 'r') && letter_ci(t[i + 2], 'i'))
    ||| (letter_ci(t[i], 's') && letter_ci(t[i + 1], 'a') && letter_ci(t[i + 2], 't'))
    ||| (letter_ci(t[i], 's') && letter_ci(t[i + 1], 'u') && letter_ci(t[i + 2], 'n'))
}

/// `YYYY-MM-DD` at `i`, naming a real calendar date.
pub open spec fn date_at(t: Seq<char>, i: int) -> bool {
    four_digits_at(t, i) && t[i + 4] == '-' && two_digits_at(t, i + 5) && t[i + 7] == '-'
        && two_digits_at(t, i + 8) && valid_date(
        four_val_at(t, i),
        two_val_at(t, i + 5),
        two_val_at(t, i + 8),
    )
}

/// `HH:MM` at `i`, naming a real time of day.
pub open spec fn time_at(t: Seq<char>, i: int) -> bool {
    two_digits_at(t, i) && t[i + 2] == ':' && two_digits_at(t, i + 3) && two_val_at(t, i) < 24
        && two_val_at(t, i + 3) < 60
}

/// The date named by the `YYYY-MM-DD` at `i`, at midnight.
pub open spec fn date_value_at(t: Seq<char>, i: int) -> DateTime {
    DateTime {
        year: four_val_at(t, i) as u16,
        month: two_val_at(t, i + 5) as u8,
        day: two_val_at(t, i + 8) as u8,
        hour: 0,
        minute: 0,
    }
}

/// Format `YYYY-MM-DD Www HH:MM`.
pub open spec fn matches_date_weekday_time(t: Seq<char>) -> bool {
    t.len() == 20 && date_at(t, 0) && t[10] == ' ' && weekday_at(t, 11) && t[14] == ' '
        && time_at(t, 15)
}

/// Format `YYYY-MM-DD Www`.
pub open spec fn matches_date_weekday(t: Seq<char>) -> bool {
    t.len() == 14 && date_at(t, 0) && t[10] == ' ' && weekday_at(t, 11)
}

/// Format `YYYY-MM-DD HH:MM`.
pub open spec fn matches_date_time(t: Seq<char>) -> bool {
    t.len() == 16 && date_at(t, 0) && t[10] == ' ' && time_at(t, 11)
}

/// Format `YYYY-MM-DD`.
pub open spec fn matches_date_only(t: Seq<char>) -> bool {
    t.len() == 10 && date_at(t, 0)
}

/// What a token parses to: the first matching variant decides, and only the
/// date-plus-time variant keeps its time of day.
pub open spec fn token_datetime(t: Seq<char>) -> Option<DateTime> {
    if matches_date_weekday_time(t) {
        Some(date_value_at(t, 0))
    } else if matches_date_weekday(t) {
        Some(date_value_at(t, 0))
    } else if matches_date_time(t) {
        Some(
            DateTime {
                hour: two_val_at(t, 11) as u8,
                minute: two_val_at(t, 14) as u8,
                ..date_value_at(t, 0)
            },
        )
    } else if matches_date_only(t) {
        Some(date_value_at(t, 0))
    } else {
        None
    }
}

/// The token of a line: the characters strictly between the first `<` and
/// the first `>` after it, when both exist.
pub open spec fn token_of(s: Seq<char>) -> Option<Seq<char>> {
    let lt = find_char_from(s, '<', 0);
    if lt == s.len() {
        None
    } else {
        let gt = find_char_from(s, '>', lt + 1);
        if gt == s.len() {
            None
        } else {
            Some(s.subrange(lt + 1, gt))
        }
    }
}

/// What extracting a timestamp from a whole line yields.
pub open spec fn spec_extract(s: Seq<char>) -> Result<DateTime, ParseFailure> {
    match token_of(s) {
        None => Err(ParseFailure::StructuralFailure),
        Some(t) => match token_datetime(t) {
            Some(dt) => Ok(dt),
            None => Err(ParseFailure::FormatFailure),
        },
    }
}

/// When the first variant matches, the value returned is the plain date at
/// midnight: the time of day present in the token is discarded.
pub proof fn lemma_weekday_time_yields_midnight(t: Seq<char>)
    requires
        matches_date_weekday_time(t),
    ensures
        token_datetime(t) == Some(date_value_at(t, 0)),
        token_datetime(t)->Some_0.hour == 0,
        token_datetime(t)->Some_0.minute == 0,
{
}

/// Whatever variant matched, the parsed value is a real calendar date and
/// time of day.
pub proof fn lemma_token_datetime_valid(t: Seq<char>)
    requires
        token_datetime(t) is Some,
    ensures
        token_datetime(t)->Some_0.valid(),
{
}

/// Exec test for the letter `l` (lower case) in either case.
fn letter_ci_exec(c: char, l: char) -> (r: bool)
    requires
        'a' <= l && l <= 'z',
    ensures
        r == letter_ci(c, l),
{
    c == l || (c as u32) + 32 == (l as u32)
}

/// Exec read of one digit's value.
fn digit_value(c: char) -> (r: u32)
    requires
        is_digit(c),
    ensures
        r == digit_val(c),
        r <= 9,
{
    (c as u32) - ('0' as u32)
}

/// Exec test for a digit.
fn is_digit_exec(c: char) -> (r: bool)
    ensures
        r == is_digit(c),
{
    '0' <= c && c <= '9'
}

/// Exec check of `YYYY-MM-DD` at `i`.
fn check_date_at(t: &str, i: usize) -> (r: bool)
    requires
        i + 10 <= t@.len(),
    ensures
        r == date_at(t@, i as int),
{
    let _n = t.unicode_len();
    if !(is_digit_exec(t.get_char(i)) && is_digit_exec(t.get_char(i + 1)) && is_digit_exec(
        t.get_char(i + 2),
    ) && is_digit_exec(t.get_char(i + 3))) {
        return false;
    }
    if t.get_char(i + 4) != '-' {
        return false;
    }
    if !(is_digit_exec(t.get_char(i + 5)) && is_digit_exec(t.get_char(i + 6))) {
        return false;
    }
    if t.get_char(i + 7) != '-' {
        return false;
    }
    if !(is_digit_exec(t.get_char(i + 8)) && is_digit_exec(t.get_char(i + 9))) {
        return false;
    }
    let y = digit_value(t.get_char(i)) * 1000 + digit_value(t.get_char(i + 1)) * 100 + digit_value(
        t.get_char(i + 2),
    ) * 10 + digit_value(t.get_char(i + 3));
    let m = digit_value(t.get_char(i + 5)) * 10 + digit_value(t.get_char(i + 6));
    let d = digit_value(t.get_char(i + 8)) * 10 + digit_value(t.get_char(i + 9));
    valid_date_exec(y, m, d)
}

/// Exec check of `HH:MM` at `i`.
fn check_time_at(t: &str, i: usize) -> (r: bool)
    requires
        i + 5 <= t@.len(),
    ensures
        r == time_at(t@, i as int),
{
    let _n = t.unicode_len();
    if !(is_digit_exec(t.get_char(i)) && is_digit_exec(t.get_char(i + 1))) {
        return false;
    }
    if t.get_char(i + 2) != ':' {
        return false;
    }
    if !(is_digit_exec(t.get_char(i + 3)) && is_digit_exec(t.get_char(i + 4))) {
        return false;
    }
    let h = digit_value(t.get_char(i)) * 10 + digit_value(t.get_char(i + 1));
    let mi = digit_value(t.get_char(i + 3)) * 10 + digit_value(t.get_char(i + 4));
    h < 24 && mi < 60
}

/// Exec check of a weekday abbreviation at `i`.
fn check_weekday_at(t: &str, i: usize) -> (r: bool)
    requires
        i + 3 <= t@.len(),
    ensures
        r == weekday_at(t@, i as int),
{
    let _n = t.unicode_len();
    let a = t.get_char(i);
    let b = t.get_char(i + 1);
    let c = t.get_char(i + 2);
    (letter_ci_exec(a, 'm') && letter_ci_exec(b, 'o') && letter_ci_exec(c, 'n')) || (letter_ci_exec(
        a,
        't',
    ) && letter_ci_exec(b, 'u') && letter_ci_exec(c, 'e')) || (letter_ci_exec(a, 'w')
        && letter_ci_exec(b, 'e') && letter_ci_exec(c, 'd')) || (letter_ci_exec(a, 't')
        && letter_ci_exec(b, 'h') && letter_ci_exec(c, 'u')) || (letter_ci_exec(a, 'f')
        && letter_ci_exec(b, 'r') && letter_ci_exec(c, 'i')) || (letter_ci_exec(a, 's')
        && letter_ci_exec(b, 'a') && letter_ci_exec(c, 't')) || (letter_ci_exec(a, 's')
        && letter_ci_exec(b, 'u') && letter_ci_exec(c, 'n'))
}

/// Exec read of the date at `i`, at midnight.
fn read_date_at(t: &str, i: usize) -> (r: DateTime)
    requires
        i + 10 <= t@.len(),
        date_at(t@, i as int),
    ensures
        r == date_value_at(t@, i as int),
{
    let _n = t.unicode_len();
    let y = digit_value(t.get_char(i)) * 1000 + digit_value(t.get_char(i + 1)) * 100 + digit_value(
        t.get_char(i + 2),
    ) * 10 + digit_value(t.get_char(i + 3));
    let m = digit_value(t.get_char(i + 5)) * 10 + digit_value(t.get_char(i + 6));
    let d = digit_value(t.get_char(i + 8)) * 10 + digit_value(t.get_char(i + 9));
    DateTime { year: y as u16, month: m as u8, day: d as u8, hour: 0, minute: 0 }
}

/// Parse one timestamp token against the four format variants.
pub fn parse_token(t: &str) -> (r: Option<DateTime>)
    ensures
        r == token_datetime(t@),
{
    let n = t.unicode_len();
    if n == 20 {
        if check_date_at(t, 0) && t.get_char(10) == ' ' && check_weekday_at(t, 11) && t.get_char(14)
            == ' ' && check_time_at(t, 15) {
            Some(read_date_at(t, 0))
        } else {
            None
        }
    } else if n == 14 {
        if check_date_at(t, 0) && t.get_char(10) == ' ' && check_weekday_at(t, 11) {
            Some(read_date_at(t, 0))
        } else {
            None
        }
    } else if n == 16 {
        if check_date_at(t, 0) && t.get_char(10) == ' ' && check_time_at(t, 11) {
            let h = digit_value(t.get_char(11)) * 10 + digit_value(t.get_char(12));
            let mi = digit_value(t.get_char(14)) * 10 + digit_value(t.get_char(15));
            let d = read_date_at(t, 0);
            Some(DateTime { hour: h as u8, minute: mi as u8, ..d })
        } else {
            None
        }
    } else if n == 10 {
        if check_date_at(t, 0) {
            Some(read_date_at(t, 0))
        } else {
            None
        }
    } else {
        None
    }
}

/// Extract and parse the timestamp token of a line: the substring strictly
/// between the first `<` and the first `>` after it.  A line without such a
/// token fails structurally; a token matching no format variant fails on
/// format, and those are the only failures.
pub fn extract_timestamp(line: &str) -> (r: Result<DateTime, ParseFailure>)
    ensures
        r == spec_extract(line@),
        r is Err <==> (token_of(line@) is None || token_datetime(token_of(line@)->Some_0) is None),
        r == Err::<DateTime, ParseFailure>(ParseFailure::StructuralFailure) <==> token_of(line@) is None,
        r is Ok ==> r->Ok_0.valid(),
{
    proof {
        if spec_extract(line@) is Ok {
            lemma_token_datetime_valid(token_of(line@)->Some_0);
        }
    }
    let n = line.unicode_len();
    let lt = find_char(line, '<', 0);
    if lt == n {
        return Err(ParseFailure::StructuralFailure);
    }
    let gt = find_char(line, '>', lt + 1);
    if gt == n {
        return Err(ParseFailure::StructuralFailure);
    }
    let token = line.substring_char(lt + 1, gt);
    match parse_token(token) {
        Some(dt) => Ok(dt),
        None => Err(ParseFailure::FormatFailure),
    }
}

} // verus!
