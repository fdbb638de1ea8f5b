//! The calendar model: a plain date-time value (no time zone) together with
//! the validity rules of the Gregorian calendar.

use vstd::prelude::*;

verus! {

/// A local date with an optional time of day; a missing time of day is
/// stored as midnight.
#[derive(Clone, Copy, Debug, PartialEq, Eq, Structural)]
pub struct DateTime {
    pub year: u16,
    pub month: u8,
    pub day: u8,
    pub hour: u8,
    pub minute: u8,
}

/// Gregorian leap-year rule.
pub open spec fn is_leap_year(y: int) -> bool {
    (y % 4 == 0 && y % 100 != 0) || y % 400 == 0
}

/// Number of days in the given month of the given year.
pub open spec fn days_in_month(y: int, m: int) -> int {
    if m == 2 {
        if is_leap_year(y) {
            29
        } else {
            28
        }
    } else if m == 4 || m == 6 || m == 9 || m == 11 {
        30
    } else {
        31
    }
}

/// A year, month and day form a real calendar date.  Years are limited to
/// four decimal digits, as the timestamp grammar writes them.
pub open spec fn valid_date(y: int, m: int, d: int) -> bool {
    0 <= y <= 9999 && 1 <= m <= 12 && 1 <= d <= days_in_month(y, m)
}

impl DateTime {
    /// The stored fields form a real calendar date and time of day.
    pub open spec fn valid(self) -> bool {
        valid_date(self.year as int, self.month as int, self.day as int)
            && self.hour < 24 && self.minute < 60
    }
}

/// The character of one decimal digit.
pub open spec fn digit_char(d: int) -> char {
    if d == 0 {
        '0'
    } else if d == 1 {
        '1'
    } else if d == 2 {
        '2'
    } else if d == 3 {
        '3'
    } else if d == 4 {
        '4'
    } else if d == 5 {
        '5'
    } else if d == 6 {
        '6'
    } else if d == 7 {
        '7'
    } else if d == 8 {
        '8'
    } else {
        '9'
    }
}

/// The text of a number of at most two digits, zero padded.
pub open spec fn two_digit_chars(v: int) -> Seq<char> {
    seq![digit_char(v / 10), digit_char(v % 10)]
}

/// The text of a number of at most four digits, zero padded.
pub open spec fn four_digit_chars(v: int) -> Seq<char> {
    seq![digit_char(v / 1000), digit_char(v / 100 % 10), digit_char(v / 10 % 10), digit_char(v % 10)]
}

impl DateTime {
    /// Canonical text of the value: `YYYY-MM-DD HH:MM:SS`, with the seconds
    /// always zero.
    pub open spec fn text(self) -> Seq<char> {
        four_digit_chars(self.year as int) + seq!['-'] + two_digit_chars(self.month as int)
            + seq!['-'] + two_digit_chars(self.day as int) + seq![' '] + two_digit_chars(
            self.hour as int,
        ) + seq![':'] + two_digit_chars(self.minute as int) + seq![':', '0', '0']
    }
}

/// The one-character text of a digit.
fn digit_str(d: u32) -> (r: &'static str)
    requires
        d < 10,
    ensures
        r@ == seq![digit_char(d as int)],
{
    if d == 0 {
        proof {
            reveal_strlit("0");
            assert("0"@ =~= seq![digit_char(0)]);
        }
        "0"
    } else if d == 1 {
        proof {
            reveal_strlit("1");
            assert("1"@ =~= seq![digit_char(1)]);
        }
        "1"
    } else if d == 2 {
        proof {
            reveal_strlit("2");
            assert("2"@ =~= seq![digit_char(2)]);
        }
        "2"
    } else if d == 3 {
        proof {
            reveal_strlit("3");
            assert("3"@ =~= seq![digit_char(3)]);
        }
        "3"
    } else if d == 4 {
        proof {
            reveal_strlit("4");
            assert("4"@ =~= seq![digit_char(4)]);
        }
        "4"
    } else if d == 5 {
        proof {
            reveal_strlit("5");
            assert("5"@ =~= seq![digit_char(5)]);
        }
        "5"
    } else if d == 6 {
        proof {
            reveal_strlit("6");
            assert("6"@ =~= seq![digit_char(6)]);
        }
        "6"
    } else if d == 7 {
        proof {
            reveal_strlit("7");
            assert("7"@ =~= seq![digit_char(7)]);
        }
        "7"
    } else if d == 8 {
        proof {
            reveal_strlit("8");
            assert("8"@ =~= seq![digit_char(8)]);
        }
        "8"
    } else {
        proof {
            reveal_strlit("9");
            assert("9"@ =~= seq![digit_char(9)]);
        }
        "9"
    }
}

/// Append a number of at most two digits, zero padded.
fn push_two_digits(out: &mut String, v: u32)
    requires
        v < 100,
    ensures
        final(out)@ == old(out)@ + two_digit_chars(v as int),
{
    out.append(digit_str(v / 10));
    out.append(digit_str(v % 10));
    proof {
        assert(out@ =~= old(out)@ + two_digit_chars(v as int));
    }
}

/// Append a number of at most four digits, zero padded.
fn push_four_digits(out: &mut String, v: u32)
    requires
        v < 10000,
    ensures
        final(out)@ == old(out)@ + four_digit_chars(v as int),
{
    out.append(digit_str(v / 1000));
    out.append(digit_str(v / 100 % 10));
    out.append(digit_str(v / 10 % 10));
    out.append(digit_str(v % 10));
    proof {
        assert(out@ =~= old(out)@ + four_digit_chars(v as int));
    }
}

impl DateTime {
    /// The canonical text of the value, as `text` spells it out.
    pub fn render(&self) -> (r: String)
        requires
            self.valid(),
        ensures
            r@ == self.text(),
    {
        let mut out = String::new();
        push_four_digits(&mut out, self.year as u32);
        out.append("-");
        push_two_digits(&mut out, self.month as u32);
        out.append("-");
        push_two_digits(&mut out, self.day as u32);
        out.append(" ");
        push_two_digits(&mut out, self.hour as u32);
        out.append(":");
        push_two_digits(&mut out, self.minute as u32);
        out.append(":00");
        proof {
            reveal_strlit("-");
            reveal_strlit(" ");
            reveal_strlit(":");
            reveal_strlit(":00");
            assert("-"@ =~= seq!['-']);
            assert(" "@ =~= seq![' ']);
            assert(":"@ =~= seq![':']);
            assert(":00"@ =~= seq![':', '0', '0']);
            assert(out@ =~= self.text());
        }
        out
    }
}

/// Exec mirror of the leap-year rule.
pub fn is_leap_year_exec(y: u16) -> (r: bool)
    ensures
        r == is_leap_year(y as int),
{
    (y % 4 == 0 && y % 100 != 0) || y % 400 == 0
}

/// Exec mirror of the month-length table.
pub fn days_in_month_exec(y: u16, m: u32) -> (r: u32)
    ensures
        r == days_in_month(y as int, m as int),
{
    if m == 2 {
        if is_leap_year_exec(y) {
            29
        } else {
            28
        }
    } else if m == 4 || m == 6 || m == 9 || m == 11 {
        30
    } else {
        31
    }
}

/// Exec test that a year, month and day form a real calendar date.
pub fn valid_date_exec(y: u32, m: u32, d: u32) -> (r: bool)
    ensures
        r == valid_date(y as int, m as int, d as int),
{
    y <= 9999 && 1 <= m && m <= 12 && 1 <= d && d <= days_in_month_exec(y as u16, m)
}

} // verus!
