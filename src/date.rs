//! Calendar dates of announcements: read from the page's long form
//! ("November 15, 2022") and written in the `YYYY-MM-DD` form.

use crate::text::{chars_of, digit, digit_char, push_char, same_chars};
use vstd::prelude::*;

verus! {

/// The format of announcement dates, in chrono's strftime notation.
pub const LONG_DATE_FORMAT: &'static str = "%B %d, %Y";

/// Whether `year` is a leap year of the Gregorian calendar.
pub open spec fn is_leap_year(year: int) -> bool {
    (year % 4 == 0 && year % 100 != 0) || year % 400 == 0
}

/// The number of days of `month` in `year`.
pub open spec fn days_in_month(year: int, month: int) -> int {
    if month == 2 {
        if is_leap_year(year) {
            29
        } else {
            28
        }
    } else if month == 4 || month == 6 || month == 9 || month == 11 {
        30
    } else {
        31
    }
}

/// A date of a four-digit year of the Gregorian calendar.
pub open spec fn valid_date(year: int, month: int, day: int) -> bool {
    &&& 0 <= year <= 9999
    &&& 1 <= month <= 12
    &&& 1 <= day <= days_in_month(year, month)
}

/// A calendar date with a four-digit year.
#[derive(Debug, Clone, Copy, PartialEq, Eq)]
pub struct Date {
    year: u32,
    month: u32,
    day: u32,
}

impl View for Date {
    type V = (int, int, int);

    closed spec fn view(&self) -> (int, int, int) {
        (self.year as int, self.month as int, self.day as int)
    }
}

/// The date text did not match the long date format or named no valid date.
#[derive(Debug, Clone, Copy, PartialEq, Eq, Structural)]
pub struct DateParseFailure;

/// What `chrono::NaiveDate::parse_from_str(text, format)` returns: the year,
/// month and day of the date, or none where it returns an error.
pub uninterp spec fn chrono_date_fields(text: Seq<char>, format: Seq<char>) -> Option<(i32, u32, u32)>;

#[verifier::external_type_specification]
#[verifier::external_body]
pub struct ExChronoParseError(chrono::ParseError);

/// Relies on `chrono::NaiveDate::parse_from_str`; the date it returns is
/// carried over as its year, month and day. With the format "%B %d, %Y", a
/// text of the long date shape is read as chrono's parser reads it: the
/// month name gives the month, at most two digits the day and at most four
/// the year, single spaces and the comma match themselves, and the result is
/// an error exactly when that day does not exist in that month and year.
#[verifier::external_body]
fn chrono_parse_date(text: &str, format: &str) -> (r: Result<(i32, u32, u32), chrono::ParseError>)
    ensures
        r matches Ok(f) ==> chrono_date_fields(text@, format@) == Some(f),
        r is Err <==> chrono_date_fields(text@, format@) is None,
        format@ == LONG_DATE_FORMAT@ && long_date_shape(text@) ==> match r {
            Ok(f) => (f.0 as int, f.1 as int, f.2 as int) == long_date_fields(text@),
            Err(_) => !valid_date(
                long_date_fields(text@).0,
                long_date_fields(text@).1,
                long_date_fields(text@).2,
            ),
        },
{
    chrono::NaiveDate::parse_from_str(text, format).map(
        |d| (chrono::Datelike::year(&d), chrono::Datelike::month(&d), chrono::Datelike::day(&d)),
    )
}

/// The full names of the months, January first.
pub open spec fn month_names() -> Seq<Seq<char>> {
    seq![
        "January"@,
        "February"@,
        "March"@,
        "April"@,
        "May"@,
        "June"@,
        "July"@,
        "August"@,
        "September"@,
        "October"@,
        "November"@,
        "December"@,
    ]
}

/// Whether `w` is the full name of a month.
pub open spec fn is_full_month(w: Seq<char>) -> bool {
    exists|i: int| 0 <= i < 12 && #[trigger] month_names()[i] == w
}

/// Whether `c` is a decimal digit.
pub open spec fn is_digit_char(c: char) -> bool {
    '0' <= c <= '9'
}

/// Whether `s` reads "<full month name> <one or two digits>, <four digits>".
pub open spec fn long_date_shape(s: Seq<char>) -> bool {
    let n = s.len() as int;
    let h = n - 6;
    &&& n >= 9
    &&& forall|i: int| n - 4 <= i < n ==> is_digit_char(#[trigger] s[i])
    &&& s[h] == ','
    &&& s[h + 1] == ' '
    &&& is_digit_char(s[h - 1])
    &&& ((s[h - 2] == ' ' && is_full_month(s.take(h - 2))) || (h >= 3 && is_digit_char(s[h - 2])
        && s[h - 3] == ' ' && is_full_month(s.take(h - 3))))
}

fn month_name_list() -> (r: Vec<Vec<char>>)
    ensures
        r@.len() == 12,
        forall|i: int| 0 <= i < 12 ==> (#[trigger] r@[i])@ == month_names()[i],
{
    let r = vec![
        chars_of("January"),
        chars_of("February"),
        chars_of("March"),
        chars_of("April"),
        chars_of("May"),
        chars_of("June"),
        chars_of("July"),
        chars_of("August"),
        chars_of("September"),
        chars_of("October"),
        chars_of("November"),
        chars_of("December"),
    ];
    r
}

fn full_month(w: &Vec<char>) -> (r: bool)
    ensures
        r == is_full_month(w@),
{
    let names = month_name_list();
    for i in 0..12
        invariant
            names@.len() == 12,
            forall|j: int| 0 <= j < 12 ==> (#[trigger] names@[j])@ == month_names()[j],
            forall|j: int| 0 <= j < i ==> month_names()[j] != w@,
    {
        if same_chars(&names[i], w) {
            return true;
        }
    }
    false
}

fn digit_at(s: &Vec<char>, i: usize) -> (r: bool)
    requires
        i < s@.len(),
    ensures
        r == is_digit_char(s@[i as int]),
{
    '0' <= s[i] && s[i] <= '9'
}

fn prefix(s: &Vec<char>, n: usize) -> (r: Vec<char>)
    requires
        n <= s@.len(),
    ensures
        r@ == s@.take(n as int),
{
    let mut r: Vec<char> = Vec::new();
    for i in 0..n
        invariant
            n <= s@.len(),
            r@ == s@.take(i as int),
    {
        r.push(s[i]);
        assert(s@.take(i + 1) == s@.take(i as int).push(s@[i as int]));
    }
    r
}

/// Whether `text` has the shape of a long date.
fn has_long_date_shape(text: &str) -> (r: bool)
    ensures
        r == long_date_shape(text@),
{
    let s = chars_of(text);
    let n = s.len();
    if n < 9 {
        return false;
    }
    if !(digit_at(&s, n - 4) && digit_at(&s, n - 3) && digit_at(&s, n - 2) && digit_at(&s, n - 1)) {
        assert(!is_digit_char(s@[n - 4]) || !is_digit_char(s@[n - 3]) || !is_digit_char(s@[n - 2])
            || !is_digit_char(s@[n - 1]));
        return false;
    }
    assert forall|i: int| n - 4 <= i < n implies is_digit_char(#[trigger] s@[i]) by {
        assert(i == n - 4 || i == n - 3 || i == n - 2 || i == n - 1);
    }
    let h = n - 6;
    if !(s[h] == ',' && s[h + 1] == ' ' && digit_at(&s, h - 1)) {
        return false;
    }
    if s[h - 2] == ' ' && full_month(&prefix(&s, h - 2)) {
        return true;
    }
    h >= 3 && digit_at(&s, h - 2) && s[h - 3] == ' ' && full_month(&prefix(&s, h - 3))
}

/// The value of a decimal digit character.
pub open spec fn digit_value(c: char) -> int {
    (c as u32) as int - ('0' as u32) as int
}

/// The year, month and day that a text of the long date shape spells: the
/// four final digits, the month's place among the full month names, and the
/// one or two digits before the comma.
pub open spec fn long_date_fields(s: Seq<char>) -> (int, int, int) {
    let n = s.len() as int;
    let h = n - 6;
    let year = 1000 * digit_value(s[n - 4]) + 100 * digit_value(s[n - 3]) + 10 * digit_value(
        s[n - 2],
    ) + digit_value(s[n - 1]);
    let one_digit = s[h - 2] == ' ';
    let day = if one_digit {
        digit_value(s[h - 1])
    } else {
        10 * digit_value(s[h - 2]) + digit_value(s[h - 1])
    };
    let name = if one_digit {
        s.take(h - 2)
    } else {
        s.take(h - 3)
    };
    let month = (choose|i: int| 0 <= i < 12 && #[trigger] month_names()[i] == name) + 1;
    (year, month, day)
}

/// The date that a long date text names: none where the text does not have
/// the long date shape or names a day that its month does not have.
pub open spec fn date_of_text(text: Seq<char>) -> Option<(int, int, int)> {
    if !long_date_shape(text) {
        None
    } else {
        let f = long_date_fields(text);
        if valid_date(f.0, f.1, f.2) {
            Some(f)
        } else {
            None
        }
    }
}

/// Two decimal digits of `n < 100`.
pub open spec fn two_digits(n: int) -> Seq<char> {
    seq![digit_char((n / 10) as nat), digit_char((n % 10) as nat)]
}

/// Four decimal digits of `n < 10000`.
pub open spec fn four_digits(n: int) -> Seq<char> {
    two_digits(n / 100) + two_digits(n % 100)
}

/// The `YYYY-MM-DD` form of a date.
pub open spec fn iso_text(d: (int, int, int)) -> Seq<char> {
    four_digits(d.0) + seq!['-'] + two_digits(d.1) + seq!['-'] + two_digits(d.2)
}

fn push_two_digits(out: &mut String, n: u32)
    requires
        n < 100,
    ensures
        final(out)@ == old(out)@ + two_digits(n as int),
{
    push_char(out, digit((n / 10) as u64));
    push_char(out, digit((n % 10) as u64));
}

impl Date {
    #[verifier::type_invariant]
    spec fn inv(self) -> bool {
        valid_date(self.year as int, self.month as int, self.day as int)
    }

    /// The date `year-month-day`, where it is a valid date of a four-digit year.
    pub fn new(year: i32, month: u32, day: u32) -> (r: Option<Date>)
        ensures
            r matches Some(d) ==> d@ == (year as int, month as int, day as int),
            r is Some <==> valid_date(year as int, month as int, day as int),
    {
        if year < 0 || year > 9999 || month < 1 || month > 12 || day < 1 {
            return None;
        }
        let leap = (year % 4 == 0 && year % 100 != 0) || year % 400 == 0;
        let days: u32 = if month == 2 {
            if leap {
                29
            } else {
                28
            }
        } else if month == 4 || month == 6 || month == 9 || month == 11 {
            30
        } else {
            31
        };
        if day > days {
            return None;
        }
        Some(Date { year: year as u32, month, day })
    }

    pub fn year(&self) -> (r: u32)
        ensures
            r == self@.0,
    {
        self.year
    }

    pub fn month(&self) -> (r: u32)
        ensures
            r == self@.1,
    {
        self.month
    }

    pub fn day(&self) -> (r: u32)
        ensures
            r == self@.2,
    {
        self.day
    }

    /// Reads a date in the long form, "November 15, 2022".
    pub fn parse_long(text: &str) -> (r: Result<Date, DateParseFailure>)
        ensures
            r matches Ok(d) ==> date_of_text(text@) == Some(d@),
            r is Err <==> date_of_text(text@) is None,
    {
        if !has_long_date_shape(text) {
            return Err(DateParseFailure);
        }
        match chrono_parse_date(text, LONG_DATE_FORMAT) {
            Err(_) => Err(DateParseFailure),
            Ok((y, m, d)) => match Date::new(y, m, d) {
                Some(date) => Ok(date),
                None => Err(DateParseFailure),
            },
        }
    }

    /// The `YYYY-MM-DD` form of the date.
    pub fn iso(&self) -> (r: String)
        ensures
            r@ == iso_text(self@),
    {
        proof {
            use_type_invariant(self);
        }
        let mut r = String::new();
        push_two_digits(&mut r, self.year / 100);
        push_two_digits(&mut r, self.year % 100);
        push_char(&mut r, '-');
        push_two_digits(&mut r, self.month);
        push_char(&mut r, '-');
        push_two_digits(&mut r, self.day);
        r
    }
}

} // verus!
