//! Calendar dates and the kinds of exception a service can have on one.

use crate::decimal::{all_digits, byte_chars, is_digit};
use vstd::prelude::*;
use vstd::string::*;

verus! {

/// Whether `year` has a 29th of February in the Gregorian calendar.
pub open spec fn is_leap_year(year: int) -> bool {
    year % 4 == 0 && (year % 100 != 0 || year % 400 == 0)
}

/// The number of days of the month `month` in `year`.
pub open spec fn days_in_month(year: int, month: int) -> int {
    if month == 2 {
        if is_leap_year(year) {
            29
        } else {
            28
        }
    } else if month == 4 || month == 6 || month == 9 || month == 11 {
        30
    } else {
        31
    }
}

/// A day of the Gregorian calendar, in the years 0 to 9999.
pub ghost struct DateView {
    pub year: int,
    pub month: int,
    pub day: int,
}

impl DateView {
    /// Whether there is such a day.
    pub open spec fn valid(self) -> bool {
        &&& 0 <= self.year <= 9999
        &&& 1 <= self.month <= 12
        &&& 1 <= self.day <= days_in_month(self.year, self.month)
    }
}

/// The number that the digit `c` stands for.
pub open spec fn digit_value(c: char) -> int {
    c as int - '0' as int
}

/// The number that the digits of `s` write in base ten.
pub open spec fn number_of(s: Seq<char>) -> int
    decreases s.len(),
{
    if s.len() == 0 {
        0
    } else {
        10 * number_of(s.drop_last()) + digit_value(s.last())
    }
}

/// The date that `s` writes in the ISO 8601 basic format `YYYYMMDD`: eight
/// digits, of which the first four are the year, the next two the month and
/// the last two the day, and which name a day that exists.
pub open spec fn date_of(s: Seq<char>) -> Option<DateView> {
    let date = DateView {
        year: number_of(s.subrange(0, 4)),
        month: number_of(s.subrange(4, 6)),
        day: number_of(s.subrange(6, 8)),
    };
    if s.len() == 8 && all_digits(s) && date.valid() {
        Some(date)
    } else {
        None
    }
}

/// A calendar date.
#[derive(Clone, Copy, Debug, PartialEq, Eq)]
pub struct Date {
    year: u16,
    month: u8,
    day: u8,
}

impl View for Date {
    type V = DateView;

    closed spec fn view(&self) -> DateView {
        DateView { year: self.year as int, month: self.month as int, day: self.day as int }
    }
}

/// The number of days of the month `month` in `year`.
fn month_length(year: u16, month: u8) -> (days: u8)
    ensures
        days == days_in_month(year as int, month as int),
{
    if month == 2 {
        if year % 4 == 0 && (year % 100 != 0 || year % 400 == 0) {
            29
        } else {
            28
        }
    } else if month == 4 || month == 6 || month == 9 || month == 11 {
        30
    } else {
        31
    }
}

/// The number that the digits from `start` up to `end` write, for at most
/// four digits.
fn digits_value(bytes: &[u8], start: usize, end: usize) -> (value: u16)
    requires
        start <= end <= bytes@.len(),
        end - start <= 4,
        all_digits(byte_chars(bytes@).subrange(start as int, end as int)),
    ensures
        value == number_of(byte_chars(bytes@).subrange(start as int, end as int)),
        value <= 9999,
        end - start <= 2 ==> value <= 99,
{
    let ghost chars = byte_chars(bytes@);
    let mut value: u16 = 0;
    let mut i: usize = start;
    while i < end
        invariant
            start <= i <= end <= bytes@.len(),
            end - start <= 4,
            chars == byte_chars(bytes@),
            all_digits(chars.subrange(start as int, end as int)),
            value == number_of(chars.subrange(start as int, i as int)),
            i - start == 0 ==> value == 0,
            i - start == 1 ==> value <= 9,
            i - start == 2 ==> value <= 99,
            i - start == 3 ==> value <= 999,
            i - start == 4 ==> value <= 9999,
        decreases end - i,
    {
        let b: u8 = bytes[i];
        proof {
            let next = chars.subrange(start as int, i + 1);
            assert(next.drop_last() == chars.subrange(start as int, i as int));
            assert(chars.subrange(start as int, end as int)[i - start] == b as char);
        }
        value = value * 10 + (b - 48) as u16;
        i += 1;
    }
    value
}

impl Date {
    #[verifier::type_invariant]
    spec fn exists_in_calendar(&self) -> bool {
        self@.valid()
    }

    /// The date of the day `day` of the month `month` of `year`, if there is
    /// such a day.
    pub fn from_ymd(year: u16, month: u8, day: u8) -> (date: Option<Date>)
        ensures
            match date {
                Some(date) => date@ == (DateView {
                    year: year as int,
                    month: month as int,
                    day: day as int,
                }) && date@.valid(),
                None => !(DateView {
                    year: year as int,
                    month: month as int,
                    day: day as int,
                }).valid(),
            },
    {
        if year <= 9999 && 1 <= month && month <= 12 && 1 <= day && day <= month_length(
            year,
            month,
        ) {
            Some(Date { year, month, day })
        } else {
            None
        }
    }

    /// Reads a date written as `YYYYMMDD`.
    pub fn parse(text: &str) -> (date: Option<Date>)
        ensures
            match date {
                Some(date) => date_of(text@) == Some(date@),
                None => date_of(text@) is None,
            },
    {
        if !text.is_ascii() {
            proof {
                if text@.len() == 8 && all_digits(text@) {
                    assert forall|i: int| 0 <= i < text@.len() implies '\0' <= #[trigger] text@[i]
                        <= '\u{7f}' by {}
                }
            }
            return None;
        }
        let bytes = text.as_bytes();
        proof {
            is_ascii_spec_bytes(text);
        }
        if bytes.len() != 8 {
            return None;
        }
        let mut i: usize = 0;
        while i < 8
            invariant
                0 <= i <= 8,
                bytes@.len() == 8,
                byte_chars(bytes@) == text@,
                forall|k: int| 0 <= k < i ==> is_digit(#[trigger] text@[k]),
            decreases 8 - i,
        {
            let b: u8 = bytes[i];
            if b < 48 || b > 57 {
                assert(text@[i as int] == b as char);
                return None;
            }
            i += 1;
        }
        proof {
            assert forall|a: int, b: int| 0 <= a <= b <= 8 implies all_digits(
                #[trigger] text@.subrange(a, b),
            ) by {
                assert forall|k: int| 0 <= k < b - a implies is_digit(
                    #[trigger] text@.subrange(a, b)[k],
                ) by {}
            }
        }
        let year = digits_value(bytes, 0, 4);
        let month = digits_value(bytes, 4, 6);
        let day = digits_value(bytes, 6, 8);
        Date::from_ymd(year, month as u8, day as u8)
    }

    /// The year, from 0 to 9999.
    pub fn year(&self) -> (year: u16)
        ensures
            year == self@.year,
            self@.valid(),
    {
        proof {
            use_type_invariant(self);
        }
        self.year
    }

    /// The month, from 1 to 12.
    pub fn month(&self) -> (month: u8)
        ensures
            month == self@.month,
            self@.valid(),
    {
        proof {
            use_type_invariant(self);
        }
        self.month
    }

    /// The day of the month, from 1.
    pub fn day(&self) -> (day: u8)
        ensures
            day == self@.day,
            self@.valid(),
    {
        proof {
            use_type_invariant(self);
        }
        self.day
    }
}

/// What a calendar exception does to a service on its date.
#[derive(Clone, Copy, Debug, PartialEq, Eq, Structural)]
pub enum ExceptionType {
    /// The service runs on the date although its pattern leaves the date out.
    Added,
    /// The service does not run on the date although its pattern holds it.
    Removed,
}

/// The exception type that `s` writes: `1` for a date added to a service, `2`
/// for a date removed from it.
pub open spec fn exception_type_of(s: Seq<char>) -> Option<ExceptionType> {
    if s == seq!['1'] {
        Some(ExceptionType::Added)
    } else if s == seq!['2'] {
        Some(ExceptionType::Removed)
    } else {
        None
    }
}

impl ExceptionType {
    /// Reads an exception type written as `1` or `2`.
    pub fn parse(text: &str) -> (kind: Option<ExceptionType>)
        ensures
            kind == exception_type_of(text@),
    {
        if !text.is_ascii() {
            proof {
                if text@.len() == 1 && (text@[0] == '1' || text@[0] == '2') {
                    assert forall|i: int| 0 <= i < text@.len() implies '\0' <= #[trigger] text@[i]
                        <= '\u{7f}' by {}
                }
            }
            return None;
        }
        let bytes = text.as_bytes();
        proof {
            is_ascii_spec_bytes(text);
        }
        if bytes.len() != 1 {
            return None;
        }
        if bytes[0] == 49 {
            assert(text@ =~= seq!['1']);
            Some(ExceptionType::Added)
        } else if bytes[0] == 50 {
            assert(text@ =~= seq!['2']);
            Some(ExceptionType::Removed)
        } else {
            None
        }
    }
}

} // verus!
