//! Calendar dates and their textual form, `YYYY-MM-DD`.
//!
//! A reservation is reported by its days alone: time of day and time zone are
//! gone by the time a [`CalendarDate`] exists. The text follows ISO 8601 as
//! chrono writes it: four digits for the years 0 to 9999, an explicit sign
//! and at least four digits for every other year.

use crate::text::{
    all_digits, digit_char, digits_value, is_digit, lemma_digit_char, lemma_digits_canonical,
    lemma_padded_decimal, padded_decimal, push_padded_decimal, read_digits, chars_of,
};
use vstd::prelude::*;

verus! {

/// A day of the proleptic Gregorian calendar, as three plain numbers.
///
/// Any three numbers can be held; [`CalendarDate::is_valid`] says which of
/// them name a day that exists.
#[derive(Clone, Copy, Debug, PartialEq, Eq, Structural)]
pub struct CalendarDate {
    pub year: i32,
    pub month: u32,
    pub day: u32,
}

/// The Gregorian leap-year rule, for every year, before year 1 too.
pub open spec fn is_leap_year(year: int) -> bool {
    year % 4 == 0 && (year % 100 != 0 || year % 400 == 0)
}

/// The number of days of a month, for `1 <= month <= 12`.
pub open spec fn days_in_month(year: int, month: int) -> int {
    if month == 2 {
        if is_leap_year(year) {
            29
        } else {
            28
        }
    } else if month == 4 || month == 6 || month == 9 || month == 11 {
        30
    } else {
        31
    }
}

/// The text of a year: `0007`, `2024`, `+12345`, `-0044`.
pub open spec fn year_text(year: int) -> Seq<char> {
    if 0 <= year <= 9999 {
        padded_decimal(year as nat, 4)
    } else if year < 0 {
        seq!['-'] + padded_decimal((-year) as nat, 4)
    } else {
        seq!['+'] + padded_decimal(year as nat, 4)
    }
}

/// The text of a date: the year, the month and the day, two digits each for
/// the last two, with `-` between them.
pub open spec fn date_text(date: CalendarDate) -> Seq<char> {
    year_text(date.year as int) + seq!['-'] + padded_decimal(date.month as nat, 2) + seq!['-']
        + padded_decimal(date.day as nat, 2)
}

/// The date that a text writes, if it is the text of a valid date.
pub open spec fn parsed_date(text: Seq<char>) -> Option<CalendarDate> {
    if exists|d: CalendarDate| d.is_valid() && date_text(d) == text {
        Some(choose|d: CalendarDate| d.is_valid() && date_text(d) == text)
    } else {
        None
    }
}

/// A number under a hundred is written with exactly two digits.
pub proof fn lemma_two_digits(n: nat)
    requires
        n < 100,
    ensures
        padded_decimal(n, 2) == seq![digit_char((n / 10) as int), digit_char((n % 10) as int)],
{
    reveal_with_fuel(padded_decimal, 3);
    assert(padded_decimal(n, 2) =~= seq![
        digit_char((n / 10) as int),
        digit_char((n % 10) as int),
    ]);
}

/// A number under ten thousand is written with exactly four digits.
pub proof fn lemma_four_digits(n: nat)
    requires
        n <= 9999,
    ensures
        padded_decimal(n, 4).len() == 4,
{
    reveal_with_fuel(padded_decimal, 5);
}

/// How the text of a year is laid out: four digits, or a sign and then the
/// canonical digits of the year's magnitude.
pub proof fn lemma_year_text(year: int)
    ensures
        year_text(year).len() >= 4,
        0 <= year <= 9999 ==> {
            &&& year_text(year).len() == 4
            &&& all_digits(year_text(year))
            &&& digits_value(year_text(year)) == year
        },
        year < 0 ==> {
            let digits = year_text(year).subrange(1, year_text(year).len() as int);
            &&& year_text(year)[0] == '-'
            &&& digits == padded_decimal((-year) as nat, 4)
        },
        year > 9999 ==> {
            let digits = year_text(year).subrange(1, year_text(year).len() as int);
            &&& year_text(year)[0] == '+'
            &&& digits == padded_decimal(year as nat, 4)
        },
{
    if 0 <= year <= 9999 {
        lemma_four_digits(year as nat);
        lemma_padded_decimal(year as nat, 4);
    } else if year < 0 {
        let p = padded_decimal((-year) as nat, 4);
        lemma_padded_decimal((-year) as nat, 4);
        assert(year_text(year).subrange(1, year_text(year).len() as int) =~= p);
    } else {
        let p = padded_decimal(year as nat, 4);
        lemma_padded_decimal(year as nat, 4);
        assert(year_text(year).subrange(1, year_text(year).len() as int) =~= p);
    }
}

/// How the text of a valid date is laid out, read from its end: two digits
/// of the day, a hyphen, two digits of the month, a hyphen, and before them
/// the text of the year.
pub proof fn lemma_date_text(date: CalendarDate)
    requires
        date.month < 100,
        date.day < 100,
    ensures
        ({
            let t = date_text(date);
            let n = t.len() as int;
            &&& n == year_text(date.year as int).len() + 6
            &&& t.subrange(0, n - 6) == year_text(date.year as int)
            &&& t[n - 6] == '-'
            &&& t.subrange(n - 5, n - 3) == padded_decimal(date.month as nat, 2)
            &&& all_digits(t.subrange(n - 5, n - 3))
            &&& digits_value(t.subrange(n - 5, n - 3)) == date.month
            &&& t[n - 3] == '-'
            &&& t.subrange(n - 2, n) == padded_decimal(date.day as nat, 2)
            &&& all_digits(t.subrange(n - 2, n))
            &&& digits_value(t.subrange(n - 2, n)) == date.day
        }),
{
    lemma_padded_decimal(date.month as nat, 2);
    lemma_padded_decimal(date.day as nat, 2);
    let t = date_text(date);
    let n = t.len() as int;
    let y = year_text(date.year as int);
    lemma_two_digits(date.month as nat);
    lemma_two_digits(date.day as nat);
    assert(t.subrange(0, n - 6) =~= y);
    assert(t.subrange(n - 5, n - 3) =~= padded_decimal(date.month as nat, 2));
    assert(t.subrange(n - 2, n) =~= padded_decimal(date.day as nat, 2));
}

/// Two years with the same text are the same year.
pub proof fn lemma_year_text_injective(a: int, b: int)
    requires
        year_text(a) == year_text(b),
    ensures
        a == b,
{
    lemma_year_text(a);
    lemma_year_text(b);
    lemma_padded_decimal(if a < 0 { (-a) as nat } else { a as nat }, 4);
    lemma_padded_decimal(if b < 0 { (-b) as nat } else { b as nat }, 4);
    if 0 <= a <= 9999 {
        assert(is_digit(year_text(a)[0]));
    }
    if 0 <= b <= 9999 {
        assert(is_digit(year_text(b)[0]));
    }
}

/// The text keeps the whole date: two dates with the same text are the same
/// date.
pub proof fn lemma_date_text_injective(a: CalendarDate, b: CalendarDate)
    requires
        a.is_valid(),
        b.is_valid(),
        date_text(a) == date_text(b),
    ensures
        a == b,
{
    lemma_date_text(a);
    lemma_date_text(b);
    lemma_year_text_injective(a.year as int, b.year as int);
    lemma_padded_decimal(a.month as nat, 2);
    lemma_padded_decimal(b.month as nat, 2);
    lemma_padded_decimal(a.day as nat, 2);
    lemma_padded_decimal(b.day as nat, 2);
}

/// A date written out and read again is the date itself: the text holds no
/// time of day and no time zone that could shift it.
pub proof fn lemma_date_round_trip(date: CalendarDate)
    requires
        date.is_valid(),
    ensures
        parsed_date(date_text(date)) == Some(date),
{
    let found = choose|d: CalendarDate| d.is_valid() && date_text(d) == date_text(date);
    lemma_date_text_injective(found, date);
}

/// A text is read as a date only if the date is valid and writes that text.
pub proof fn lemma_parsed_date(text: Seq<char>)
    ensures
        parsed_date(text) matches Some(d) ==> d.is_valid() && date_text(d) == text,
{
}

impl CalendarDate {
    /// True when the month is one of the twelve and the day exists in it.
    pub open spec fn is_valid(self) -> bool {
        1 <= self.month <= 12 && 1 <= self.day <= days_in_month(
            self.year as int,
            self.month as int,
        )
    }

    /// Tells whether the three numbers name a day that exists.
    pub fn valid(&self) -> (r: bool)
        ensures
            r == self.is_valid(),
    {
        if self.month < 1 || self.month > 12 || self.day < 1 {
            return false;
        }
        let shifted: u64 = (self.year as i64 + 2_400_000_000) as u64;
        let leap = shifted % 4 == 0 && (shifted % 100 != 0 || shifted % 400 == 0);
        assert(leap == is_leap_year(self.year as int));
        let last: u32 = if self.month == 2 {
            if leap {
                29
            } else {
                28
            }
        } else if self.month == 4 || self.month == 6 || self.month == 9 || self.month == 11 {
            30
        } else {
            31
        };
        self.day <= last
    }

    /// The date of the three numbers, if such a day exists.
    pub fn new(year: i32, month: u32, day: u32) -> (r: Option<CalendarDate>)
        ensures
            r == if (CalendarDate { year, month, day }).is_valid() {
                Some(CalendarDate { year, month, day })
            } else {
                None
            },
    {
        let date = CalendarDate { year, month, day };
        if date.valid() {
            Some(date)
        } else {
            None
        }
    }

    /// Writes the date as text.
    pub fn to_text(&self) -> (r: String)
        ensures
            r@ == date_text(*self),
    {
        let mut out = String::new();
        if 0 <= self.year && self.year <= 9999 {
            push_padded_decimal(&mut out, self.year as u32, 4);
        } else if self.year < 0 {
            out.push('-');
            push_padded_decimal(&mut out, (0 - self.year as i64) as u32, 4);
        } else {
            out.push('+');
            push_padded_decimal(&mut out, self.year as u32, 4);
        }
        assert(out@ =~= year_text(self.year as int));
        out.push('-');
        push_padded_decimal(&mut out, self.month, 2);
        out.push('-');
        push_padded_decimal(&mut out, self.day, 2);
        assert(out@ =~= date_text(*self));
        out
    }

    /// Reads a date from its text. Only the exact text of a valid date is
    /// accepted: no blanks, no missing or superfluous digits.
    pub fn parse(text: &str) -> (r: Option<CalendarDate>)
        ensures
            r == parsed_date(text@),
    {
        let chars = chars_of(text);
        let n = chars.len();
        if n < 10 {
            proof {
                assert forall|d: CalendarDate| d.is_valid() implies date_text(d) != chars@ by {
                    lemma_date_text(d);
                    lemma_year_text(d.year as int);
                }
            }
            return None;
        }
        if chars[n - 6] != '-' || chars[n - 3] != '-' {
            proof {
                assert forall|d: CalendarDate| d.is_valid() implies date_text(d) != chars@ by {
                    lemma_date_text(d);
                }
            }
            return None;
        }
        let year = read_year(&chars, n - 6);
        let month = read_digits(&chars, n - 5, n - 3, 99);
        let day = read_digits(&chars, n - 2, n, 99);
        match (year, month, day) {
            (Some(year), Some(month), Some(day)) => {
                let date = CalendarDate { year, month, day };
                proof {
                    lemma_digits_canonical(chars@.subrange(n - 5, n - 3), 2);
                    lemma_digits_canonical(chars@.subrange(n - 2, n as int), 2);
                    assert(date_text(date) =~= chars@);
                }
                if date.valid() {
                    proof {
                        lemma_date_round_trip(date);
                    }
                    Some(date)
                } else {
                    proof {
                        assert forall|d: CalendarDate| d.is_valid() implies date_text(d)
                            != chars@ by {
                            if date_text(d) == chars@ {
                                lemma_date_text(d);
                                lemma_year_text_injective(d.year as int, year as int);
                            }
                        }
                    }
                    None
                }
            },
            _ => {
                proof {
                    assert forall|d: CalendarDate| d.is_valid() implies date_text(d) != chars@ by {
                        lemma_date_text(d);
                    }
                }
                None
            },
        }
    }
}

/// Reads the year that `chars[..end]` writes, if it writes one.
fn read_year(chars: &Vec<char>, end: usize) -> (r: Option<i32>)
    requires
        end <= chars@.len(),
    ensures
        r matches Some(y) ==> year_text(y as int) == chars@.subrange(0, end as int),
        r is None ==> forall|y: int|
            i32::MIN <= y <= i32::MAX ==> #[trigger] year_text(y) != chars@.subrange(
                0,
                end as int,
            ),
{
    let ghost part = chars@.subrange(0, end as int);
    if end < 4 {
        proof {
            assert forall|y: int| i32::MIN <= y <= i32::MAX implies #[trigger] year_text(y)
                != part by {
                lemma_year_text(y);
            }
        }
        return None;
    }
    let first = chars[0];
    assert(part[0] == first);
    if first == '-' || first == '+' {
        let ghost digits = chars@.subrange(1, end as int);
        assert(part.subrange(1, part.len() as int) =~= digits);
        if end < 5 || (end > 5 && chars[1] == '0') {
            proof {
                assert(end >= 5 ==> digits[0] == chars@[1]);
                assert forall|y: int| i32::MIN <= y <= i32::MAX implies #[trigger] year_text(y)
                    != part by {
                    lemma_year_text(y);
                    lemma_padded_decimal((if y < 0 { -y } else { y }) as nat, 4);
                    if 0 <= y <= 9999 {
                        assert(is_digit(year_text(y)[0]));
                    }
                }
            }
            return None;
        }
        let limit: u32 = if first == '-' { 2147483648 } else { 2147483647 };
        match read_digits(chars, 1, end, limit) {
            Some(v) => {
                proof {
                    assert(digits[0] == chars@[1]);
                    lemma_digits_canonical(digits, 4);
                }
                if first == '-' && v >= 1 {
                    let year: i32 = (0 - v as i64) as i32;
                    assert(year_text(year as int) =~= part);
                    Some(year)
                } else if first == '+' && v > 9999 {
                    let year: i32 = v as i32;
                    assert(year_text(year as int) =~= part);
                    Some(year)
                } else {
                    proof {
                        assert forall|y: int| i32::MIN <= y <= i32::MAX implies #[trigger] year_text(
                            y,
                        ) != part by {
                            lemma_year_text(y);
                            lemma_padded_decimal((if y < 0 { -y } else { y }) as nat, 4);
                            if 0 <= y <= 9999 {
                                assert(is_digit(year_text(y)[0]));
                            }
                        }
                    }
                    None
                }
            },
            None => {
                proof {
                    assert forall|y: int| i32::MIN <= y <= i32::MAX implies #[trigger] year_text(y)
                        != part by {
                        lemma_year_text(y);
                        lemma_padded_decimal((if y < 0 { -y } else { y }) as nat, 4);
                        if 0 <= y <= 9999 {
                            assert(is_digit(year_text(y)[0]));
                        }
                    }
                }
                None
            },
        }
    } else {
        if end != 4 {
            proof {
                assert forall|y: int| i32::MIN <= y <= i32::MAX implies #[trigger] year_text(y)
                    != part by {
                    lemma_year_text(y);
                }
            }
            return None;
        }
        match read_digits(chars, 0, 4, 9999) {
            Some(v) => {
                proof {
                    lemma_digits_canonical(part, 4);
                }
                Some(v as i32)
            },
            None => {
                proof {
                    assert forall|y: int| i32::MIN <= y <= i32::MAX implies #[trigger] year_text(y)
                        != part by {
                        lemma_year_text(y);
                    }
                }
                None
            },
        }
    }
}

} // verus!
