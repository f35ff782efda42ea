//! Calendar dates, and the form in which the releases list writes them.
//!
//! A date cell reads `August 15, 2024`: the full English name of the month,
//! a blank, the day in one or two digits, a comma, a blank, and the year in
//! four digits. No other form is read. Whether the day exists in the
//! calendar is asked of `chrono`.

use chrono::NaiveDate;
use vstd::prelude::*;
use crate::error::{FieldError, FieldFailure};
use crate::text::{
    chars_of, digit_number, digit_value, is_digit, lemma_run_end, lemma_run_end_is_end, run_end,
    scan_run, spells, CharClass,
};

verus! {

/// `chrono::NaiveDate`, which `NaiveDate::from_ymd_opt` gives.
#[verifier::external_type_specification]
#[verifier::external_body]
pub struct ExNaiveDate(NaiveDate);

/// A day of the proleptic Gregorian calendar.
#[derive(Debug, Clone, Copy, PartialEq, Eq, Structural, PartialOrd, Ord, Hash)]
pub struct Date {
    /// The year; the year 0 comes before the year 1.
    pub year: i32,
    /// From 1, for January, to 12.
    pub month: u32,
    /// From 1 to the length of the month.
    pub day: u32,
}

/// The first year that `chrono` has dates for.
pub const MIN_YEAR: i32 = -262143;

/// The last year that `chrono` has dates for.
pub const MAX_YEAR: i32 = 262142;

/// Whether the year has a 29th of February.
pub open spec fn is_leap_year(year: int) -> bool {
    year % 4 == 0 && (year % 100 != 0 || year % 400 == 0)
}

/// The number of days of a month.
pub open spec fn days_in_month(year: int, month: int) -> int {
    if month == 2 {
        if is_leap_year(year) {
            29
        } else {
            28
        }
    } else if month == 4 || month == 6 || month == 9 || month == 11 {
        30
    } else {
        31
    }
}

/// Whether the calendar has this day, in the years that `chrono` covers.
pub open spec fn is_calendar_date(year: int, month: int, day: int) -> bool {
    &&& MIN_YEAR <= year <= MAX_YEAR
    &&& 1 <= month <= 12
    &&& 1 <= day <= days_in_month(year, month)
}

/// `NaiveDate::from_ymd_opt` gives a date for the days that the calendar
/// has, from the year -262143 to the year 262142, and `None` for every
/// other triple of numbers.
pub assume_specification[ NaiveDate::from_ymd_opt ](year: i32, month: u32, day: u32) -> (date:
    Option<NaiveDate>)
    ensures
        date is Some <==> is_calendar_date(year as int, month as int, day as int),
;

impl Date {
    /// Whether the date is a day of the calendar.
    pub open spec fn wf(self) -> bool {
        is_calendar_date(self.year as int, self.month as int, self.day as int)
    }

    /// The date of a year, a month and a day, if the calendar has that day.
    pub fn new(year: i32, month: u32, day: u32) -> (date: Option<Date>)
        ensures
            date == if is_calendar_date(year as int, month as int, day as int) {
                Some(Date { year, month, day })
            } else {
                None
            },
    {
        match NaiveDate::from_ymd_opt(year, month, day) {
            Some(_) => Some(Date { year, month, day }),
            None => None,
        }
    }
}

/// The English name of a month.
pub open spec fn month_name(month: int) -> Seq<char> {
    if month == 1 {
        "January"@
    } else if month == 2 {
        "February"@
    } else if month == 3 {
        "March"@
    } else if month == 4 {
        "April"@
    } else if month == 5 {
        "May"@
    } else if month == 6 {
        "June"@
    } else if month == 7 {
        "July"@
    } else if month == 8 {
        "August"@
    } else if month == 9 {
        "September"@
    } else if month == 10 {
        "October"@
    } else if month == 11 {
        "November"@
    } else {
        "December"@
    }
}

/// The month that a name stands for, from 1 to 12; 0 where the text is not
/// the name of a month, written in full and with a capital.
pub open spec fn month_of_name(name: Seq<char>) -> int {
    first_month_named(name, 1)
}

/// The first month from `from` on that has the name, or 0.
pub open spec fn first_month_named(name: Seq<char>, from: int) -> int
    decreases 13 - from,
{
    if from < 1 || from > 12 {
        0
    } else if name == month_name(from) {
        from
    } else {
        first_month_named(name, from + 1)
    }
}

/// The number that a run of digits stands for.
pub open spec fn number_of(digits: Seq<char>) -> int
    decreases digits.len(),
{
    if digits.len() == 0 {
        0
    } else {
        number_of(digits.drop_last()) * 10 + digit_value(digits.last())
    }
}

/// The date that a text in the form `August 15, 2024` stands for.
pub open spec fn date_of(s: Seq<char>) -> Option<Date> {
    let name_end = run_end(s, 0, CharClass::Except(' '));
    let day_end = run_end(s, name_end + 1, CharClass::Digit);
    let year_end = run_end(s, day_end + 2, CharClass::Digit);
    let month = month_of_name(s.subrange(0, name_end));
    let day = number_of(s.subrange(name_end + 1, day_end));
    let year = number_of(s.subrange(day_end + 2, year_end));
    if month != 0 && name_end < s.len() && 1 <= day_end - (name_end + 1) <= 2 && day_end + 2
        <= s.len() && s[day_end] == ',' && s[day_end + 1] == ' ' && year_end == day_end + 6
        && year_end == s.len() && is_calendar_date(year, month, day) {
        Some(Date { year: year as i32, month: month as u32, day: day as u32 })
    } else {
        None
    }
}

/// What reading a date cell gives: the date, or the text that is none.
pub open spec fn date_of_cell(s: Seq<char>) -> Result<Date, FieldFailure> {
    match date_of(s) {
        Some(date) => Ok(date),
        None => Err(FieldFailure::DateMalformed(s)),
    }
}

/// The name of a month, from 1 to 12.
pub fn month_label(month: u32) -> (name: &'static str)
    requires
        1 <= month <= 12,
    ensures
        name@ == month_name(month as int),
{
    if month == 1 {
        "January"
    } else if month == 2 {
        "February"
    } else if month == 3 {
        "March"
    } else if month == 4 {
        "April"
    } else if month == 5 {
        "May"
    } else if month == 6 {
        "June"
    } else if month == 7 {
        "July"
    } else if month == 8 {
        "August"
    } else if month == 9 {
        "September"
    } else if month == 10 {
        "October"
    } else if month == 11 {
        "November"
    } else {
        "December"
    }
}

/// Finds the month whose name the characters up to `to` spell out.
fn read_month(chars: &Vec<char>, to: usize) -> (month: u32)
    requires
        to <= chars.len(),
    ensures
        month == month_of_name(chars@.subrange(0, to as int)),
        month <= 12,
{
    let mut month: u32 = 1;
    while month <= 12
        invariant
            1 <= month <= 13,
            to <= chars.len(),
            first_month_named(chars@.subrange(0, to as int), month as int) == month_of_name(
                chars@.subrange(0, to as int),
            ),
        decreases 13 - month,
    {
        if spells(chars, 0, to, month_label(month)) {
            return month;
        }
        month = month + 1;
    }
    0
}

/// Reads the number that the digits from `from` up to `to` stand for.
fn read_number(chars: &Vec<char>, from: usize, to: usize) -> (n: u32)
    requires
        from <= to <= chars.len(),
        to - from <= 4,
        forall|k: int| from <= k < to ==> is_digit(#[trigger] chars@[k]),
    ensures
        n == number_of(chars@.subrange(from as int, to as int)),
        n <= 9999,
{
    let mut n: u32 = 0;
    let mut at: usize = from;
    while at < to
        invariant
            from <= at <= to <= chars.len(),
            to - from <= 4,
            forall|k: int| from <= k < to ==> is_digit(#[trigger] chars@[k]),
            n == number_of(chars@.subrange(from as int, at as int)),
            at - from == 0 ==> n == 0,
            at - from == 1 ==> n <= 9,
            at - from == 2 ==> n <= 99,
            at - from == 3 ==> n <= 999,
            at - from == 4 ==> n <= 9999,
        decreases to - at,
    {
        let digit = digit_number(chars[at]);
        proof {
            let next = chars@.subrange(from as int, at + 1);
            assert(next.drop_last() =~= chars@.subrange(from as int, at as int));
            assert(next.last() == chars@[at as int]);
        }
        n = n * 10 + digit as u32;
        at = at + 1;
    }
    n
}

/// Reads a date from the characters of a date cell.
fn read_date(chars: &Vec<char>) -> (date: Option<Date>)
    ensures
        date == date_of(chars@),
{
    let len = chars.len();
    let name_end = scan_run(chars, 0, CharClass::Except(' '));
    if name_end >= len {
        return None;
    }
    let month = read_month(chars, name_end);
    if month == 0 {
        return None;
    }
    let day_end = scan_run(chars, name_end + 1, CharClass::Digit);
    let day_len = day_end - (name_end + 1);
    if day_len < 1 || day_len > 2 || len - day_end < 2 || chars[day_end] != ',' || chars[day_end
        + 1] != ' ' {
        return None;
    }
    let year_end = scan_run(chars, day_end + 2, CharClass::Digit);
    if year_end != len || year_end - day_end != 6 {
        return None;
    }
    proof {
        lemma_run_end_is_end(chars@, name_end + 1, CharClass::Digit);
        lemma_run_end_is_end(chars@, day_end + 2, CharClass::Digit);
    }
    let day = read_number(chars, name_end + 1, day_end);
    let year = read_number(chars, day_end + 2, year_end);
    Date::new(year as i32, month, day)
}

/// Reads the date from the text of a date cell.
pub fn parse_date_text(text: &String) -> (date: Result<Date, FieldError>)
    ensures
        match date {
            Ok(d) => date_of_cell(text@) == Ok::<Date, FieldFailure>(d),
            Err(error) => date_of_cell(text@) == Err::<Date, FieldFailure>(error@),
        },
        date matches Ok(d) ==> d.wf(),
{
    let chars = chars_of(text.as_str());
    match read_date(&chars) {
        Some(d) => Ok(d),
        None => Err(FieldError::DateMalformed(text.clone())),
    }
}

/// The digit that stands for a number from 0 to 9.
pub open spec fn digit_char(n: int) -> char {
    (n + 0x30) as u8 as char
}

/// A day of the month in digits, without a leading zero.
pub open spec fn day_text(day: int) -> Seq<char> {
    if day < 10 {
        seq![digit_char(day)]
    } else {
        seq![digit_char(day / 10), digit_char(day % 10)]
    }
}

/// A year in four digits.
pub open spec fn year_text(year: int) -> Seq<char> {
    seq![
        digit_char(year / 1000),
        digit_char(year / 100 % 10),
        digit_char(year / 10 % 10),
        digit_char(year % 10),
    ]
}

/// A date in the form of the releases list, such as `August 15, 2024`, with
/// the day in `day`.
pub open spec fn date_text_with(date: Date, day: Seq<char>) -> Seq<char> {
    month_name(date.month as int) + seq![' '] + day + seq![',', ' '] + year_text(date.year as int)
}

/// A date in the form of the releases list, such as `August 5, 2024`.
pub open spec fn date_text(date: Date) -> Seq<char> {
    date_text_with(date, day_text(date.day as int))
}

/// A date in the form of the releases list, with a day of two digits, such
/// as `August 05, 2024`.
pub open spec fn padded_date_text(date: Date) -> Seq<char> {
    date_text_with(date, seq![digit_char(date.day as int / 10), digit_char(date.day as int % 10)])
}

/// The names of the months are made of letters, and no two months have one
/// name.
pub proof fn lemma_month_names(month: int)
    requires
        1 <= month <= 12,
    ensures
        3 <= month_name(month).len() <= 9,
        forall|k: int|
            0 <= k < month_name(month).len() ==> (#[trigger] month_name(month)[k]) != ' ',
        month_of_name(month_name(month)) == month,
        forall|name: Seq<char>| #[trigger]
            month_of_name(name) == month ==> name == month_name(month),
{
    reveal_strlit("January");
    reveal_strlit("February");
    reveal_strlit("March");
    reveal_strlit("April");
    reveal_strlit("May");
    reveal_strlit("June");
    reveal_strlit("July");
    reveal_strlit("August");
    reveal_strlit("September");
    reveal_strlit("October");
    reveal_strlit("November");
    reveal_strlit("December");
    reveal_with_fuel(first_month_named, 13);
    let n = month_name(month);
    assert forall|j: int| 1 <= j <= 12 && j != month implies month_name(j) != n by {
        let other = month_name(j);
        assert(other.len() != n.len() || other[0] != n[0] || other[2] != n[2]);
    }
}

/// The digits of a number below a hundred, or below ten thousand, stand
/// for the number.
pub proof fn lemma_number_of_digits(day: int, year: int)
    requires
        0 <= day <= 99,
        0 <= year <= 9999,
    ensures
        number_of(day_text(day)) == day,
        number_of(seq![digit_char(day / 10), digit_char(day % 10)]) == day,
        number_of(year_text(year)) == year,
{
    reveal_with_fuel(number_of, 5);
    let two = seq![digit_char(day / 10), digit_char(day % 10)];
    assert(two.drop_last() =~= seq![digit_char(day / 10)]);
    assert(seq![digit_char(day / 10)].drop_last() =~= Seq::<char>::empty());
    assert(seq![digit_char(day)].drop_last() =~= Seq::<char>::empty());
    let four = year_text(year);
    let three = four.drop_last();
    let pair = three.drop_last();
    let one = pair.drop_last();
    assert(one.drop_last() =~= Seq::<char>::empty());
    assert(number_of(one) == year / 1000);
    assert(number_of(pair) == year / 100);
    assert(number_of(three) == year / 10);
}

/// A date written with the given digits for its day is read back.
proof fn lemma_date_text_is_read(date: Date, day: Seq<char>)
    requires
        date.wf(),
        0 <= date.year <= 9999,
        day == day_text(date.day as int) || day == seq![
            digit_char(date.day as int / 10),
            digit_char(date.day as int % 10),
        ],
    ensures
        date_of(date_text_with(date, day)) == Some(date),
{
    let name = month_name(date.month as int);
    let s = date_text_with(date, day);
    let a = name.len() as int;
    let b = a + 1 + day.len();
    lemma_month_names(date.month as int);
    lemma_number_of_digits(date.day as int, date.year as int);
    assert(s.len() == b + 6);
    assert forall|k: int| 0 <= k < a implies CharClass::Except(' ').has(#[trigger] s[k]) by {
        assert(s[k] == name[k]);
    }
    assert(s[a] == ' ');
    lemma_run_end(s, 0, a, CharClass::Except(' '));
    assert(s.subrange(0, a) =~= name);
    assert forall|k: int| a + 1 <= k < b implies CharClass::Digit.has(#[trigger] s[k]) by {
        assert(s[k] == day[k - a - 1]);
    }
    assert(s[b] == ',');
    lemma_run_end(s, a + 1, b, CharClass::Digit);
    assert(s.subrange(a + 1, b) =~= day);
    assert(s[b + 1] == ' ');
    assert forall|k: int| b + 2 <= k < b + 6 implies CharClass::Digit.has(#[trigger] s[k]) by {
        assert(s[k] == year_text(date.year as int)[k - b - 2]);
    }
    lemma_run_end(s, b + 2, b + 6, CharClass::Digit);
    assert(s.subrange(b + 2, b + 6) =~= year_text(date.year as int));
}

/// Reading gives back every date of the years 0 to 9999 that is written in
/// the form of the releases list, whether its day has a leading zero or
/// not.
pub proof fn lemma_date_round_trip(date: Date)
    requires
        date.wf(),
        0 <= date.year <= 9999,
    ensures
        date_of(date_text(date)) == Some(date),
        date_of(padded_date_text(date)) == Some(date),
{
    lemma_date_text_is_read(date, day_text(date.day as int));
    lemma_date_text_is_read(
        date,
        seq![digit_char(date.day as int / 10), digit_char(date.day as int % 10)],
    );
}

/// A run of one, two or four digits is the text of its number.
proof fn lemma_digits_of_number(digits: Seq<char>)
    requires
        forall|k: int| 0 <= k < digits.len() ==> is_digit(#[trigger] digits[k]),
    ensures
        digits.len() == 1 ==> 0 <= number_of(digits) <= 9 && digits == seq![
            digit_char(number_of(digits)),
        ],
        digits.len() == 2 ==> 0 <= number_of(digits) <= 99 && digits == seq![
            digit_char(number_of(digits) / 10),
            digit_char(number_of(digits) % 10),
        ],
        digits.len() == 4 ==> 0 <= number_of(digits) <= 9999 && digits == year_text(
            number_of(digits),
        ),
{
    reveal_with_fuel(number_of, 5);
    if digits.len() == 1 {
        assert(digits.drop_last() =~= Seq::<char>::empty());
        assert(digits =~= seq![digit_char(number_of(digits))]);
    } else if digits.len() == 2 {
        let one = digits.drop_last();
        assert(one.drop_last() =~= Seq::<char>::empty());
        assert(one.last() == digits[0]);
        assert(number_of(one) == digit_value(digits[0]));
        assert(digits =~= seq![
            digit_char(number_of(digits) / 10),
            digit_char(number_of(digits) % 10),
        ]);
    } else if digits.len() == 4 {
        let three = digits.drop_last();
        let two = three.drop_last();
        let one = two.drop_last();
        assert(one.drop_last() =~= Seq::<char>::empty());
        assert(one.last() == digits[0]);
        assert(two.last() == digits[1]);
        assert(three.last() == digits[2]);
        assert(number_of(one) == digit_value(digits[0]));
        assert(number_of(two) == number_of(one) * 10 + digit_value(digits[1]));
        assert(number_of(three) == number_of(two) * 10 + digit_value(digits[2]));
        assert(number_of(digits) == number_of(three) * 10 + digit_value(digits[3]));
        assert(digits =~= year_text(number_of(digits)));
    }
}

/// Only a text in the form of the releases list is read as a date: the
/// name of the month in full, a blank, the day in one or two digits, a
/// comma, a blank and the year in four digits, and nothing more.
pub proof fn lemma_date_form(s: Seq<char>)
    requires
        date_of(s) is Some,
    ensures
        s == date_text(date_of(s)->0) || s == padded_date_text(date_of(s)->0),
        0 <= date_of(s)->0.year <= 9999,
        date_of(s)->0.wf(),
{
    let date = date_of(s)->0;
    let a = run_end(s, 0, CharClass::Except(' '));
    let b = run_end(s, a + 1, CharClass::Digit);
    let name = s.subrange(0, a);
    let day = s.subrange(a + 1, b);
    let year = s.subrange(b + 2, b + 6);
    let month = month_of_name(name);
    lemma_run_end_is_end(s, 0, CharClass::Except(' '));
    lemma_run_end_is_end(s, a + 1, CharClass::Digit);
    lemma_run_end_is_end(s, b + 2, CharClass::Digit);
    assert(1 <= month <= 12) by {
        reveal_with_fuel(first_month_named, 13);
    }
    lemma_month_names(month);
    assert(name == month_name(month));
    assert(s[a] == ' ');
    assert forall|k: int| 0 <= k < day.len() implies is_digit(#[trigger] day[k]) by {
        assert(CharClass::Digit.has(s[k + a + 1]));
    }
    assert forall|k: int| 0 <= k < year.len() implies is_digit(#[trigger] year[k]) by {
        assert(CharClass::Digit.has(s[k + b + 2]));
    }
    lemma_digits_of_number(day);
    lemma_digits_of_number(year);
    assert(s =~= name + seq![' '] + day + seq![',', ' '] + year);
    if day.len() == 1 {
        assert(s == date_text(date));
    } else {
        assert(s == padded_date_text(date));
    }
}

} // verus!
