//! The calendar date of a moment, in UTC.
use vstd::prelude::*;
use vstd::string::*;
use crate::decimal::{lemma_decimal_text_len, padded_numeral, zero_padded};
use crate::digits::{
    is_run, law_filling_keeps_the_worth, law_numeral_names_its_number, worth,
};

verus! {

/// Seconds of a day.
pub const DAY_SECS: u64 = 86400;

/// Days from the first day of the year 1 up to the first day of 1970.
pub const EPOCH_DAYS: u64 = 719162;

/// A day of the Gregorian calendar.
pub struct Date {
    pub year: u64,
    pub month: u64,
    pub day: u64,
}

/// The year has a 29th of February.
pub open spec fn is_leap(year: int) -> bool {
    year % 4 == 0 && (year % 100 != 0 || year % 400 == 0)
}

/// How many days a year has.
pub open spec fn year_len(year: int) -> int {
    if is_leap(year) {
        366
    } else {
        365
    }
}

/// How many days a month has, January being the first.
pub open spec fn month_len(year: int, month: int) -> int {
    if month == 2 {
        if is_leap(year) {
            29
        } else {
            28
        }
    } else if month == 4 || month == 6 || month == 9 || month == 11 {
        30
    } else {
        31
    }
}

/// How many days come before a year, from the year 1 on.
pub open spec fn days_before_year(year: int) -> int {
    365 * (year - 1) + (year - 1) / 4 - (year - 1) / 100 + (year - 1) / 400
}

/// How many days of a year come before a month.
pub open spec fn days_before_month(year: int, month: int) -> int
    decreases month,
{
    if month <= 1 {
        0
    } else {
        days_before_month(year, month - 1) + month_len(year, month - 1)
    }
}

impl Date {
    /// There is such a day.
    pub open spec fn valid(self) -> bool {
        &&& 1 <= self.year
        &&& 1 <= self.month <= 12
        &&& 1 <= self.day <= month_len(self.year as int, self.month as int)
    }

    /// How many days lie between the first day of 1970 and this one.
    pub open spec fn day_number(self) -> int {
        days_before_year(self.year as int) + days_before_month(self.year as int, self.month as int)
            + self.day - 1 - EPOCH_DAYS
    }
}

/// A date as year, month and day, with at least four digits and two and two.
pub open spec fn iso_text(date: Date) -> Seq<char> {
    zero_padded(date.year as nat, 4) + "-"@ + zero_padded(date.month as nat, 2) + "-"@
        + zero_padded(date.day as nat, 2)
}

/// The text is the date of the day that many seconds after the start of 1970.
pub open spec fn is_date_text_at(text: Seq<char>, secs: u64) -> bool {
    exists|date: Date|
        #[trigger] date.valid() && date.day_number() == secs / DAY_SECS && text == iso_text(date)
}

proof fn lemma_year_step(year: int)
    requires
        1 <= year,
    ensures
        days_before_year(year + 1) == days_before_year(year) + year_len(year),
{
}

/// The days before the years grow by at least a year's length.
proof fn lemma_years_grow(a: int, b: int)
    requires
        1 <= a < b,
    ensures
        days_before_year(a) + year_len(a) <= days_before_year(b),
    decreases b - a,
{
    lemma_year_step(b - 1);
    if a < b - 1 {
        lemma_years_grow(a, b - 1);
    }
}

/// The days before the months grow by at least a month's length.
proof fn lemma_months_grow(year: int, a: int, b: int)
    requires
        1 <= a < b,
    ensures
        days_before_month(year, a) + month_len(year, a) <= days_before_month(year, b),
    decreases b - a,
{
    if a < b - 1 {
        lemma_months_grow(year, a, b - 1);
    }
}

/// The months of a year make up its days.
proof fn lemma_twelve_months(year: int)
    ensures
        days_before_month(year, 12) + 31 == year_len(year),
{
    reveal_with_fuel(days_before_month, 13);
}

/// A day stands within its year.
proof fn lemma_within_the_year(date: Date)
    requires
        date.valid(),
    ensures
        days_before_month(date.year as int, date.month as int) + date.day <= year_len(
            date.year as int,
        ),
        0 <= days_before_month(date.year as int, date.month as int),
{
    let (y, m) = (date.year as int, date.month as int);
    lemma_twelve_months(y);
    if m < 12 {
        lemma_months_grow(y, m, 12);
    }
    if m > 1 {
        lemma_months_grow(y, 1, m);
    }
}

/// Two different days have different numbers.
pub proof fn law_a_day_has_one_number(a: Date, b: Date)
    requires
        a.valid(),
        b.valid(),
        a.day_number() == b.day_number(),
    ensures
        a == b,
{
    lemma_within_the_year(a);
    lemma_within_the_year(b);
    if a.year < b.year {
        lemma_years_grow(a.year as int, b.year as int);
    } else if b.year < a.year {
        lemma_years_grow(b.year as int, a.year as int);
    } else if a.month < b.month {
        lemma_months_grow(a.year as int, a.month as int, b.month as int);
    } else if b.month < a.month {
        lemma_months_grow(a.year as int, b.month as int, a.month as int);
    }
}

/// Up to the year 9999 a date has ten characters: four digits, two and two,
/// with a hyphen between them.
pub proof fn law_a_date_has_ten_characters(date: Date)
    requires
        date.valid(),
        date.year <= 9999,
    ensures
        zero_padded(date.year as nat, 4).len() == 4,
        zero_padded(date.month as nat, 2).len() == 2,
        zero_padded(date.day as nat, 2).len() == 2,
        iso_text(date).len() == 10,
{
    reveal_with_fuel(crate::decimal::pow10, 5);
    lemma_decimal_text_len(date.year as nat, 4);
    lemma_decimal_text_len(date.month as nat, 2);
    lemma_decimal_text_len(date.day as nat, 2);
    reveal_strlit("-");
}

fn leap(year: u64) -> (yes: bool)
    ensures
        yes == is_leap(year as int),
{
    year % 4 == 0 && (year % 100 != 0 || year % 400 == 0)
}

fn length_of_year(year: u64) -> (days: u64)
    ensures
        days == year_len(year as int),
{
    if leap(year) {
        366
    } else {
        365
    }
}

fn length_of_month(year: u64, month: u64) -> (days: u64)
    ensures
        days == month_len(year as int, month as int),
{
    if month == 2 {
        if leap(year) {
            29
        } else {
            28
        }
    } else if month == 4 || month == 6 || month == 9 || month == 11 {
        30
    } else {
        31
    }
}

/// The day that many seconds after the start of 1970.
pub fn date_at(secs: u64) -> (date: Date)
    ensures
        date.valid(),
        date.day_number() == secs / DAY_SECS,
{
    let days: u64 = secs / DAY_SECS + EPOCH_DAYS;
    // The calendar repeats after 400 years of 146097 days.
    let cycles: u64 = days / 146097;
    let mut year: u64 = 400 * cycles + 1;
    let mut rest: u64 = days % 146097;
    while rest >= length_of_year(year)
        invariant
            1 <= year,
            year + rest <= 400 * cycles + 1 + 146097,
            cycles <= 0xffff_ffff_ffff,
            days == days_before_year(year as int) + rest,
        decreases rest,
    {
        proof {
            lemma_year_step(year as int);
        }
        rest -= length_of_year(year);
        year += 1;
    }
    let mut month: u64 = 1;
    while rest >= length_of_month(year, month)
        invariant
            1 <= month <= 12,
            days_before_month(year as int, month as int) + rest < year_len(year as int),
            days == days_before_year(year as int) + days_before_month(year as int, month as int)
                + rest,
        decreases rest,
    {
        proof {
            lemma_twelve_months(year as int);
        }
        rest -= length_of_month(year, month);
        month += 1;
    }
    Date { year, month, day: rest + 1 }
}

/// A date as year, month and day, with at least four digits and two and two.
pub fn iso_date(date: &Date) -> (text: String)
    ensures
        text@ == iso_text(*date),
{
    let mut text = padded_numeral(date.year as u128, 4);
    text.append("-");
    text.append(padded_numeral(date.month as u128, 2).as_str());
    text.append("-");
    text.append(padded_numeral(date.day as u128, 2).as_str());
    text
}

/// `SystemTime::elapsed` on the start of 1970: the seconds since then, as the
/// machine's clock has it; nothing where the clock stands before it. Nothing is
/// said of the number, which is the clock's.
#[verifier::external_body]
fn seconds_since_1970() -> (secs: Option<u64>) {
    match std::time::SystemTime::UNIX_EPOCH.elapsed() {
        Ok(elapsed) => Some(elapsed.as_secs()),
        Err(_) => None,
    }
}

/// The date of the day that many seconds after the start of 1970; the first day of
/// 1970 where a clock that stands before it gives none.
pub fn iso_at(secs: Option<u64>) -> (text: String)
    ensures
        is_date_text_at(
            text@,
            match secs {
                Some(s) => s,
                None => 0,
            },
        ),
{
    let at: u64 = match secs {
        Some(s) => s,
        None => 0,
    };
    let date = date_at(at);
    let text = iso_date(&date);
    proof {
        assert(date.valid());
    }
    text
}

/// Today's date, by the machine's clock; the first day of 1970 where the clock
/// stands before it. Which day it is, the clock decides.
pub fn today_iso() -> (text: String)
    ensures
        exists|secs: u64| is_date_text_at(text@, secs),
{
    iso_at(seconds_since_1970())
}

/// How many days a month has: thirty days have the fourth, the sixth, the ninth and the
/// eleventh; the second has 28, and 29 in every fourth year, but not in a hundredth,
/// unless it is a four-hundredth.
pub open spec fn days_in(year: int, month: int) -> int {
    if month == 4 || month == 6 || month == 9 || month == 11 {
        30
    } else if month != 2 {
        31
    } else if year % 400 == 0 || (year % 4 == 0 && year % 100 != 0) {
        29
    } else {
        28
    }
}

/// The days are counted: the first of 1970 is number zero, and each day has the number
/// behind that of the day before, over the ends of months and of years.
pub proof fn law_days_are_counted(a: Date, b: Date)
    requires
        1 <= a.year,
        1 <= a.month <= 12,
        1 <= a.day <= days_in(a.year as int, a.month as int),
        ({
            ||| a.day < days_in(a.year as int, a.month as int) && b.year == a.year && b.month
                == a.month && b.day == a.day + 1
            ||| a.day == days_in(a.year as int, a.month as int) && a.month < 12 && b.year == a.year
                && b.month == a.month + 1 && b.day == 1
            ||| a.day == days_in(a.year as int, a.month as int) && a.month == 12 && b.year == a.year
                + 1 && b.month == 1 && b.day == 1
        }),
    ensures
        a.valid(),
        b.valid(),
        b.day_number() == a.day_number() + 1,
        (Date { year: 1970, month: 1, day: 1 }).valid(),
        (Date { year: 1970, month: 1, day: 1 }).day_number() == 0,
{
    assert(days_before_month(1970, 1) == 0);
    lemma_twelve_months(a.year as int);
    lemma_year_step(a.year as int);
    assert(days_before_month(b.year as int, 1) == 0);
}

/// Only such days are valid.
pub proof fn law_valid_days(date: Date)
    ensures
        date.valid() <==> 1 <= date.year && 1 <= date.month <= 12 && 1 <= date.day <= days_in(
            date.year as int,
            date.month as int,
        ),
{
}

/// A date is written as year, month and day with hyphens between: the month and the day
/// in two digits, the year in four, or in as many as it has.
pub proof fn law_date_is_written(date: Date) -> (parts: (Seq<char>, Seq<char>, Seq<char>))
    requires
        date.valid(),
    ensures
        ({
            let (year, month, day) = parts;
            &&& iso_text(date) == year + seq!['-'] + month + seq!['-'] + day
            &&& is_run(year) && worth(year) == date.year && year.len() >= 4
            &&& year.len() > 4 ==> year[0] != '0'
            &&& is_run(month) && worth(month) == date.month && month.len() == 2
            &&& is_run(day) && worth(day) == date.day && day.len() == 2
        }),
{
    let year = zero_padded(date.year as nat, 4);
    let month = zero_padded(date.month as nat, 2);
    let day = zero_padded(date.day as nat, 2);
    law_filling_keeps_the_worth(date.year as nat, 4);
    law_filling_keeps_the_worth(date.month as nat, 2);
    law_filling_keeps_the_worth(date.day as nat, 2);
    law_numeral_names_its_number(date.year as nat);
    reveal_with_fuel(crate::decimal::pow10, 5);
    lemma_decimal_text_len(date.month as nat, 2);
    lemma_decimal_text_len(date.day as nat, 2);
    reveal_strlit("-");
    assert("-"@ =~= seq!['-']);
    (year, month, day)
}

/// The date of a moment is that of the day that it falls on, a day having 86400 seconds.
pub proof fn law_date_of_a_moment(text: Seq<char>, secs: u64, date: Date)
    requires
        is_date_text_at(text, secs),
        date.valid(),
        86400 * date.day_number() <= secs < 86400 * (date.day_number() + 1),
    ensures
        text == iso_text(date),
{
    let found = choose|found: Date|
        #[trigger] found.valid() && found.day_number() == secs / DAY_SECS && text == iso_text(
            found,
        );
    law_a_day_has_one_number(found, date);
}

} // verus!
