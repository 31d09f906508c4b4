//! The proleptic Gregorian calendar over day numbers.
//!
//! A day number counts whole days from 1970-01-01, which is day 0. Days before
//! that date have negative numbers. Years are numbered astronomically, so the
//! year before year 1 is year 0, and it is a leap year.

use vstd::arithmetic::div_mod::{lemma_fundamental_div_mod, lemma_fundamental_div_mod_converse};
use vstd::prelude::*;

verus! {

/// The day number of 2001-01-01, the first day of a 400-year cycle.
pub const CYCLE_ORIGIN_DAY: i128 = 11323;

/// The first year of the 400-year cycle that `CYCLE_ORIGIN_DAY` starts.
pub const CYCLE_ORIGIN_YEAR: i128 = 2001;

/// The number of days in 400 consecutive years.
pub const DAYS_PER_CYCLE: i128 = 146097;

/// The number of days in a century that does not end in a leap year.
pub const DAYS_PER_CENTURY: i128 = 36524;

/// The number of days in four years of which exactly one is a leap year.
pub const DAYS_PER_OLYMPIAD: i128 = 1461;

/// The Gregorian rule: every fourth year is a leap year, except the century
/// years that 400 does not divide.
pub open spec fn is_leap_year(year: int) -> bool {
    (year % 4 == 0 && year % 100 != 0) || year % 400 == 0
}

/// The length of a year in days.
pub open spec fn days_in_year(year: int) -> int {
    if is_leap_year(year) {
        366
    } else {
        365
    }
}

/// The length of a month in days; 0 where `month` is not in 1..=12.
pub open spec fn days_in_month(year: int, month: int) -> int {
    if month == 2 {
        if is_leap_year(year) {
            29
        } else {
            28
        }
    } else if month == 4 || month == 6 || month == 9 || month == 11 {
        30
    } else if 1 <= month <= 12 {
        31
    } else {
        0
    }
}

/// The number of days of `year` that lie before the first day of `month`.
pub open spec fn days_before_month(year: int, month: int) -> int
    decreases month,
{
    if month <= 1 {
        0
    } else {
        days_before_month(year, month - 1) + days_in_month(year, month - 1)
    }
}

/// The number of leap years among the years 1, 2, ..., `year - 1`, counted
/// negatively for years before year 1.
pub open spec fn leap_years_before(year: int) -> int {
    (year - 1) / 4 - (year - 1) / 100 + (year - 1) / 400
}

/// The day number of the first of January of `year`.
pub open spec fn days_before_year(year: int) -> int {
    365 * (year - 1970) + leap_years_before(year) - leap_years_before(1970)
}

/// A calendar date as a specification value.
pub struct Date {
    pub year: int,
    pub month: int,
    pub day: int,
}

impl Date {
    /// The month is one of the twelve and the day exists in it.
    pub open spec fn valid(self) -> bool {
        &&& 1 <= self.month <= 12
        &&& 1 <= self.day <= days_in_month(self.year, self.month)
    }

    /// The number of days from 1970-01-01 to this date.
    pub open spec fn day_number(self) -> int {
        days_before_year(self.year) + days_before_month(self.year, self.month) + self.day - 1
    }
}

/// The date that has the given day number.
pub open spec fn date_of_day(day: int) -> Date {
    choose|date: Date| date.valid() && date.day_number() == day
}

/// A calendar date in machine integers.
#[derive(Clone, Copy, Debug, PartialEq, Eq)]
pub struct CivilDate {
    pub year: i64,
    pub month: u8,
    pub day: u8,
}

impl View for CivilDate {
    type V = Date;

    open spec fn view(&self) -> Date {
        Date { year: self.year as int, month: self.month as int, day: self.day as int }
    }
}

/// Year lengths add up: the first of January of the next year comes
/// `days_in_year` days after that of this year, and 1970 starts at day 0.
pub proof fn lemma_year_step(year: int)
    ensures
        days_before_year(1970) == 0,
        days_before_year(year + 1) == days_before_year(year) + days_in_year(year),
{
}

/// The first days of the years are in the order of the years, at least 365
/// days apart for each year between them.
pub proof fn lemma_years_ordered(earlier: int, later: int)
    requires
        earlier <= later,
    ensures
        days_before_year(later) - days_before_year(earlier) >= 365 * (later - earlier),
    decreases later - earlier,
{
    if earlier < later {
        lemma_years_ordered(earlier, later - 1);
        lemma_year_step(later - 1);
    }
}

/// The months of a year in numbers: how many days precede each of them.
pub proof fn lemma_days_before_month(year: int)
    ensures
        days_before_month(year, 1) == 0,
        days_before_month(year, 2) == 31,
        days_before_month(year, 3) == days_in_year(year) - 306,
        days_before_month(year, 4) == days_in_year(year) - 275,
        days_before_month(year, 5) == days_in_year(year) - 245,
        days_before_month(year, 6) == days_in_year(year) - 214,
        days_before_month(year, 7) == days_in_year(year) - 184,
        days_before_month(year, 8) == days_in_year(year) - 153,
        days_before_month(year, 9) == days_in_year(year) - 122,
        days_before_month(year, 10) == days_in_year(year) - 92,
        days_before_month(year, 11) == days_in_year(year) - 61,
        days_before_month(year, 12) == days_in_year(year) - 31,
        days_before_month(year, 13) == days_in_year(year),
{
    reveal_with_fuel(days_before_month, 14);
}

/// A valid date lies inside its year.
pub proof fn lemma_date_within_year(date: Date)
    requires
        date.valid(),
    ensures
        days_before_year(date.year) <= date.day_number() < days_before_year(date.year + 1),
{
    lemma_days_before_month(date.year);
    lemma_year_step(date.year);
}

/// No two valid dates share a day number.
pub proof fn lemma_day_number_injective(a: Date, b: Date)
    requires
        a.valid(),
        b.valid(),
        a.day_number() == b.day_number(),
    ensures
        a == b,
{
    lemma_date_within_year(a);
    lemma_date_within_year(b);
    if a.year < b.year {
        lemma_years_ordered(a.year + 1, b.year);
    } else if b.year < a.year {
        lemma_years_ordered(b.year + 1, a.year);
    }
    assert(a.year == b.year);
    lemma_days_before_month(a.year);
}

/// Later dates have larger day numbers.
pub proof fn law_later_dates_have_later_days(a: Date, b: Date)
    requires
        a.valid(),
        b.valid(),
        a.year < b.year || (a.year == b.year && (a.month < b.month || (a.month == b.month && a.day
            < b.day))),
    ensures
        a.day_number() < b.day_number(),
{
    lemma_date_within_year(a);
    lemma_date_within_year(b);
    if a.year < b.year {
        lemma_years_ordered(a.year + 1, b.year);
    } else {
        lemma_days_before_month(a.year);
    }
}

/// A valid date with day number `day` is the date of that day.
pub proof fn lemma_date_of_day(day: int, date: Date)
    requires
        date.valid(),
        date.day_number() == day,
    ensures
        date_of_day(day) == date,
{
    let chosen = date_of_day(day);
    assert(chosen.valid() && chosen.day_number() == day);
    lemma_day_number_injective(chosen, date);
}

/// Whether `year` is a leap year.
pub fn leap_year(year: i64) -> (leap: bool)
    ensures
        leap == is_leap_year(year as int),
{
    (year % 4 == 0 && year % 100 != 0) || year % 400 == 0
}

/// The length of `month` of `year` in days; 0 where `month` is not in
/// 1..=12.
pub fn month_length(year: i64, month: u8) -> (length: u8)
    ensures
        length == days_in_month(year as int, month as int),
{
    if month == 2 {
        if leap_year(year) {
            29
        } else {
            28
        }
    } else if month == 4 || month == 6 || month == 9 || month == 11 {
        30
    } else if 1 <= month && month <= 12 {
        31
    } else {
        0
    }
}

/// Floor division of `value` by a positive `divisor`, with the remainder
/// that is never negative.
pub fn floor_div_rem(value: i128, divisor: i128) -> (parts: (i128, i128))
    requires
        divisor > 0,
    ensures
        parts.0 == value as int / divisor as int,
        parts.1 == value as int % divisor as int,
        0 <= parts.1 < divisor,
{
    if value >= 0 {
        (value / divisor, value % divisor)
    } else {
        let below: i128 = -(value + 1);
        let quotient: i128 = below / divisor;
        let remainder: i128 = below % divisor;
        proof {
            lemma_floor_of_negative(value as int, divisor as int);
        }
        (-quotient - 1, divisor - 1 - remainder)
    }
}

/// Floor division of a negative number, from the division of the
/// non-negative number `-(value + 1)`.
pub proof fn lemma_floor_of_negative(value: int, divisor: int)
    requires
        value < 0,
        divisor > 0,
    ensures
        value / divisor == -((-(value + 1)) / divisor) - 1,
        value % divisor == divisor - 1 - (-(value + 1)) % divisor,
{
    let below = -(value + 1);
    let q = below / divisor;
    let r = below % divisor;
    lemma_fundamental_div_mod(below, divisor);
    assert(value == (-q - 1) * divisor + (divisor - 1 - r)) by (nonlinear_arith)
        requires
            below == divisor * q + r,
            below == -(value + 1),
    ;
    lemma_fundamental_div_mod_converse(
        value,
        divisor,
        -q - 1,
        divisor - 1 - r,
    );
}

/// Where the years of a 400-year cycle start. A cycle starts with a year
/// that leaves 1 when divided by 400, so its leap day comes last: three
/// centuries of 36524 days and one of 36525, each of them 24 groups of 1461
/// days and a last group, each group three years of 365 days and a last year.
pub proof fn lemma_year_start_in_cycle(cycles: int, centuries: int, olympiads: int, years: int)
    requires
        0 <= centuries <= 3,
        0 <= olympiads <= 24,
        0 <= years <= 3,
    ensures
        days_before_year(2001 + 400 * cycles + 100 * centuries + 4 * olympiads + years) == 11323
            + 146097 * cycles + 36524 * centuries + 1461 * olympiads + 365 * years,
        is_leap_year(2001 + 400 * cycles + 100 * centuries + 4 * olympiads + years) <==> (years
            == 3 && (olympiads < 24 || centuries == 3)),
{
    let year = 2001 + 400 * cycles + 100 * centuries + 4 * olympiads + years;
    let fours = 500 + 100 * cycles + 25 * centuries + olympiads;
    let hundreds = 20 + 4 * cycles + centuries;
    let four_hundreds = 5 + cycles;
    lemma_fundamental_div_mod_converse(year - 1, 4, fours, years);
    lemma_fundamental_div_mod_converse(year - 1, 100, hundreds, 4 * olympiads + years);
    lemma_fundamental_div_mod_converse(
        year - 1,
        400,
        four_hundreds,
        100 * centuries + 4 * olympiads + years,
    );
    lemma_fundamental_div_mod_converse(1969, 4, 492, 1);
    lemma_fundamental_div_mod_converse(1969, 100, 19, 69);
    lemma_fundamental_div_mod_converse(1969, 400, 4, 369);
    if years == 3 {
        lemma_fundamental_div_mod_converse(year, 4, fours + 1, 0);
    } else {
        lemma_fundamental_div_mod_converse(year, 4, fours, years + 1);
    }
    if years == 3 && olympiads == 24 {
        lemma_fundamental_div_mod_converse(year, 100, hundreds + 1, 0);
    } else {
        lemma_fundamental_div_mod_converse(year, 100, hundreds, 4 * olympiads + years + 1);
    }
    if years == 3 && olympiads == 24 && centuries == 3 {
        lemma_fundamental_div_mod_converse(year, 400, four_hundreds + 1, 0);
    } else {
        lemma_fundamental_div_mod_converse(
            year,
            400,
            four_hundreds,
            100 * centuries + 4 * olympiads + years + 1,
        );
    }
}

/// The date of the day with the given number.
pub fn civil_from_days(days: i64) -> (date: CivilDate)
    ensures
        date@.valid(),
        date@.day_number() == days,
        date@ == date_of_day(days as int),
{
    let shifted: i128 = days as i128 - CYCLE_ORIGIN_DAY;
    let (cycles, in_cycle) = floor_div_rem(shifted, DAYS_PER_CYCLE);
    let mut centuries: i128 = in_cycle / DAYS_PER_CENTURY;
    if centuries > 3 {
        centuries = 3;
    }
    let in_century: i128 = in_cycle - centuries * DAYS_PER_CENTURY;
    let mut olympiads: i128 = in_century / DAYS_PER_OLYMPIAD;
    if olympiads > 24 {
        olympiads = 24;
    }
    let in_olympiad: i128 = in_century - olympiads * DAYS_PER_OLYMPIAD;
    let mut years: i128 = in_olympiad / 365;
    if years > 3 {
        years = 3;
    }
    let day_of_year: i128 = in_olympiad - years * 365;
    let year: i64 = (CYCLE_ORIGIN_YEAR + 400 * cycles + 100 * centuries + 4 * olympiads
        + years) as i64;
    proof {
        lemma_year_start_in_cycle(cycles as int, centuries as int, olympiads as int, years as int);
        lemma_days_before_month(year as int);
    }
    assert(days_before_year(year as int) + day_of_year == days);
    assert(0 <= day_of_year < days_in_year(year as int));
    let mut month: u8 = 1;
    let mut rest: i128 = day_of_year;
    while rest >= month_length(year, month) as i128
        invariant
            1 <= month <= 12,
            0 <= rest,
            days_before_month(year as int, month as int) + rest == day_of_year,
            day_of_year < days_in_year(year as int),
        decreases 12 - month,
    {
        proof {
            lemma_days_before_month(year as int);
        }
        rest = rest - month_length(year, month) as i128;
        month = month + 1;
    }
    let date = CivilDate { year, month, day: (rest + 1) as u8 };
    proof {
        lemma_date_of_day(days as int, date@);
    }
    date
}

/// Every day has a date, and by `lemma_day_number_injective` only one.
pub proof fn lemma_every_day_has_a_date(day: int)
    ensures
        date_of_day(day).valid(),
        date_of_day(day).day_number() == day,
{
    let shifted = day - 11323;
    let cycles = shifted / 146097;
    let in_cycle = shifted % 146097;
    let centuries = if in_cycle / 36524 > 3 {
        3
    } else {
        in_cycle / 36524
    };
    let in_century = in_cycle - centuries * 36524;
    let olympiads = if in_century / 1461 > 24 {
        24
    } else {
        in_century / 1461
    };
    let in_olympiad = in_century - olympiads * 1461;
    let years = if in_olympiad / 365 > 3 {
        3
    } else {
        in_olympiad / 365
    };
    let day_of_year = in_olympiad - years * 365;
    let year = 2001 + 400 * cycles + 100 * centuries + 4 * olympiads + years;
    lemma_year_start_in_cycle(cycles, centuries, olympiads, years);
    lemma_days_before_month(year);
    assert(days_before_year(year) + day_of_year == day);
    assert(0 <= day_of_year < days_in_year(year));
    let month: int = if day_of_year < days_before_month(year, 2) {
        1
    } else if day_of_year < days_before_month(year, 3) {
        2
    } else if day_of_year < days_before_month(year, 4) {
        3
    } else if day_of_year < days_before_month(year, 5) {
        4
    } else if day_of_year < days_before_month(year, 6) {
        5
    } else if day_of_year < days_before_month(year, 7) {
        6
    } else if day_of_year < days_before_month(year, 8) {
        7
    } else if day_of_year < days_before_month(year, 9) {
        8
    } else if day_of_year < days_before_month(year, 10) {
        9
    } else if day_of_year < days_before_month(year, 11) {
        10
    } else if day_of_year < days_before_month(year, 12) {
        11
    } else {
        12
    };
    let date = Date { year, month, day: day_of_year - days_before_month(year, month) + 1 };
    assert(date.valid());
    assert(date.day_number() == day);
}

/// The date of a day lies in the year in which the day lies.
pub proof fn lemma_year_of_day(day: int, year: int)
    requires
        days_before_year(year) <= day < days_before_year(year + 1),
    ensures
        date_of_day(day).year == year,
{
    let date = date_of_day(day);
    lemma_every_day_has_a_date(day);
    lemma_date_within_year(date);
    if date.year < year {
        lemma_years_ordered(date.year + 1, year);
    } else if year < date.year {
        lemma_years_ordered(year + 1, date.year);
    }
}

/// The dates of the days come in the order of the days: a later day never
/// has an earlier year.
pub proof fn lemma_years_follow_days(earlier: int, later: int)
    requires
        earlier <= later,
    ensures
        date_of_day(earlier).year <= date_of_day(later).year,
{
    let a = date_of_day(earlier);
    let b = date_of_day(later);
    lemma_every_day_has_a_date(earlier);
    lemma_every_day_has_a_date(later);
    lemma_date_within_year(a);
    lemma_date_within_year(b);
    if b.year < a.year {
        lemma_years_ordered(b.year + 1, a.year);
    }
}

} // verus!
