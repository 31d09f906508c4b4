//! The header of an entry: an instant as calendar date and time of day.
//!
//! An instant is a count of seconds from the first of January 1970, 00:00,
//! in universal time; instants before it are negative. The text has minute
//! precision: seconds are dropped, not rounded. Date and time are those of
//! universal time, and the text does not name the zone.

use crate::calendar::{
    civil_from_days,
    date_of_day,
    floor_div_rem,
    lemma_every_day_has_a_date,
    lemma_year_of_day,
    lemma_years_follow_days,
    Date,
};
use crate::text::{lemma_four_digits, lemma_two_digits, padded_decimal, push_padded_decimal};
use vstd::prelude::*;
use vstd::string::*;

verus! {

/// The number of seconds in a day.
pub const SECONDS_PER_DAY: i128 = 86400;

/// The day number of the day that the instant falls on.
pub open spec fn day_of_instant(unix_secs: int) -> int {
    unix_secs / 86400
}

/// The hour of the day that the instant falls in, from 0 to 23.
pub open spec fn hour_of_instant(unix_secs: int) -> int {
    (unix_secs % 86400) / 3600
}

/// The minute of the hour that the instant falls in, from 0 to 59.
pub open spec fn minute_of_instant(unix_secs: int) -> int {
    ((unix_secs % 86400) % 3600) / 60
}

/// A date and a time of day as text: year, month and day with hyphens
/// between them, a space, and hour and minute with a colon between them.
/// The year has at least four places, the other numbers have two. Nothing
/// follows the minute.
pub open spec fn date_time_text(date: Date, hour: int, minute: int) -> Seq<char> {
    padded_decimal(date.year, 4) + seq!['-'] + padded_decimal(date.month, 2) + seq!['-']
        + padded_decimal(date.day, 2) + seq![' '] + padded_decimal(hour, 2) + seq![':']
        + padded_decimal(minute, 2)
}

/// The text of an instant.
pub open spec fn timestamp_text(unix_secs: int) -> Seq<char> {
    date_time_text(
        date_of_day(day_of_instant(unix_secs)),
        hour_of_instant(unix_secs),
        minute_of_instant(unix_secs),
    )
}

/// The text of an instant: `YYYY-MM-DD HH:MM`.
pub fn format_timestamp(unix_secs: i64) -> (text: String)
    ensures
        text@ == timestamp_text(unix_secs as int),
{
    let (day, second_of_day) = floor_div_rem(unix_secs as i128, SECONDS_PER_DAY);
    let date = civil_from_days(day as i64);
    let hour: i64 = (second_of_day / 3600) as i64;
    let minute: i64 = ((second_of_day % 3600) / 60) as i64;
    let mut text = String::new();
    push_padded_decimal(&mut text, date.year, 4);
    proof {
        reveal_strlit("-");
        reveal_strlit(" ");
        reveal_strlit(":");
    }
    text.append("-");
    push_padded_decimal(&mut text, date.month as i64, 2);
    text.append("-");
    push_padded_decimal(&mut text, date.day as i64, 2);
    text.append(" ");
    push_padded_decimal(&mut text, hour, 2);
    text.append(":");
    push_padded_decimal(&mut text, minute, 2);
    assert(text@ =~= date_time_text(date@, hour as int, minute as int)) by {
        assert("-"@ =~= seq!['-']);
        assert(" "@ =~= seq![' ']);
        assert(":"@ =~= seq![':']);
    }
    text
}

/// The instant of a clock reading, given as the time between the reading
/// and the epoch in whole seconds and nanoseconds of a second, and the side
/// of the epoch on which the reading lies. The instant is the last whole
/// second that is not after the reading, also before the epoch.
pub open spec fn clock_instant(before_epoch: bool, seconds: int, nanos: int) -> int {
    if !before_epoch {
        seconds
    } else if nanos > 0 {
        -seconds - 1
    } else {
        -seconds
    }
}

/// The number in the range of `i64` that is nearest to `value`.
pub open spec fn nearest_i64(value: int) -> int {
    if value < i64::MIN {
        i64::MIN as int
    } else if value > i64::MAX {
        i64::MAX as int
    } else {
        value
    }
}

/// The instant of a clock reading, held to the range of `i64`.
pub fn instant_from_clock(before_epoch: bool, seconds: u64, nanos: u32) -> (unix_secs: i64)
    ensures
        unix_secs == nearest_i64(clock_instant(before_epoch, seconds as int, nanos as int)),
{
    let whole: i128 = seconds as i128;
    let instant: i128 = if !before_epoch {
        whole
    } else if nanos > 0 {
        -whole - 1
    } else {
        -whole
    };
    if instant < i64::MIN as i128 {
        i64::MIN
    } else if instant > i64::MAX as i128 {
        i64::MAX
    } else {
        instant as i64
    }
}

/// The first instant of the year 0.
pub open spec fn first_four_digit_instant() -> int {
    -62167219200
}

/// The first instant of the year 10000.
pub open spec fn first_five_digit_instant() -> int {
    253402300800
}

/// The hour is below 24 and the minute below 60, before the epoch as after
/// it.
pub proof fn law_time_of_day_in_range(unix_secs: int)
    ensures
        0 <= hour_of_instant(unix_secs) < 24,
        0 <= minute_of_instant(unix_secs) < 60,
{
}

/// The text has a fixed width: from the year 0 to the year 9999 it has
/// sixteen characters, of which the fifth and the eighth are hyphens, the
/// eleventh is a space and the fourteenth is a colon.
pub proof fn law_timestamp_has_fixed_width(unix_secs: int)
    requires
        first_four_digit_instant() <= unix_secs < first_five_digit_instant(),
    ensures
        0 <= date_of_day(day_of_instant(unix_secs)).year <= 9999,
        timestamp_text(unix_secs).len() == 16,
        timestamp_text(unix_secs)[4] == '-',
        timestamp_text(unix_secs)[7] == '-',
        timestamp_text(unix_secs)[10] == ' ',
        timestamp_text(unix_secs)[13] == ':',
{
    let day = day_of_instant(unix_secs);
    let date = date_of_day(day);
    lemma_every_day_has_a_date(day);
    lemma_year_of_day(-719528, 0);
    lemma_year_of_day(2932896, 9999);
    lemma_years_follow_days(-719528, day);
    lemma_years_follow_days(day, 2932896);
    lemma_four_digits(date.year);
    lemma_two_digits(date.month);
    lemma_two_digits(date.day);
    lemma_two_digits(hour_of_instant(unix_secs));
    lemma_two_digits(minute_of_instant(unix_secs));
}

} // verus!
