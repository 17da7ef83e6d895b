//! Points in time as calendar dates.
//!
//! A point in time is a number of seconds since the start of 1 January 1970,
//! universal time, leap seconds not counted. It is shown as a date of the
//! Gregorian calendar and a time of day.

use crate::number::decimal_text;
use crate::number::push_decimal;
use crate::number::push_two_digits;
use crate::number::two_digits;
use crate::text::TextBuilder;
use vstd::prelude::*;

verus! {

/// The seconds of a day.
pub const SECONDS_PER_DAY: u64 = 86400;

/// The days of four hundred years in a row.
pub const DAYS_PER_CYCLE: u64 = 146097;

/// The year in which day 0 lies.
pub const EPOCH_YEAR: u64 = 1970;

/// A date of the Gregorian calendar.
#[derive(Clone, Copy, Debug, PartialEq, Eq, Structural)]
pub struct CivilDate {
    pub year: u64,
    pub month: u8,
    pub day: u8,
}

/// Whether a year has a 29 February.
pub open spec fn is_leap_year(year: int) -> bool {
    year % 4 == 0 && (year % 100 != 0 || year % 400 == 0)
}

/// The number of days of a year.
pub open spec fn year_length(year: int) -> int {
    if is_leap_year(year) {
        366
    } else {
        365
    }
}

/// The number of days of a month of a year.
pub open spec fn month_length(year: int, month: int) -> int {
    if month == 2 {
        if is_leap_year(year) {
            29
        } else {
            28
        }
    } else if month == 4 || month == 6 || month == 9 || month == 11 {
        30
    } else {
        31
    }
}

/// The number of days from 1 January 1970 to 1 January of a year.
pub open spec fn days_before_year(year: int) -> int
    decreases year,
{
    if year <= 1970 {
        0
    } else {
        days_before_year(year - 1) + year_length(year - 1)
    }
}

/// The number of days from 1 January of a year to the first of a month.
pub open spec fn days_before_month(year: int, month: int) -> int
    decreases month,
{
    if month <= 1 {
        0
    } else {
        days_before_month(year, month - 1) + month_length(year, month - 1)
    }
}

impl CivilDate {
    /// A date that exists, in 1970 or later.
    pub open spec fn valid(self) -> bool {
        &&& self.year >= 1970
        &&& 1 <= self.month <= 12
        &&& 1 <= self.day <= month_length(self.year as int, self.month as int)
    }

    /// The number of days from 1 January 1970 to this date.
    pub open spec fn day_number(self) -> int {
        days_before_year(self.year as int) + days_before_month(
            self.year as int,
            self.month as int,
        ) + self.day - 1
    }
}

/// The date that lies a number of days after 1 January 1970.
pub open spec fn date_of_day(days: nat) -> CivilDate {
    choose|date: CivilDate| date.valid() && date.day_number() == days
}

/// A point in time as text: the date as year, month and day, a space, and
/// the time of day as hours, minutes and seconds.
pub open spec fn timestamp_text(secs: nat) -> Seq<char> {
    let date = date_of_day(secs / 86400);
    let time = secs % 86400;
    decimal_text(date.year as nat) + seq!['-'] + two_digits(date.month as nat) + seq!['-']
        + two_digits(date.day as nat) + seq![' '] + two_digits(time / 3600) + seq![':']
        + two_digits((time % 3600) / 60) + seq![':'] + two_digits(time % 60)
}

/// The number of leap years from year 1 through a year.
pub open spec fn leap_years_through(year: int) -> int {
    year / 4 - year / 100 + year / 400
}

/// The days before a year, counted without going through the years one by
/// one.
pub proof fn lemma_days_before_year(year: int)
    requires
        year >= 1970,
    ensures
        days_before_year(year) == 365 * (year - 1970) + leap_years_through(year - 1) - 477,
    decreases year,
{
    if year > 1970 {
        lemma_days_before_year(year - 1);
        let y = year - 1;
        assert(leap_years_through(y) - leap_years_through(y - 1) == if is_leap_year(y) {
            1int
        } else {
            0int
        });
    }
}

/// Later years start later.
pub proof fn lemma_year_starts_grow(earlier: int, later: int)
    requires
        1970 <= earlier <= later,
    ensures
        days_before_year(earlier) <= days_before_year(later),
    decreases later,
{
    if earlier < later {
        lemma_year_starts_grow(earlier, later - 1);
    }
}

/// Later months start later.
pub proof fn lemma_month_starts_grow(year: int, earlier: int, later: int)
    requires
        1 <= earlier <= later,
    ensures
        days_before_month(year, earlier) <= days_before_month(year, later),
    decreases later,
{
    if earlier < later {
        lemma_month_starts_grow(year, earlier, later - 1);
    }
}

/// The twelve months of a year make up the year.
pub proof fn lemma_months_fill_year(year: int)
    ensures
        days_before_month(year, 13) == year_length(year),
{
    reveal_with_fuel(days_before_month, 14);
}

/// A date lies within its year.
pub proof fn lemma_date_within_year(date: CivilDate)
    requires
        date.valid(),
    ensures
        days_before_year(date.year as int) <= date.day_number() < days_before_year(
            date.year as int + 1,
        ),
{
    let y = date.year as int;
    lemma_month_starts_grow(y, 1, date.month as int);
    lemma_month_starts_grow(y, date.month as int + 1, 13);
    lemma_months_fill_year(y);
}

/// No two dates lie the same number of days after 1 January 1970.
pub proof fn lemma_date_unique(a: CivilDate, b: CivilDate)
    requires
        a.valid(),
        b.valid(),
        a.day_number() == b.day_number(),
    ensures
        a == b,
{
    lemma_date_within_year(a);
    lemma_date_within_year(b);
    if a.year < b.year {
        lemma_year_starts_grow(a.year as int + 1, b.year as int);
    }
    if b.year < a.year {
        lemma_year_starts_grow(b.year as int + 1, a.year as int);
    }
    assert(a.year == b.year);
    let y = a.year as int;
    if a.month < b.month {
        lemma_month_starts_grow(y, a.month as int + 1, b.month as int);
    }
    if b.month < a.month {
        lemma_month_starts_grow(y, b.month as int + 1, a.month as int);
    }
}

/// Whether a year has a 29 February.
pub fn leap_year(year: u64) -> (leap: bool)
    ensures
        leap == is_leap_year(year as int),
{
    year % 4 == 0 && (year % 100 != 0 || year % 400 == 0)
}

/// The number of days of a year.
pub fn days_in_year(year: u64) -> (days: u64)
    ensures
        days == year_length(year as int),
{
    if leap_year(year) {
        366
    } else {
        365
    }
}

/// The number of days of a month of a year.
pub fn days_in_month(year: u64, month: u8) -> (days: u8)
    ensures
        days == month_length(year as int, month as int),
{
    if month == 2 {
        if leap_year(year) {
            29
        } else {
            28
        }
    } else if month == 4 || month == 6 || month == 9 || month == 11 {
        30
    } else {
        31
    }
}

/// The date that lies `days` days after 1 January 1970.
pub fn civil_from_days(days: u64) -> (date: CivilDate)
    ensures
        date.valid(),
        date.day_number() == days,
        date == date_of_day(days as nat),
{
    let cycles: u64 = days / DAYS_PER_CYCLE;
    let mut rest: u64 = days % DAYS_PER_CYCLE;
    let mut year: u64 = EPOCH_YEAR + 400 * cycles;
    proof {
        lemma_days_before_year(year as int);
        assert(days_before_year(year as int) == 146097 * cycles);
    }
    while rest >= days_in_year(year)
        invariant
            year >= 1970,
            days_before_year(year as int) + rest == days,
            year + rest <= 1970 + 400 * cycles + 146097,
            cycles <= u64::MAX / 146097,
        decreases rest,
    {
        rest = rest - days_in_year(year);
        year = year + 1;
    }
    let ghost day_of_year = rest as int;
    let mut month: u8 = 1;
    while rest >= days_in_month(year, month) as u64
        invariant
            1 <= month <= 12,
            0 <= rest,
            days_before_month(year as int, month as int) + rest == day_of_year,
            day_of_year < year_length(year as int),
        decreases rest,
    {
        proof {
            lemma_months_fill_year(year as int);
            lemma_month_starts_grow(year as int, month as int + 1, 13);
        }
        rest = rest - days_in_month(year, month) as u64;
        month = month + 1;
    }
    let date = CivilDate { year, month, day: (rest + 1) as u8 };
    proof {
        let chosen = date_of_day(days as nat);
        assert(date.valid() && date.day_number() == days);
        lemma_date_unique(date, chosen);
    }
    date
}

/// Appends a point in time as text.
pub fn push_timestamp(out: &mut TextBuilder, secs: u64)
    requires
        old(out).wf(),
    ensures
        final(out).wf(),
        final(out)@ == old(out)@ + timestamp_text(secs as nat),
{
    let date = civil_from_days(secs / SECONDS_PER_DAY);
    let time: u64 = secs % SECONDS_PER_DAY;
    proof {
        reveal_strlit("-");
        reveal_strlit(" ");
        reveal_strlit(":");
        assert("-"@ =~= seq!['-']);
        assert(" "@ =~= seq![' ']);
        assert(":"@ =~= seq![':']);
    }
    push_decimal(out, date.year);
    out.push_str("-");
    push_two_digits(out, date.month);
    out.push_str("-");
    push_two_digits(out, date.day);
    out.push_str(" ");
    push_two_digits(out, (time / 3600) as u8);
    out.push_str(":");
    push_two_digits(out, ((time % 3600) / 60) as u8);
    out.push_str(":");
    push_two_digits(out, (time % 60) as u8);
    assert(out@ =~= old(out)@ + timestamp_text(secs as nat));
}

/// A point in time as text.
pub fn format_timestamp(secs: u64) -> (s: String)
    ensures
        s@ == timestamp_text(secs as nat),
{
    let mut out = TextBuilder::new();
    push_timestamp(&mut out, secs);
    assert(out@ =~= timestamp_text(secs as nat));
    out.finish()
}

} // verus!
