//! Days of the proleptic Gregorian calendar, by number.
//!
//! Day 1 is 1 January of the year 1, a Monday; the days before it have the
//! numbers 0, -1 and so on. What the calendar says of a day (its place in the
//! week, its ISO week, how it is written) is asked of the `chrono` crate.

use chrono::{Datelike, NaiveDate};
use vstd::prelude::*;

verus! {

/// The number of the first day that the calendar holds: 1 January -262143.
pub const FIRST_DAY: i32 = -95_746_129;

/// The number of the last day that the calendar holds: 31 December 262142.
pub const LAST_DAY: i32 = 95_745_399;

/// The calendar holds the day `number`.
pub open spec fn in_calendar(number: int) -> bool {
    FIRST_DAY <= number <= LAST_DAY
}

/// The place of day `number` in its week: 0 for Monday, up to 6 for Sunday.
pub open spec fn weekday(number: int) -> int {
    (number - 1) % 7
}

/// The ISO 8601 week number of day `number`: what `chrono` gives for it.
pub uninterp spec fn iso_week_of(number: int) -> int;

/// Day `number` written as `YY-MM-DD`: what `chrono` gives for it.
pub uninterp spec fn label_of(number: int) -> Seq<char>;

/// Calls `chrono`: `Datelike::weekday` of the `NaiveDate` that
/// `NaiveDate::from_num_days_from_ce_opt` makes of `number`, then
/// `Weekday::num_days_from_monday`.
///
/// Taken on trust: a day of the calendar has a date, so that nothing panics;
/// the result counts the days since Monday, 0 for a Monday up to 6 for a
/// Sunday; and it is `number - 1` modulo 7, because `chrono` counts the days
/// of the proleptic Gregorian calendar without a gap and day 1, 1 January of
/// the year 1, is a Monday.
#[verifier::external_body]
fn chrono_days_from_monday(number: i32) -> (days: u32)
    requires
        in_calendar(number as int),
    ensures
        days == weekday(number as int),
{
    NaiveDate::from_num_days_from_ce_opt(number).unwrap().weekday().num_days_from_monday()
}

/// Calls `chrono`: `Datelike::iso_week` of the `NaiveDate` that
/// `NaiveDate::from_num_days_from_ce_opt` makes of `number`, then
/// `IsoWeek::week`.
///
/// Taken on trust: a day of the calendar has a date, so that nothing panics;
/// the week number depends on the day alone; and it lies between 1 and 53.
#[verifier::external_body]
fn chrono_iso_week(number: i32) -> (week: u32)
    requires
        in_calendar(number as int),
    ensures
        week == iso_week_of(number as int),
        1 <= week <= 53,
{
    NaiveDate::from_num_days_from_ce_opt(number).unwrap().iso_week().week()
}

/// Calls `chrono`: `NaiveDate::format` with the pattern `%y-%m-%d` on the
/// `NaiveDate` that `NaiveDate::from_num_days_from_ce_opt` makes of
/// `number`, written out with `to_string`.
///
/// Taken on trust: a day of the calendar has a date and the pattern is one
/// that `chrono` accepts, so that nothing panics; and the text depends on
/// the day alone.
#[verifier::external_body]
fn chrono_label(number: i32) -> (text: String)
    requires
        in_calendar(number as int),
    ensures
        text@ == label_of(number as int),
{
    NaiveDate::from_num_days_from_ce_opt(number).unwrap().format("%y-%m-%d").to_string()
}

/// A day that the calendar holds.
#[derive(Clone, Copy, Debug, PartialEq, Eq, Structural)]
pub struct Day {
    number: i32,
}

impl View for Day {
    type V = int;

    /// The day's number.
    closed spec fn view(&self) -> int {
        self.number as int
    }
}

impl Day {
    #[verifier::type_invariant]
    spec fn held(self) -> bool {
        in_calendar(self.number as int)
    }

    /// The day `number`, where the calendar holds it.
    pub fn new(number: i32) -> (day: Option<Day>)
        ensures
            match day {
                Some(d) => in_calendar(number as int) && d@ == number,
                None => !in_calendar(number as int),
            },
    {
        if FIRST_DAY <= number && number <= LAST_DAY {
            Some(Day { number })
        } else {
            None
        }
    }

    /// The day's number.
    pub fn number(&self) -> (number: i32)
        ensures
            number == self@,
            in_calendar(self@),
    {
        proof {
            use_type_invariant(self);
        }
        self.number
    }

    /// The day's place in its week: 0 for Monday, up to 6 for Sunday.
    pub fn weekday(&self) -> (days: u32)
        ensures
            days == weekday(self@),
    {
        proof {
            use_type_invariant(self);
        }
        chrono_days_from_monday(self.number)
    }

    /// The day's ISO 8601 week number.
    pub fn iso_week(&self) -> (week: u32)
        ensures
            week == iso_week_of(self@),
            1 <= week <= 53,
    {
        proof {
            use_type_invariant(self);
        }
        chrono_iso_week(self.number)
    }

    /// The day written as `YY-MM-DD`.
    pub fn label(&self) -> (text: String)
        ensures
            text@ == label_of(self@),
    {
        proof {
            use_type_invariant(self);
        }
        chrono_label(self.number)
    }
}

} // verus!
