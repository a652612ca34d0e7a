//! The week axis: the Mondays of a window of weeks.
//!
//! The window begins with the week of an anchor day and has fewer weeks the
//! later in its ISO year that week lies: `52 + (52 - w)` for ISO week `w`.

use crate::calendar::{in_calendar, iso_week_of, label_of, weekday, Day, FIRST_DAY, LAST_DAY};
use vstd::prelude::*;

verus! {

/// The number of the Monday of the week that day `number` lies in.
pub open spec fn monday_of(number: int) -> int {
    number - weekday(number)
}

/// The number of weeks of a window whose first week has the ISO number
/// `iso_week`.
pub open spec fn weeks_shown(iso_week: int) -> int {
    52 + (52 - iso_week)
}

/// The number of weeks of the window of `anchor`.
pub open spec fn window_len(anchor: int) -> int {
    weeks_shown(iso_week_of(monday_of(anchor)))
}

/// The number of the day on which week `i` of the window of `anchor` starts.
pub open spec fn week_start(anchor: int, i: int) -> int {
    monday_of(anchor) + 7 * i
}

/// The calendar holds the first and the last week start of the window of
/// `anchor`, and so all of them.
pub open spec fn window_in_calendar(anchor: int) -> bool {
    in_calendar(monday_of(anchor)) && in_calendar(week_start(anchor, window_len(anchor) - 1))
}

/// `labels` are the week starts of the window of `anchor`, written out, and
/// the window has between 51 and 103 weeks.
pub open spec fn is_week_axis(labels: Seq<String>, anchor: int) -> bool {
    &&& labels.len() == 52 + (52 - iso_week_of(monday_of(anchor)))
    &&& 51 <= labels.len() <= 103
    &&& forall|i: int|
        0 <= i < labels.len() ==> (#[trigger] labels[i])@ == label_of(week_start(anchor, i))
}

/// The first week of a window starts on the Monday of the anchor's week,
/// which is the anchor or one of the six days before it. Every week of the
/// window starts on a Monday, seven days after the week before it.
pub proof fn lemma_weeks_start_on_mondays(anchor: int, i: int)
    ensures
        week_start(anchor, 0) == monday_of(anchor),
        anchor - 6 <= monday_of(anchor) <= anchor,
        weekday(week_start(anchor, i)) == 0,
        week_start(anchor, i + 1) == week_start(anchor, i) + 7,
        monday_of(week_start(anchor, i)) == week_start(anchor, i),
{
}

/// Every label of a week axis writes a Monday, and every label but the
/// first writes the day seven days after the one that the label before it
/// writes.
pub proof fn lemma_week_axis_steps_by_weeks(labels: Seq<String>, anchor: int, i: int)
    requires
        is_week_axis(labels, anchor),
        0 <= i < labels.len(),
    ensures
        exists|day: int|
            {
                &&& labels[i]@ == #[trigger] label_of(day)
                &&& weekday(day) == 0
                &&& i == 0 ==> day == monday_of(anchor)
                &&& i > 0 ==> labels[i - 1]@ == label_of(day - 7)
            },
{
    lemma_weeks_start_on_mondays(anchor, i);
    let day = week_start(anchor, i);
    assert(labels[i]@ == label_of(day));
    if i > 0 {
        assert(labels[i - 1]@ == label_of(week_start(anchor, i - 1)));
    }
}

/// The Monday of the week of `data`.
pub fn primo_giorno_settimana_corrente(data: &Day) -> (monday: Day)
    requires
        in_calendar(monday_of(data@)),
    ensures
        monday@ == monday_of(data@),
{
    let back = data.weekday();
    match Day::new(data.number() - back as i32) {
        Some(monday) => monday,
        None => vstd::pervasive::unreached(),
    }
}

/// The Monday of the week of `data`, or `None` where the calendar begins
/// after it.
pub fn checked_monday(data: &Day) -> (monday: Option<Day>)
    ensures
        match monday {
            Some(m) => in_calendar(monday_of(data@)) && m@ == monday_of(data@),
            None => !in_calendar(monday_of(data@)),
        },
{
    let back = data.weekday();
    if data.number() - back as i32 >= FIRST_DAY {
        Some(primo_giorno_settimana_corrente(data))
    } else {
        None
    }
}

/// The number of weeks of a window whose first week has the ISO number
/// `iso_week`.
pub fn weeks_in_window(iso_week: u32) -> (weeks: usize)
    requires
        1 <= iso_week <= 53,
    ensures
        weeks == weeks_shown(iso_week as int),
{
    (104 - iso_week) as usize
}

/// The starts of the weeks of a window: `monday` first, then every seventh
/// day after it, as many as a window has whose first week has the ISO number
/// `iso_week`.
pub fn week_starts(monday: &Day, iso_week: u32) -> (starts: Vec<Day>)
    requires
        1 <= iso_week <= 53,
        in_calendar(monday@ + 7 * (weeks_shown(iso_week as int) - 1)),
    ensures
        starts@.len() == weeks_shown(iso_week as int),
        forall|i: int| 0 <= i < starts@.len() ==> (#[trigger] starts@[i])@ == monday@ + 7 * i,
{
    let weeks = weeks_in_window(iso_week);
    let first = monday.number();
    let mut starts: Vec<Day> = Vec::new();
    let mut i: usize = 0;
    while i < weeks
        invariant
            i <= weeks,
            51 <= weeks <= 103,
            first == monday@,
            in_calendar(first as int),
            in_calendar(first + 7 * (weeks - 1)),
            starts@.len() == i,
            forall|j: int| 0 <= j < i ==> (#[trigger] starts@[j])@ == first + 7 * j,
        decreases weeks - i,
    {
        match Day::new(first + 7 * (i as i32)) {
            Some(start) => starts.push(start),
            None => vstd::pervasive::unreached(),
        }
        i += 1;
    }
    starts
}

/// The week axis of `start_date`: the Mondays of its window of weeks, each
/// written as `YY-MM-DD`, the earliest first.
pub fn dates(start_date: &Day) -> (labels: Vec<String>)
    requires
        window_in_calendar(start_date@),
    ensures
        is_week_axis(labels@, start_date@),
{
    let monday = primo_giorno_settimana_corrente(start_date);
    let starts = week_starts(&monday, monday.iso_week());
    let mut labels: Vec<String> = Vec::new();
    let mut i: usize = 0;
    while i < starts.len()
        invariant
            i <= starts.len(),
            labels@.len() == i,
            forall|j: int|
                0 <= j < starts@.len() ==> (#[trigger] starts@[j])@ == week_start(
                    start_date@,
                    j,
                ),
            forall|j: int|
                0 <= j < i ==> (#[trigger] labels@[j])@ == label_of(week_start(start_date@, j)),
        decreases starts.len() - i,
    {
        labels.push(starts[i].label());
        i += 1;
    }
    labels
}

/// The week axis of `start_date`, or `None` where the calendar does not hold
/// its whole window.
pub fn checked_dates(start_date: &Day) -> (labels: Option<Vec<String>>)
    ensures
        match labels {
            Some(l) => window_in_calendar(start_date@) && is_week_axis(l@, start_date@),
            None => !window_in_calendar(start_date@),
        },
{
    match checked_monday(start_date) {
        None => None,
        Some(monday) => {
            let weeks = weeks_in_window(monday.iso_week());
            if monday.number() as i64 + 7 * (weeks as i64 - 1) <= LAST_DAY as i64 {
                Some(dates(start_date))
            } else {
                None
            }
        },
    }
}

} // verus!
