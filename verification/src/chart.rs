//! What the chart shows: the effort of each developer, and the project as a
//! whole with its week axis.
//!
//! These are plain values. They are free to change once they are made, so
//! what holds of them is said of the functions that make them.

use crate::calendar::{label_of, Day};
use crate::effort::{
    are_partial_efforts, entry_count, get_max_height, get_worker_efforts_model, is_max_height,
    partial_efforts_fit, partial_efforts_from, rows_of,
};
use crate::weeks::{checked_dates, checked_monday, is_week_axis, monday_of, window_in_calendar};
use vstd::prelude::*;

verus! {

/// How many days before today the week axis is anchored.
pub const AXIS_LEAD: i32 = 30;

/// A colour, by its red, green and blue parts.
#[derive(Clone, Copy, Debug, PartialEq, Eq, Structural)]
pub struct Rgb {
    pub red: u8,
    pub green: u8,
    pub blue: u8,
}

/// The effort of one developer.
#[derive(Clone, Debug, PartialEq, Eq)]
pub struct DevEffort {
    /// The rows, as they are shown.
    pub worker_efforts: Vec<String>,
    /// The running total after each row.
    pub partial_efforts: Vec<i32>,
    /// The number of entries of the tallest row, and one more.
    pub max_height: i32,
    /// The effort that the developer is planned for.
    pub effort: i32,
    /// The colour behind the rows.
    pub background_color: Rgb,
}

/// The project: the root of what is shown.
#[derive(Clone, Debug, PartialEq, Eq)]
pub struct PjmDatas {
    pub project_name: String,
    /// The Monday of the week of today, written out.
    pub current_week: String,
    /// The week axis.
    pub current_dates: Vec<String>,
    /// The developers, in the order in which they are shown.
    pub dev_efforts: Vec<DevEffort>,
}

/// The running totals of `rows` fit in an `i32`, and so does the height of
/// each row with one line more.
pub open spec fn dev_effort_fits(rows: Seq<Seq<char>>) -> bool {
    &&& partial_efforts_fit(0, rows)
    &&& forall|i: int| 0 <= i < rows.len() ==> entry_count(#[trigger] rows[i]) < i32::MAX
}

impl DevEffort {
    /// The texts of the rows.
    pub open spec fn rows(self) -> Seq<Seq<char>> {
        self.worker_efforts@.map_values(|row: String| row@)
    }

    /// The totals and the height are those of the rows: the totals run
    /// from 0, and the height is one more than that of the tallest row.
    pub open spec fn matches_rows(self) -> bool {
        &&& are_partial_efforts(self.partial_efforts@, 0, self.rows())
        &&& is_max_height(self.max_height - 1, self.rows())
    }

    /// The effort of a developer with the rows `worker_efforts`, or `None`
    /// where a total or the height cannot be held in an `i32`.
    pub fn new(worker_efforts: &Vec<&str>, effort: i32, background_color: Rgb) -> (made: Option<
        DevEffort,
    >)
        ensures
            match made {
                Some(dev) => {
                    &&& dev_effort_fits(rows_of(worker_efforts@))
                    &&& dev.rows() == rows_of(worker_efforts@)
                    &&& dev.matches_rows()
                    &&& dev.effort == effort
                    &&& dev.background_color == background_color
                },
                None => !dev_effort_fits(rows_of(worker_efforts@)),
            },
    {
        let height = get_max_height(worker_efforts);
        if height >= i32::MAX as usize {
            return None;
        }
        match partial_efforts_from(0, worker_efforts) {
            None => None,
            Some(totals) => {
                let shown = get_worker_efforts_model(worker_efforts);
                let dev = DevEffort {
                    worker_efforts: shown,
                    partial_efforts: totals,
                    max_height: height as i32 + 1,
                    effort,
                    background_color,
                };
                assert(dev.rows() =~= rows_of(worker_efforts@));
                Some(dev)
            },
        }
    }
}

impl PjmDatas {
    /// The project `project_name` as it is shown on the day `today`, with
    /// the developers `dev_efforts`: the week axis is that of the day
    /// `AXIS_LEAD` days before `today`. `None` where the calendar does not
    /// hold that axis.
    pub fn new(project_name: &str, today: &Day, dev_efforts: Vec<DevEffort>) -> (made: Option<
        PjmDatas,
    >)
        ensures
            match made {
                Some(project) => {
                    &&& window_in_calendar(today@ - AXIS_LEAD)
                    &&& project.project_name@ == project_name@
                    &&& project.current_week@ == label_of(monday_of(today@))
                    &&& is_week_axis(project.current_dates@, today@ - AXIS_LEAD)
                    &&& project.dev_efforts == dev_efforts
                },
                None => !window_in_calendar(today@ - AXIS_LEAD),
            },
    {
        let start_date = match Day::new(today.number() - AXIS_LEAD) {
            Some(day) => day,
            None => { return None; },
        };
        let current_dates = match checked_dates(&start_date) {
            Some(labels) => labels,
            None => { return None; },
        };
        let monday = match checked_monday(today) {
            Some(day) => day,
            None => { return None; },
        };
        Some(
            PjmDatas {
                project_name: project_name.to_owned(),
                current_week: monday.label(),
                current_dates,
                dev_efforts,
            },
        )
    }
}

} // verus!
