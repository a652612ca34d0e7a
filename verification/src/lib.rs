//! Weekly effort timeline: the week axis of a project chart and the running
//! effort totals of its rows.
//!
//! * [`calendar`] holds the days, and asks `chrono` what the calendar says of them.
//! * [`weeks`] lays out the week axis from an anchor day.
//! * [`text`] cuts a row into lines and a line into fields.
//! * [`number`] reads a field as a decimal integer.
//! * [`effort`] totals the effort that rows book.
//! * [`chart`] puts both together into what is shown.

pub mod calendar;
pub mod chart;
pub mod effort;
pub mod number;
pub mod text;
pub mod weeks;
