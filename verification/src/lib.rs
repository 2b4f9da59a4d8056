//! Assigns people to a sequence of calendar dates in round-robin order,
//! optionally skipping chosen days of the week: validated date ranges and
//! names, weekday filters, and the assignment that pairs each remaining
//! day with a name, cycling through the name list.

pub mod affectations;
pub mod calendar_date;
pub mod date_range;
pub mod day_filter;
pub mod filtering;
pub mod name;
pub mod weekday;
pub mod weekday_filter;
