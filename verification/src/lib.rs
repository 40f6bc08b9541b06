//! Turns a Moodle calendar export into a calendar of to-do items.
//!
//! The library reads the events of an iCalendar file, pairs each event that
//! opens an assignment with the event that closes it, and produces one to-do
//! item per pair and per remaining event.  It also holds the decisions that
//! the web worker around it makes: which query parameters it needs, how a
//! route parameter is decoded, and how stored completion state is applied.

pub mod codec;
pub mod dates;
pub mod ical;
pub mod laws;
pub mod model;
pub mod params;
pub mod render;
pub mod state;
pub mod text;
pub mod transformer;
