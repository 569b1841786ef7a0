//! Finds the rooms that are free during a time window and ranks them by their
//! distance to a preferred room.

pub mod acquire;
pub mod calendar;
pub mod config;
pub mod free;
pub mod ical;
pub mod loadingbar;
pub mod rank;
pub mod room;
pub mod search;
pub mod text;

pub use search::get_rooms;
