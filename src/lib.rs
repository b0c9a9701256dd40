//! Next refuse-collection colours for one household: the schedule records
//! the council publishes, the extraction of the nearest collection, a
//! twelve-hour cache in front of the remote schedule, and the steps that turn
//! a postcode into a durable property identifier.

pub mod models;
pub mod bin_calendar;
pub mod schedule_cache;
pub mod resolution;
