//! Verified core of an inactivity-tracking Discord bot: time arithmetic,
//! merging of recorded activity, the timeout report, the configuration
//! update, the channel indexing state machine and the planning of the
//! database writes that gateway events cause.

pub mod time;
pub mod text;
pub mod activity;
pub mod report;
pub mod scan;
pub mod store;
pub mod config;
pub mod events;
