//! Verified core of an activity-tracking daemon: an interval timeline with a
//! single open interval, windowed per-activity summaries, the event dispatch
//! table, date parsing for queries, and the text layer of the query protocol.

pub mod datetime;
pub mod duration;
pub mod event;
pub mod report;
pub mod summary;
pub mod timeline;
