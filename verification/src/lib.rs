//! Aggregates tasks from several issue trackers into one view and routes
//! each change to the tracker that owns the task.
//!
//! The library decides and computes; it sends nothing. A task is named
//! across all backends by a composite identifier ([`identifier`]). The
//! registry ([`config`]) resolves such a name, or the default for new
//! tasks, to one repository of one account. The dispatch resolver
//! ([`control`]) turns an operation on a task into the requests of the
//! backend that owns it, whose shapes each backend defines
//! ([`providers`]). The aggregator ([`aggregate`]) plans one list request
//! for each repository and merges what came back, and the display
//! ([`output`]) groups the merged tasks and lays them out in lines.

pub mod aggregate;
pub mod color;
pub mod config;
pub mod control;
pub mod error;
pub mod identifier;
pub mod output;
pub mod providers;
pub mod text;
