//! The collection and filtering core of a live log viewer.
//!
//! Producers hand events to an [`EventCollector`], which keeps the most recent
//! ones in a bounded [`EventStore`]. A viewer takes a snapshot of the store and
//! runs it through [`FilterPipeline::apply`], which keeps the events whose
//! severity is switched on in a [`LevelFilter`] and whose target no glob pattern
//! of a [`TargetFilter`] hides, newest first.

pub mod collector;
pub mod event;
pub mod glob;
pub mod level;
pub mod logs;
pub mod pipeline;
pub mod state;
pub mod store;
pub mod target;

pub use collector::{Backing, EventCollector};
pub use event::{Event, Field, Fields};
pub use level::{Level, LevelFilter};
pub use logs::{Logs, Row};
pub use pipeline::FilterPipeline;
pub use state::LogsState;
pub use store::EventStore;
pub use target::{CompileReport, Fault, Rejected, TargetFilter};
