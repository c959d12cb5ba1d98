//! The viewer's side of the library: a collector handle with the filter
//! selections, and what a table of log rows reads from them.

use crate::collector::EventCollector;
use crate::event::{lookup, views, Event, MESSAGE};
use crate::pipeline::{views_of_borrowed, visible, FilterPipeline};
use crate::state::LogsState;
use vstd::prelude::*;

verus! {

/// The text shown in place of the message of an event that carries none.
pub const NO_MESSAGE: &'static str = "No Message available";

/// The text shown in every cell of a row that the table asks for but the
/// filtered events do not have.
pub const OUT_OF_BOUNDS: &'static str = "Out of bounds index";

/// One row of the table.
#[derive(Clone, Copy, Debug)]
pub enum Row<'a> {
    /// The row of an event.
    Entry(&'a Event),
    /// A row past the last event: drawn as a placeholder, never a failure.
    OutOfBounds,
}

/// A log viewer: the collector it reads from and the selections of its user.
pub struct Logs {
    pub collector: EventCollector,
    pub logs_state: LogsState,
}

impl Logs {
    /// A viewer over `collector` with the selections of a new session: every
    /// level shown, no target hidden, nothing typed, no matcher compiled yet.
    #[must_use]
    pub fn new(collector: EventCollector) -> (logs: Logs)
        ensures
            logs.collector == collector,
            forall|level: crate::level::Level| logs.logs_state.level_filter.shows(level),
            logs.logs_state.target_filter.pattern_texts() == Seq::<Seq<char>>::empty(),
            logs.logs_state.target_filter.input_text() == Seq::<char>::empty(),
            logs.logs_state.target_filter.is_stale(),
    {
        Logs { collector, logs_state: LogsState::new() }
    }

    /// A snapshot of the collector's store, oldest first, never longer than
    /// the store's capacity.
    pub fn snapshot(&self) -> (events: Vec<Event>)
        ensures
            events.len() <= self.collector.capacity(),
    {
        self.collector.events()
    }

    /// The rows of the table for a snapshot: the events that pass this
    /// viewer's filters, newest first.
    pub fn rows<'a>(&mut self, events: &'a Vec<Event>) -> (rows: Vec<&'a Event>)
        ensures
            views_of_borrowed(rows@) == visible(
                views(events@),
                old(self).logs_state.level_filter,
                old(self).logs_state.target_filter.pattern_texts(),
            ),
            final(self).collector == old(self).collector,
            final(self).logs_state.level_filter == old(self).logs_state.level_filter,
            final(self).logs_state.target_filter.pattern_texts() == old(
                self,
            ).logs_state.target_filter.pattern_texts(),
            final(self).logs_state.target_filter.input_text() == old(
                self,
            ).logs_state.target_filter.input_text(),
    {
        let levels = self.logs_state.level_filter;
        FilterPipeline::apply(events, &levels, &mut self.logs_state.target_filter)
    }

    /// The row at `index` of the table: the event there, or the placeholder
    /// where the table asks past the last row.
    pub fn row<'a>(rows: &Vec<&'a Event>, index: usize) -> (row: Row<'a>)
        ensures
            index < rows.len() ==> row == Row::Entry(rows[index as int]),
            index >= rows.len() ==> row is OutOfBounds,
    {
        if index < rows.len() {
            Row::Entry(rows[index])
        } else {
            Row::OutOfBounds
        }
    }

    /// The text of the message cell of `event`: its message, or
    /// [`NO_MESSAGE`] where it carries none.
    pub fn message_text<'a>(event: &'a Event) -> (text: &'a str)
        ensures
            text@ == match lookup(event@.fields, MESSAGE@) {
                Some(message) => message,
                None => NO_MESSAGE@,
            },
    {
        match event.message() {
            Some(message) => message.as_str(),
            None => NO_MESSAGE,
        }
    }
}

impl Clone for Logs {
    /// A viewer on the same store with the same selections. The copy compiles
    /// its own matcher on its first query.
    fn clone(&self) -> (copy: Logs)
        ensures
            copy.collector == self.collector,
            copy.collector.capacity() == self.collector.capacity(),
            copy.logs_state.level_filter == self.logs_state.level_filter,
            copy.logs_state.target_filter.pattern_texts()
                == self.logs_state.target_filter.pattern_texts(),
            copy.logs_state.target_filter.input_text()
                == self.logs_state.target_filter.input_text(),
            copy.logs_state.target_filter.is_stale(),
    {
        Logs { collector: self.collector.clone(), logs_state: self.logs_state.clone() }
    }
}

} // verus!
