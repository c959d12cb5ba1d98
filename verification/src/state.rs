//! The filter selections of one viewer.

use crate::level::{Level, LevelFilter};
use crate::target::TargetFilter;
use vstd::prelude::*;

verus! {

/// What the user of a viewer has selected: which levels to show and which
/// targets to hide. Whoever owns the viewer's session owns this state and
/// hands it to the filter operations.
#[derive(Debug)]
pub struct LogsState {
    pub level_filter: LevelFilter,
    pub target_filter: TargetFilter,
}

impl LogsState {
    /// The selections of a new session: every level shown, no target hidden,
    /// nothing typed, no matcher compiled yet.
    pub fn new() -> (state: LogsState)
        ensures
            forall|level: Level| state.level_filter.shows(level),
            state.target_filter.pattern_texts() == Seq::<Seq<char>>::empty(),
            state.target_filter.input_text() == Seq::<char>::empty(),
            state.target_filter.is_stale(),
    {
        LogsState { level_filter: LevelFilter::new(), target_filter: TargetFilter::new() }
    }
}

impl Default for LogsState {
    /// The selections of a new session: every level shown, no target hidden,
    /// nothing typed, no matcher compiled yet.
    fn default() -> (state: LogsState)
        ensures
            forall|level: Level| state.level_filter.shows(level),
            state.target_filter.pattern_texts() == Seq::<Seq<char>>::empty(),
            state.target_filter.input_text() == Seq::<char>::empty(),
            state.target_filter.is_stale(),
    {
        LogsState::new()
    }
}

impl Clone for LogsState {
    /// The same selections, for another viewer. The copy compiles its own
    /// matcher on its first query.
    fn clone(&self) -> (copy: LogsState)
        ensures
            copy.level_filter == self.level_filter,
            copy.target_filter.pattern_texts() == self.target_filter.pattern_texts(),
            copy.target_filter.input_text() == self.target_filter.input_text(),
            copy.target_filter.is_stale(),
    {
        LogsState { level_filter: self.level_filter, target_filter: self.target_filter.clone() }
    }
}

} // verus!
