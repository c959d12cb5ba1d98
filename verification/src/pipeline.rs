//! From a snapshot and the two filters to what the viewer shows.

use crate::event::{views, Event, EventView};
use crate::level::LevelFilter;
use crate::target::{excluded_by, TargetFilter};
use vstd::prelude::*;

verus! {

/// Whether an event is shown: its level is switched on and no pattern hides
/// its target.
pub open spec fn passes(event: EventView, levels: LevelFilter, patterns: Seq<Seq<char>>) -> bool {
    levels.shows(event.level) && !excluded_by(patterns, event.target)
}

/// What the viewer shows of `events`, which come oldest first: those that
/// pass both filters, newest first.
pub open spec fn visible(
    events: Seq<EventView>,
    levels: LevelFilter,
    patterns: Seq<Seq<char>>,
) -> Seq<EventView> {
    events.reverse().filter(passing(levels, patterns))
}

/// The test that an event passes both filters, as a predicate on events.
pub open spec fn passing(levels: LevelFilter, patterns: Seq<Seq<char>>) -> spec_fn(EventView) -> bool {
    |event: EventView| passes(event, levels, patterns)
}

/// Whether `hidden` holds the verdict that the event at `position` is hidden.
/// A position without a verdict is not hidden.
pub open spec fn hidden_at(hidden: Seq<bool>, position: int) -> bool {
    0 <= position < hidden.len() && hidden[position]
}

/// What is shown of `events` once the verdict on each target is known:
/// `hidden[i]` tells whether the target of `events[i]` is hidden. The events
/// whose level is switched on and whose target is not hidden, newest first.
pub open spec fn chosen(events: Seq<EventView>, levels: LevelFilter, hidden: Seq<bool>) -> Seq<
    EventView,
>
    decreases events.len(),
{
    if events.len() == 0 {
        Seq::empty()
    } else {
        let newest = events.last();
        let older = chosen(events.drop_last(), levels, hidden);
        if levels.shows(newest.level) && !hidden_at(hidden, events.len() - 1) {
            seq![newest] + older
        } else {
            older
        }
    }
}

/// What each of the borrowed events is to the contracts, in the same order.
pub open spec fn views_of_borrowed(events: Seq<&Event>) -> Seq<EventView> {
    events.map_values(|event: &Event| event@)
}

/// The filter stage between the store and the viewer. It keeps no state of
/// its own.
#[derive(Clone, Copy, Debug, Default)]
pub struct FilterPipeline;

impl FilterPipeline {
    /// The events of a snapshot that the viewer shows, newest first: an event
    /// stays exactly when `level_filter` shows its level and `target_filter`
    /// does not hide its target. The target filter compiles its matcher first
    /// where its list changed; its list and input are left as they were.
    pub fn apply<'a>(
        events: &'a Vec<Event>,
        level_filter: &LevelFilter,
        target_filter: &mut TargetFilter,
    ) -> (shown: Vec<&'a Event>)
        ensures
            views_of_borrowed(shown@) == visible(
                views(events@),
                *level_filter,
                old(target_filter).pattern_texts(),
            ),
            final(target_filter).pattern_texts() == old(target_filter).pattern_texts(),
            final(target_filter).input_text() == old(target_filter).input_text(),
    {
        let ghost patterns = target_filter.pattern_texts();
        let mut hidden: Vec<bool> = Vec::new();
        let mut i: usize = 0;
        while i < events.len()
            invariant
                i <= events.len(),
                hidden.len() == i,
                target_filter.pattern_texts() == patterns,
                target_filter.input_text() == old(target_filter).input_text(),
                forall|k: int|
                    0 <= k < i ==> #[trigger] hidden[k] == excluded_by(patterns, events[k].target@),
            decreases events.len() - i,
        {
            let verdict = target_filter.is_excluded(events[i].target.as_str());
            hidden.push(verdict);
            i += 1;
        }
        let shown = Self::select(events, level_filter, &hidden);
        proof {
            assert forall|k: int| 0 <= k < events.len() implies hidden@[k] == excluded_by(
                patterns,
                (#[trigger] views(events@)[k]).target,
            ) by {
                assert(hidden[k] == excluded_by(patterns, events[k].target@));
            }
            lemma_chosen_is_visible(views(events@), *level_filter, patterns, hidden@);
        }
        shown
    }

    /// The same selection with the verdict on each target given: `hidden[i]`
    /// tells whether the target of `events[i]` is hidden. An event for which
    /// `hidden` is too short to hold a verdict counts as not hidden.
    pub fn select<'a>(events: &'a Vec<Event>, level_filter: &LevelFilter, hidden: &Vec<bool>) -> (shown:
        Vec<&'a Event>)
        ensures
            views_of_borrowed(shown@) == chosen(views(events@), *level_filter, hidden@),
    {
        let ghost all = views(events@);
        let mut shown: Vec<&'a Event> = Vec::new();
        let mut i: usize = events.len();
        proof {
            assert(all.take(i as int) =~= all);
            assert(views_of_borrowed(shown@) =~= Seq::<EventView>::empty());
        }
        while i > 0
            invariant
                i <= events.len(),
                all == views(events@),
                views_of_borrowed(shown@) + chosen(all.take(i as int), *level_filter, hidden@)
                    == chosen(all, *level_filter, hidden@),
            decreases i,
        {
            i -= 1;
            let event = &events[i];
            let ghost before = shown@;
            proof {
                assert(all.take(i as int + 1).drop_last() =~= all.take(i as int));
                assert(all.take(i as int + 1).last() == event@);
            }
            if level_filter.get(event.level) && !(i < hidden.len() && hidden[i]) {
                shown.push(event);
                proof {
                    assert(views_of_borrowed(shown@) =~= views_of_borrowed(before) + seq![event@]);
                    assert(views_of_borrowed(shown@) + chosen(
                        all.take(i as int),
                        *level_filter,
                        hidden@,
                    ) =~= views_of_borrowed(before) + (seq![event@] + chosen(
                        all.take(i as int),
                        *level_filter,
                        hidden@,
                    )));
                }
            }
        }
        proof {
            assert(all.take(0) =~= Seq::<EventView>::empty());
            assert(views_of_borrowed(shown@) + Seq::<EventView>::empty() =~= views_of_borrowed(
                shown@,
            ));
        }
        shown
    }
}

/// Selecting by verdicts that are the target filter's own gives what the
/// viewer shows.
pub proof fn lemma_chosen_is_visible(
    events: Seq<EventView>,
    levels: LevelFilter,
    patterns: Seq<Seq<char>>,
    hidden: Seq<bool>,
)
    requires
        hidden.len() == events.len(),
        forall|k: int|
            0 <= k < events.len() ==> hidden[k] == excluded_by(
                patterns,
                (#[trigger] events[k]).target,
            ),
    ensures
        chosen(events, levels, hidden) == visible(events, levels, patterns),
    decreases events.len(),
{
    let keep = passing(levels, patterns);
    reveal_with_fuel(Seq::filter, 2);
    if events.len() == 0 {
        assert(events.reverse() =~= Seq::<EventView>::empty());
    } else {
        let newest = events.last();
        let older = events.drop_last();
        assert forall|k: int| 0 <= k < older.len() implies hidden.take(older.len() as int)[k]
            == excluded_by(patterns, (#[trigger] older[k]).target) by {
            assert(older[k] == events[k]);
        }
        lemma_chosen_ignores_later_verdicts(older, levels, hidden, hidden.take(older.len() as int));
        lemma_chosen_is_visible(older, levels, patterns, hidden.take(older.len() as int));
        assert(events.reverse() =~= seq![newest] + older.reverse());
        Seq::filter_distributes_over_add(seq![newest], older.reverse(), keep);
        assert(seq![newest].drop_last() =~= Seq::<EventView>::empty());
        assert(seq![newest].filter(keep) =~= if keep(newest) {
            seq![newest]
        } else {
            Seq::empty()
        });
        assert(passes(newest, levels, patterns) == (levels.shows(newest.level) && !hidden_at(
            hidden,
            events.len() - 1,
        )));
        if !keep(newest) {
            assert(Seq::<EventView>::empty() + older.reverse().filter(keep) =~= older.reverse().filter(
                keep,
            ));
        }
    }
}

/// The selection reads one verdict per event and none behind the last event.
proof fn lemma_chosen_ignores_later_verdicts(
    events: Seq<EventView>,
    levels: LevelFilter,
    hidden: Seq<bool>,
    shorter: Seq<bool>,
)
    requires
        forall|k: int| 0 <= k < events.len() ==> hidden_at(hidden, k) == hidden_at(shorter, k),
    ensures
        chosen(events, levels, hidden) == chosen(events, levels, shorter),
    decreases events.len(),
{
    if events.len() > 0 {
        lemma_chosen_ignores_later_verdicts(events.drop_last(), levels, hidden, shorter);
    }
}

/// Filtering keeps the order: of two items that pass, the one that stood
/// first in the sequence stands first in what is left.
pub proof fn lemma_filter_keeps_order<A>(items: Seq<A>, keep: spec_fn(A) -> bool, i: int, j: int)
    requires
        0 <= i < j < items.len(),
        keep(items[i]),
        keep(items[j]),
    ensures
        exists|a: int, b: int|
            0 <= a < b < items.filter(keep).len() && #[trigger] items.filter(keep)[a] == items[i]
                && #[trigger] items.filter(keep)[b] == items[j],
    decreases items.len(),
{
    reveal(Seq::filter);
    let kept = items.filter(keep);
    let shorter = items.drop_last();
    if j == items.len() - 1 {
        shorter.lemma_filter_contains(keep, i);
        let a = choose|a: int| 0 <= a < shorter.filter(keep).len() && shorter.filter(keep)[a] == items[i];
        let b = kept.len() - 1;
        assert(kept[a] == items[i]);
        assert(kept[b] == items[j]);
    } else {
        lemma_filter_keeps_order(shorter, keep, i, j);
        let (a, b) = choose|a: int, b: int|
            0 <= a < b < shorter.filter(keep).len() && #[trigger] shorter.filter(keep)[a]
                == shorter[i] && #[trigger] shorter.filter(keep)[b] == shorter[j];
        shorter.lemma_filter_len(keep);
        assert(kept[a] == items[i]);
        assert(kept[b] == items[j]);
    }
}

/// Of two events that are both shown, the one that was appended later comes
/// first in what the viewer shows.
pub proof fn law_newer_is_shown_first(
    events: Seq<EventView>,
    levels: LevelFilter,
    patterns: Seq<Seq<char>>,
    i: int,
    j: int,
)
    requires
        0 <= i < j < events.len(),
        passes(events[i], levels, patterns),
        passes(events[j], levels, patterns),
    ensures
        exists|a: int, b: int|
            0 <= a < b < visible(events, levels, patterns).len() && #[trigger] visible(
                events,
                levels,
                patterns,
            )[a] == events[j] && #[trigger] visible(events, levels, patterns)[b] == events[i],
{
    let keep = passing(levels, patterns);
    let turned = events.reverse();
    let last = events.len() - 1;
    assert(turned[last - j] == events[j]);
    assert(turned[last - i] == events[i]);
    lemma_filter_keeps_order(turned, keep, last - j, last - i);
    let shown = visible(events, levels, patterns);
    let (a, b) = choose|a: int, b: int|
        0 <= a < b < turned.filter(keep).len() && #[trigger] turned.filter(keep)[a] == turned[last
            - j] && #[trigger] turned.filter(keep)[b] == turned[last - i];
    assert(shown[a] == events[j] && shown[b] == events[i]);
}

/// An event is shown exactly when it is in the snapshot, its level is
/// switched on, and no pattern hides its target. Nothing else decides.
pub proof fn law_shown_iff_it_passes(
    events: Seq<EventView>,
    levels: LevelFilter,
    patterns: Seq<Seq<char>>,
    event: EventView,
)
    ensures
        visible(events, levels, patterns).contains(event) <==> events.contains(event)
            && levels.shows(event.level) && !excluded_by(patterns, event.target),
{
    let keep = passing(levels, patterns);
    let turned = events.reverse();
    let last = events.len() - 1;
    if visible(events, levels, patterns).contains(event) {
        turned.lemma_filter_contains_rev(keep, event);
        let at = choose|at: int| 0 <= at < turned.len() && turned[at] == event;
        assert(events[last - at] == event);
        let k = choose|k: int| 0 <= k < turned.filter(keep).len() && turned.filter(keep)[k] == event;
        turned.lemma_filter_pred(keep, k);
    }
    if events.contains(event) && passes(event, levels, patterns) {
        let at = choose|at: int| 0 <= at < events.len() && events[at] == event;
        assert(turned[last - at] == event);
        turned.lemma_filter_contains(keep, last - at);
    }
}

/// With every level switched on and no pattern, the viewer shows the whole
/// snapshot, newest first.
pub proof fn law_open_filters_show_everything(events: Seq<EventView>, levels: LevelFilter)
    requires
        forall|level: crate::level::Level| levels.shows(level),
    ensures
        visible(events, levels, Seq::empty()) == events.reverse(),
{
    let keep = passing(levels, Seq::empty());
    let turned = events.reverse();
    assert forall|k: int| 0 <= k < turned.len() implies keep(#[trigger] turned[k]) by {
        crate::target::law_no_pattern_hides_nothing(turned[k].target);
    }
    lemma_filter_all(turned, keep);
}

/// A filter that every item passes leaves the sequence as it is.
proof fn lemma_filter_all<A>(items: Seq<A>, keep: spec_fn(A) -> bool)
    requires
        forall|k: int| 0 <= k < items.len() ==> keep(#[trigger] items[k]),
    ensures
        items.filter(keep) == items,
    decreases items.len(),
{
    reveal(Seq::filter);
    if items.len() > 0 {
        let shorter = items.drop_last();
        assert forall|k: int| 0 <= k < shorter.len() implies keep(#[trigger] shorter[k]) by {
            assert(shorter[k] == items[k]);
        }
        lemma_filter_all(shorter, keep);
        assert(shorter.push(items.last()) =~= items);
    }
}

/// Filtering by a test and then by a stricter one leaves what the stricter
/// test alone leaves.
pub proof fn lemma_filter_refines<A>(
    items: Seq<A>,
    keep: spec_fn(A) -> bool,
    stricter: spec_fn(A) -> bool,
)
    requires
        forall|item: A| #[trigger] stricter(item) ==> keep(item),
    ensures
        items.filter(keep).filter(stricter) == items.filter(stricter),
    decreases items.len(),
{
    reveal(Seq::filter);
    if items.len() > 0 {
        let shorter = items.drop_last();
        lemma_filter_refines(shorter, keep, stricter);
        if keep(items.last()) {
            assert(shorter.filter(keep).push(items.last()).drop_last() =~= shorter.filter(keep));
        }
    }
}

/// Adding a pattern only takes rows away: what the viewer shows under the
/// longer list is what it showed before, without the events that the longer
/// list hides, in the same order.
pub proof fn law_adding_a_pattern_thins_the_view(
    events: Seq<EventView>,
    levels: LevelFilter,
    patterns: Seq<Seq<char>>,
    pattern: Seq<char>,
)
    ensures
        visible(events, levels, patterns.push(pattern)) == visible(events, levels, patterns).filter(
            passing(levels, patterns.push(pattern)),
        ),
{
    let longer = patterns.push(pattern);
    assert forall|event: EventView| #[trigger]
        passing(levels, longer)(event) implies passing(levels, patterns)(event) by {
        crate::target::law_adding_a_pattern_hides_no_less(patterns, pattern, event.target);
    }
    lemma_filter_refines(events.reverse(), passing(levels, patterns), passing(levels, longer));
}

/// Removing a pattern only brings rows back: what the viewer showed under the
/// full list is what it shows after, without the events that the full list
/// hides, in the same order.
pub proof fn law_removing_a_pattern_fills_the_view(
    events: Seq<EventView>,
    levels: LevelFilter,
    patterns: Seq<Seq<char>>,
    index: int,
)
    requires
        0 <= index < patterns.len(),
    ensures
        visible(events, levels, patterns) == visible(
            events,
            levels,
            patterns.remove(index),
        ).filter(passing(levels, patterns)),
{
    let shorter = patterns.remove(index);
    assert forall|event: EventView| #[trigger]
        passing(levels, patterns)(event) implies passing(levels, shorter)(event) by {
        crate::target::law_removing_a_pattern_hides_no_more(patterns, index, event.target);
    }
    lemma_filter_refines(events.reverse(), passing(levels, shorter), passing(levels, patterns));
}

/// What the viewer shows depends on the snapshot, the level switches and the
/// pattern list alone: a second pass over unchanged inputs, with the target
/// filter in whatever state the first pass left it, shows the same events in
/// the same order.
pub proof fn law_same_inputs_same_view(
    events: Seq<EventView>,
    levels: LevelFilter,
    first: TargetFilter,
    second: TargetFilter,
)
    requires
        second.pattern_texts() == first.pattern_texts(),
    ensures
        visible(events, levels, second.pattern_texts()) == visible(
            events,
            levels,
            first.pattern_texts(),
        ),
{
}

} // verus!
