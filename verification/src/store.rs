//! The bounded store: the most recent events, oldest first.

use crate::event::{views, Event, EventView};
use std::collections::VecDeque;
use vstd::prelude::*;

verus! {

/// The last `limit` items of `items`, or all of them where there are fewer.
pub open spec fn keep_last<A>(items: Seq<A>, limit: nat) -> Seq<A> {
    if items.len() <= limit {
        items
    } else {
        items.subrange(items.len() - limit, items.len() as int)
    }
}

/// What a store of capacity `limit` holds after `arrivals` were appended, one
/// after the other, to a store that held `held`.
pub open spec fn after_appends<A>(held: Seq<A>, arrivals: Seq<A>, limit: nat) -> Seq<A>
    decreases arrivals.len(),
{
    if arrivals.len() == 0 {
        held
    } else {
        keep_last(after_appends(held, arrivals.drop_last(), limit).push(arrivals.last()), limit)
    }
}

/// A bounded sequence of events in the order of their arrival. Once the store
/// is full, each new event pushes out the oldest one.
#[derive(Debug)]
pub struct EventStore {
    events: VecDeque<Event>,
    max_events: usize,
}

impl View for EventStore {
    type V = Seq<EventView>;

    closed spec fn view(&self) -> Seq<EventView> {
        views(self.events@)
    }
}

impl EventStore {
    #[verifier::type_invariant]
    spec fn within_capacity(self) -> bool {
        self.events@.len() <= self.max_events
    }

    /// The most events that the store keeps.
    pub closed spec fn capacity(self) -> nat {
        self.max_events as nat
    }

    /// An empty store that keeps at most `max_events` events.
    pub fn new(max_events: usize) -> (store: EventStore)
        ensures
            store@ == Seq::<EventView>::empty(),
            store.capacity() == max_events,
    {
        let store = EventStore { events: VecDeque::new(), max_events };
        assert(store@ =~= Seq::<EventView>::empty());
        store
    }

    /// The most events that the store keeps.
    pub fn max_events(&self) -> (limit: usize)
        ensures
            limit == self.capacity(),
    {
        self.max_events
    }

    /// The number of events held, which never exceeds the capacity.
    pub fn len(&self) -> (count: usize)
        ensures
            count == self@.len(),
            count <= self.capacity(),
    {
        proof {
            use_type_invariant(self);
            vstd::std_specs::vecdeque::axiom_spec_len(&self.events);
        }
        self.events.len()
    }

    /// Whether the store holds no event.
    pub fn is_empty(&self) -> (empty: bool)
        ensures
            empty == (self@.len() == 0),
    {
        self.len() == 0
    }

    /// Whether the next append pushes out the oldest event.
    pub fn is_full(&self) -> (full: bool)
        ensures
            full == (self@.len() == self.capacity()),
    {
        self.len() == self.max_events
    }

    /// Puts `event` behind the events held. Where that makes one too many, the
    /// oldest leaves; the others keep their order.
    pub fn append(&mut self, event: Event)
        ensures
            final(self)@ == keep_last(old(self)@.push(event@), old(self).capacity()),
            final(self).capacity() == old(self).capacity(),
    {
        proof {
            use_type_invariant(&*self);
        }
        let mut events = VecDeque::new();
        std::mem::swap(&mut self.events, &mut events);
        let ghost before = events@;
        events.push_back(event);
        proof {
            vstd::std_specs::vecdeque::axiom_spec_len(&events);
            assert(views(events@) =~= views(before).push(event@));
        }
        if events.len() > self.max_events {
            let ghost grown = events@;
            let _ = events.pop_front();
            proof {
                assert(views(events@) =~= views(grown).subrange(1, grown.len() as int));
            }
        }
        self.events = events;
    }

    /// A copy of the events held, oldest first. The copy is the caller's own:
    /// later appends do not reach it.
    pub fn snapshot(&self) -> (events: Vec<Event>)
        ensures
            views(events@) == self@,
            events.len() <= self.capacity(),
    {
        proof {
            use_type_invariant(self);
            vstd::std_specs::vecdeque::axiom_spec_len(&self.events);
        }
        let mut events: Vec<Event> = Vec::new();
        let mut i: usize = 0;
        while i < self.events.len()
            invariant
                i <= self.events@.len(),
                self.events.len() == self.events@.len(),
                views(events@) == views(self.events@.take(i as int)),
            decreases self.events@.len() - i,
        {
            let ghost before = events@;
            let copy = self.events[i].clone();
            events.push(copy);
            proof {
                lemma_views_push(before, copy, self.events@, i as int);
            }
            i += 1;
        }
        proof {
            assert(self.events@.take(i as int) =~= self.events@);
            assert(views(events@).len() == events@.len());
        }
        events
    }

    /// Drops every event. The capacity stays.
    pub fn reset(&mut self)
        ensures
            final(self)@ == Seq::<EventView>::empty(),
            final(self).capacity() == old(self).capacity(),
    {
        self.events = VecDeque::new();
        assert(self@ =~= Seq::<EventView>::empty());
    }
}

impl Clone for EventStore {
    /// A store of the same capacity that holds copies of the same events.
    fn clone(&self) -> (copy: EventStore)
        ensures
            copy@ == self@,
            copy.capacity() == self.capacity(),
    {
        proof {
            use_type_invariant(self);
            vstd::std_specs::vecdeque::axiom_spec_len(&self.events);
        }
        let mut events: VecDeque<Event> = VecDeque::new();
        let mut i: usize = 0;
        while i < self.events.len()
            invariant
                i <= self.events@.len(),
                self.events.len() == self.events@.len(),
                events@.len() == i,
                views(events@) == views(self.events@.take(i as int)),
            decreases self.events@.len() - i,
        {
            let ghost before = events@;
            let copy = self.events[i].clone();
            events.push_back(copy);
            proof {
                lemma_views_push(before, copy, self.events@, i as int);
            }
            i += 1;
        }
        proof {
            assert(self.events@.take(i as int) =~= self.events@);
        }
        EventStore { events, max_events: self.max_events }
    }
}

/// A copy that has reached position `i` of `source` reaches position `i + 1`
/// with a copy of the event that stands there.
proof fn lemma_views_push(copied: Seq<Event>, copy: Event, source: Seq<Event>, i: int)
    requires
        0 <= i < source.len(),
        views(copied) == views(source.take(i)),
        copy@ == source[i]@,
    ensures
        views(copied.push(copy)) == views(source.take(i + 1)),
{
    let longer = views(copied.push(copy));
    let wanted = views(source.take(i + 1));
    assert(views(copied).len() == i);
    assert forall|k: int| 0 <= k < longer.len() implies longer[k] == wanted[k] by {
        assert(longer[k] == copied.push(copy)[k]@);
        assert(wanted[k] == source.take(i + 1)[k]@);
        if k < i {
            assert(views(copied)[k] == copied[k]@);
            assert(views(source.take(i))[k] == source.take(i)[k]@);
        }
    }
    assert(longer =~= wanted);
}

/// A store never holds more than its capacity, and an append is all that it
/// takes to get from one content to the next.
pub proof fn law_append_stays_within_capacity<A>(held: Seq<A>, arrival: A, limit: nat)
    ensures
        keep_last(held.push(arrival), limit).len() <= limit,
        held.len() < limit ==> keep_last(held.push(arrival), limit) == held.push(arrival),
        held.len() == limit && limit > 0 ==> keep_last(held.push(arrival), limit)
            == held.subrange(1, held.len() as int).push(arrival),
{
    if held.len() == limit && limit > 0 {
        assert(keep_last(held.push(arrival), limit) =~= held.subrange(1, held.len() as int).push(
            arrival,
        ));
    }
}

/// After any run of appends a store holds the most recent of everything it was
/// given, as many as its capacity allows, in the order of arrival.
pub proof fn law_appends_keep_the_most_recent<A>(held: Seq<A>, arrivals: Seq<A>, limit: nat)
    requires
        held.len() <= limit,
    ensures
        after_appends(held, arrivals, limit) == keep_last(held + arrivals, limit),
    decreases arrivals.len(),
{
    if arrivals.len() == 0 {
        assert(held + arrivals =~= held);
    } else {
        let earlier = arrivals.drop_last();
        law_appends_keep_the_most_recent(held, earlier, limit);
        assert((held + earlier).push(arrivals.last()) =~= held + arrivals);
        assert(keep_last(keep_last(held + earlier, limit).push(arrivals.last()), limit)
            =~= keep_last(held + arrivals, limit));
    }
}

/// More appends than the capacity, into an empty store: the store ends up
/// full, and holds exactly the last `limit` arrivals in their order.
pub proof fn law_overflow_keeps_the_newest<A>(arrivals: Seq<A>, limit: nat)
    requires
        arrivals.len() > limit,
    ensures
        after_appends(Seq::empty(), arrivals, limit).len() == limit,
        after_appends(Seq::empty(), arrivals, limit) == arrivals.subrange(
            arrivals.len() - limit,
            arrivals.len() as int,
        ),
{
    law_appends_keep_the_most_recent(Seq::empty(), arrivals, limit);
    assert(Seq::<A>::empty() + arrivals =~= arrivals);
}

/// Two events that a store holds stand in the order in which they arrived:
/// eviction takes from the front and never reorders the survivors.
pub proof fn law_survivors_keep_their_order<A>(arrivals: Seq<A>, limit: nat, i: int, j: int)
    requires
        0 <= i < j < after_appends(Seq::empty(), arrivals, limit).len(),
    ensures
        ({
            let held = after_appends(Seq::empty(), arrivals, limit);
            let shift = arrivals.len() - held.len();
            &&& 0 <= shift
            &&& held[i] == arrivals[shift + i]
            &&& held[j] == arrivals[shift + j]
            &&& shift + i < shift + j
        }),
{
    law_appends_keep_the_most_recent(Seq::empty(), arrivals, limit);
    assert(Seq::<A>::empty() + arrivals =~= arrivals);
}

} // verus!
