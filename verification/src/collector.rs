//! The collector: the handle through which producers record events and the
//! viewer reads them. Every handle reaches the same store behind one lock.

use crate::event::{views, Event, EventView, Fields};
use crate::level::Level;
use crate::store::{keep_last, EventStore};
use std::sync::Arc;
use std::time::SystemTime;
use vstd::prelude::*;
use vstd::rwlock::{RwLock, RwLockPredicate};

verus! {

/// What the handles of a collector share: the store while the collector is
/// in service, nothing once it was torn down.
#[derive(Debug)]
pub enum Backing {
    /// In service.
    Live(EventStore),
    /// Torn down: what is recorded is dropped, and there is nothing to read.
    TornDown,
}

impl Backing {
    /// The events held, oldest first; none once torn down.
    pub open spec fn held(self) -> Seq<EventView> {
        match self {
            Backing::Live(store) => store@,
            Backing::TornDown => Seq::empty(),
        }
    }

    /// A backing in service, with an empty store of the given capacity.
    pub fn new(max_events: usize) -> (backing: Backing)
        ensures
            backing matches Backing::Live(store) && store@ == Seq::<EventView>::empty()
                && store.capacity() == max_events,
    {
        Backing::Live(EventStore::new(max_events))
    }

    /// Appends `event` to the store. Once torn down, the event is dropped and
    /// nothing else happens.
    pub fn record(&mut self, event: Event)
        ensures
            match *old(self) {
                Backing::Live(before) => {
                    &&& *final(self) matches Backing::Live(after)
                    &&& after@ == keep_last(before@.push(event@), before.capacity())
                    &&& after.capacity() == before.capacity()
                },
                Backing::TornDown => *final(self) is TornDown,
            },
    {
        match self {
            Backing::Live(store) => {
                store.append(event);
            },
            Backing::TornDown => {},
        }
    }

    /// A copy of the events held, oldest first; empty once torn down.
    pub fn events(&self) -> (events: Vec<Event>)
        ensures
            views(events@) == self.held(),
            *self matches Backing::Live(store) ==> events.len() <= store.capacity(),
            *self is TornDown ==> events.len() == 0,
    {
        match self {
            Backing::Live(store) => store.snapshot(),
            Backing::TornDown => {
                let events: Vec<Event> = Vec::new();
                assert(views(events@) =~= Seq::<EventView>::empty());
                events
            },
        }
    }

    /// Drops every event held. A backing in service stays in service.
    pub fn reset(&mut self)
        ensures
            final(self).held() == Seq::<EventView>::empty(),
            match *old(self) {
                Backing::Live(before) => *final(self) matches Backing::Live(after)
                    && after.capacity() == before.capacity(),
                Backing::TornDown => *final(self) is TornDown,
            },
    {
        match self {
            Backing::Live(store) => {
                store.reset();
            },
            Backing::TornDown => {},
        }
    }

    /// Takes the backing out of service and drops what it held.
    pub fn tear_down(&mut self)
        ensures
            *final(self) is TornDown,
    {
        *self = Backing::TornDown;
    }

    /// Whether the backing was torn down.
    pub fn is_torn_down(&self) -> (gone: bool)
        ensures
            gone == (*self is TornDown),
    {
        match self {
            Backing::Live(_) => false,
            Backing::TornDown => true,
        }
    }
}

/// What the lock of a collector promises of the backing it guards, whoever
/// holds the lock: a store in service has the collector's capacity.
pub struct OfCapacity {
    pub capacity: nat,
}

impl RwLockPredicate<Backing> for OfCapacity {
    open spec fn inv(self, backing: Backing) -> bool {
        backing matches Backing::Live(store) ==> store.capacity() == self.capacity
    }
}

/// `Arc::clone`: one more handle to the same value.
#[verifier::external_body]
fn another_handle(shared: &Arc<RwLock<Backing, OfCapacity>>) -> (other: Arc<RwLock<Backing, OfCapacity>>)
    ensures
        other == *shared,
{
    Arc::clone(shared)
}

/// `SystemTime::now`: the time at the moment of the call. Nothing is claimed
/// of it.
#[verifier::external_body]
fn now() -> (time: SystemTime) {
    SystemTime::now()
}

/// A handle to a shared, bounded store of events. Producers record through
/// it from any thread; the viewer reads a snapshot through it. A clone is
/// another handle to the same store, which lives as long as its last handle.
///
/// Each operation holds the lock for its own duration only, so what a call
/// finds in the store depends on the calls that other handles made before it.
pub struct EventCollector {
    shared: Arc<RwLock<Backing, OfCapacity>>,
    max_events: usize,
}

impl EventCollector {
    #[verifier::type_invariant]
    spec fn lock_guards_capacity(self) -> bool {
        self.shared.pred().capacity == self.max_events
    }

    /// The capacity of the store behind this handle.
    pub closed spec fn capacity(self) -> nat {
        self.max_events as nat
    }

    /// A collector over a new, empty store that keeps at most `max_events`
    /// events.
    pub fn new(max_events: usize) -> (collector: EventCollector)
        ensures
            collector.capacity() == max_events,
    {
        let backing = Backing::new(max_events);
        let lock = RwLock::new(backing, Ghost(OfCapacity { capacity: max_events as nat }));
        EventCollector { shared: Arc::new(lock), max_events }
    }

    /// The capacity of the store behind this handle.
    pub fn max_events(&self) -> (limit: usize)
        ensures
            limit == self.capacity(),
    {
        self.max_events
    }

    /// Records an event with the current time as its timestamp. Never fails:
    /// once the store was torn down the event is dropped silently.
    pub fn record(&self, level: Level, target: String, fields: Fields) {
        self.record_at(now(), level, target, fields)
    }

    /// Records an event with the given timestamp: the store appends it under
    /// the lock, as [`Backing::record`] says.
    pub fn record_at(&self, timestamp: SystemTime, level: Level, target: String, fields: Fields) {
        let event = Event { timestamp, level, target, fields };
        let (mut backing, lock) = self.shared.acquire_write();
        backing.record(event);
        lock.release_write(backing);
    }

    /// A snapshot of the store, oldest first, taken under the lock and owned
    /// by the caller; empty once the store was torn down. It never holds more
    /// events than the capacity.
    pub fn events(&self) -> (events: Vec<Event>)
        ensures
            events.len() <= self.capacity(),
    {
        proof {
            use_type_invariant(self);
        }
        let lock = self.shared.acquire_read();
        let backing = lock.borrow();
        assert(self.shared.inv(*backing));
        let events = backing.events();
        lock.release_read();
        events
    }

    /// Drops every event of the store, for all handles.
    pub fn reset(&self) {
        let (mut backing, lock) = self.shared.acquire_write();
        backing.reset();
        lock.release_write(backing);
    }

    /// Tears the store down, for all handles: what was held is dropped, what
    /// is recorded from now on is dropped too, and snapshots are empty.
    pub fn close(&self) {
        let (mut backing, lock) = self.shared.acquire_write();
        backing.tear_down();
        lock.release_write(backing);
    }

    /// Whether the store was torn down at the moment of the call.
    pub fn is_closed(&self) -> (closed: bool) {
        let lock = self.shared.acquire_read();
        let closed = lock.borrow().is_torn_down();
        lock.release_read();
        closed
    }
}

impl Clone for EventCollector {
    /// Another handle to the same store: what is recorded through either is
    /// read through both.
    fn clone(&self) -> (handle: EventCollector)
        ensures
            handle == *self,
            handle.capacity() == self.capacity(),
    {
        proof {
            use_type_invariant(self);
        }
        EventCollector { shared: another_handle(&self.shared), max_events: self.max_events }
    }
}

} // verus!
