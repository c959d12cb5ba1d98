//! One recorded occurrence: when it happened, how severe it is, where it came
//! from, and the named values it carries.

use crate::level::Level;
use std::time::SystemTime;
use vstd::prelude::*;

verus! {

/// `std::time::SystemTime`: a point in time, carried through and never read.
#[verifier::external_type_specification]
#[verifier::external_body]
pub struct ExSystemTime(std::time::SystemTime);

/// The name of the field that conventionally carries an event's message.
pub const MESSAGE: &'static str = "message";

/// Whether `entries` holds a value under `name`.
pub open spec fn has_name(entries: Seq<(Seq<char>, Seq<char>)>, name: Seq<char>) -> bool {
    exists|i: int| 0 <= i < entries.len() && (#[trigger] entries[i]).0 == name
}

/// Where `entries` holds the value under `name`.
pub open spec fn index_of_name(entries: Seq<(Seq<char>, Seq<char>)>, name: Seq<char>) -> int {
    choose|i: int| 0 <= i < entries.len() && (#[trigger] entries[i]).0 == name
}

/// The value that `entries` holds under `name`, if any.
pub open spec fn lookup(entries: Seq<(Seq<char>, Seq<char>)>, name: Seq<char>) -> Option<
    Seq<char>,
> {
    if has_name(entries, name) {
        Some(entries[index_of_name(entries, name)].1)
    } else {
        None
    }
}

/// `entries` after `value` was stored under `name`: in the place of the value
/// that was there, or at the end where there was none.
pub open spec fn inserted(
    entries: Seq<(Seq<char>, Seq<char>)>,
    name: Seq<char>,
    value: Seq<char>,
) -> Seq<(Seq<char>, Seq<char>)> {
    if has_name(entries, name) {
        entries.update(index_of_name(entries, name), (name, value))
    } else {
        entries.push((name, value))
    }
}

/// Whether no name occurs twice in `entries`.
pub open spec fn distinct_names(entries: Seq<(Seq<char>, Seq<char>)>) -> bool {
    forall|i: int, j: int|
        0 <= i < j < entries.len() ==> (#[trigger] entries[i]).0 != (#[trigger] entries[j]).0
}

/// A named value of an event.
#[derive(Debug, PartialEq, Eq)]
pub struct Field {
    pub name: String,
    pub value: String,
}

impl View for Field {
    type V = (Seq<char>, Seq<char>);

    open spec fn view(&self) -> (Seq<char>, Seq<char>) {
        (self.name@, self.value@)
    }
}

impl Clone for Field {
    fn clone(&self) -> (copy: Field)
        ensures
            copy == *self,
    {
        Field { name: self.name.clone(), value: self.value.clone() }
    }
}

/// The named values of an event: a mapping from field name to text that keeps
/// the order in which the names were first stored.
#[derive(Debug, PartialEq, Eq)]
pub struct Fields {
    entries: Vec<Field>,
}

impl View for Fields {
    type V = Seq<(Seq<char>, Seq<char>)>;

    closed spec fn view(&self) -> Seq<(Seq<char>, Seq<char>)> {
        self.entries@.map_values(|field: Field| field@)
    }
}

impl Fields {
    #[verifier::type_invariant]
    spec fn no_name_twice(self) -> bool {
        distinct_names(self@)
    }

    /// No fields at all.
    pub fn new() -> (fields: Fields)
        ensures
            fields@ == Seq::<(Seq<char>, Seq<char>)>::empty(),
    {
        let fields = Fields { entries: Vec::new() };
        assert(fields@ =~= Seq::<(Seq<char>, Seq<char>)>::empty());
        fields
    }

    /// The number of fields. No two of them share a name.
    pub fn len(&self) -> (count: usize)
        ensures
            count == self@.len(),
            distinct_names(self@),
    {
        proof {
            use_type_invariant(self);
        }
        self.entries.len()
    }

    /// Whether there is no field.
    pub fn is_empty(&self) -> (empty: bool)
        ensures
            empty == (self@.len() == 0),
    {
        self.entries.len() == 0
    }

    /// The fields in the order in which their names were first stored.
    pub fn entries(&self) -> (entries: &Vec<Field>)
        ensures
            entries@.map_values(|field: Field| field@) == self@,
    {
        &self.entries
    }

    /// Where the field called `name` stands, if there is one.
    fn find(&self, name: &str) -> (found: Option<usize>)
        ensures
            found is Some <==> has_name(self@, name@),
            found matches Some(i) ==> i == index_of_name(self@, name@) && i < self.entries.len(),
    {
        proof {
            use_type_invariant(self);
        }
        let wanted = name.to_owned();
        let mut i: usize = 0;
        while i < self.entries.len()
            invariant
                i <= self.entries.len(),
                wanted@ == name@,
                distinct_names(self@),
                forall|k: int| 0 <= k < i ==> (#[trigger] self@[k]).0 != name@,
            decreases self.entries.len() - i,
        {
            if self.entries[i].name == wanted {
                proof {
                    assert(self@[i as int].0 == name@);
                    let chosen = index_of_name(self@, name@);
                    assert(self@[chosen].0 == name@);
                    assert(chosen == i);
                }
                return Some(i);
            }
            i += 1;
        }
        None
    }

    /// The value stored under `name`, if any.
    pub fn get(&self, name: &str) -> (value: Option<&String>)
        ensures
            match value {
                Some(text) => lookup(self@, name@) == Some(text@),
                None => lookup(self@, name@) is None,
            },
    {
        match self.find(name) {
            Some(i) => {
                let field = &self.entries[i];
                assert(self@[i as int] == field@);
                Some(&field.value)
            },
            None => None,
        }
    }

    /// Stores `value` under `name` and returns the value it replaces. A new
    /// name goes to the end; a known one keeps its place.
    pub fn insert(&mut self, name: String, value: String) -> (previous: Option<String>)
        ensures
            final(self)@ == inserted(old(self)@, name@, value@),
            match previous {
                Some(text) => lookup(old(self)@, name@) == Some(text@),
                None => lookup(old(self)@, name@) is None,
            },
    {
        proof {
            use_type_invariant(&*self);
        }
        let found = self.find(name.as_str());
        let mut entries = Vec::new();
        std::mem::swap(&mut self.entries, &mut entries);
        let ghost before = entries@.map_values(|field: Field| field@);
        assert(self@ =~= Seq::<(Seq<char>, Seq<char>)>::empty());
        let previous = match found {
            Some(i) => {
                let replaced = entries[i].value.clone();
                assert(before[i as int] == entries@[i as int]@);
                entries.set(i, Field { name, value });
                assert(entries@.map_values(|field: Field| field@) =~= before.update(
                    i as int,
                    (name@, value@),
                ));
                Some(replaced)
            },
            None => {
                entries.push(Field { name, value });
                assert(entries@.map_values(|field: Field| field@) =~= before.push(
                    (name@, value@),
                ));
                None
            },
        };
        proof {
            law_insert_keeps_names_distinct(before, name@, value@);
        }
        self.entries = entries;
        previous
    }
}

impl Clone for Fields {
    fn clone(&self) -> (copy: Fields)
        ensures
            copy@ == self@,
    {
        proof {
            use_type_invariant(self);
        }
        let mut entries: Vec<Field> = Vec::new();
        let mut i: usize = 0;
        while i < self.entries.len()
            invariant
                i <= self.entries.len(),
                entries@ == self.entries@.take(i as int),
            decreases self.entries.len() - i,
        {
            entries.push(self.entries[i].clone());
            assert(entries@ =~= self.entries@.take(i as int + 1));
            i += 1;
        }
        assert(entries@ =~= self.entries@);
        Fields { entries }
    }
}

/// What an event is to the contracts of this library.
pub ghost struct EventView {
    pub timestamp: SystemTime,
    pub level: Level,
    pub target: Seq<char>,
    pub fields: Seq<(Seq<char>, Seq<char>)>,
}

/// One recorded occurrence. An event is never changed after it was made: the
/// store, the filters and the viewer only read it.
#[derive(Debug, PartialEq, Eq)]
pub struct Event {
    /// When the event was recorded.
    pub timestamp: SystemTime,
    /// How severe it is.
    pub level: Level,
    /// The source that emitted it, such as `module::submodule`.
    pub target: String,
    /// The named values it carries.
    pub fields: Fields,
}

impl View for Event {
    type V = EventView;

    open spec fn view(&self) -> EventView {
        EventView {
            timestamp: self.timestamp,
            level: self.level,
            target: self.target@,
            fields: self.fields@,
        }
    }
}

impl Clone for Event {
    fn clone(&self) -> (copy: Event)
        ensures
            copy@ == self@,
    {
        Event {
            timestamp: self.timestamp,
            level: self.level,
            target: self.target.clone(),
            fields: self.fields.clone(),
        }
    }
}

impl Event {
    /// The text under the conventional `message` field. An event without one
    /// is an ordinary event.
    pub fn message(&self) -> (message: Option<&String>)
        ensures
            match message {
                Some(text) => lookup(self@.fields, MESSAGE@) == Some(text@),
                None => lookup(self@.fields, MESSAGE@) is None,
            },
    {
        self.fields.get(MESSAGE)
    }
}

/// What each event of `events` is to the contracts, in the same order.
pub open spec fn views(events: Seq<Event>) -> Seq<EventView> {
    events.map_values(|event: Event| event@)
}

/// Storing a value keeps every name unique.
pub proof fn law_insert_keeps_names_distinct(
    entries: Seq<(Seq<char>, Seq<char>)>,
    name: Seq<char>,
    value: Seq<char>,
)
    requires
        distinct_names(entries),
    ensures
        distinct_names(inserted(entries, name, value)),
        lookup(inserted(entries, name, value), name) == Some(value),
        forall|other: Seq<char>|
            other != name ==> lookup(inserted(entries, name, value), other) == lookup(
                entries,
                other,
            ),
{
    let after = inserted(entries, name, value);
    let at = if has_name(entries, name) {
        index_of_name(entries, name)
    } else {
        entries.len() as int
    };
    assert(after[at] == (name, value));
    assert(has_name(after, name));
    assert(index_of_name(after, name) == at);
    assert forall|other: Seq<char>| other != name implies lookup(after, other) == lookup(
        entries,
        other,
    ) by {
        if has_name(entries, other) {
            let k = index_of_name(entries, other);
            assert(after[k] == entries[k]);
            assert(has_name(after, other));
            assert(index_of_name(after, other) == k);
        } else if has_name(after, other) {
            let k = index_of_name(after, other);
            assert(entries[k].0 == other);
        }
    }
}

} // verus!
