//! Work that is under way: the operations of sessions and of providers, and the events that
//! are being handled.

use crate::arguments;
use crate::text;
use crate::text::Failure;
use vstd::prelude::*;

verus! {

/// Values by name; a later entry replaces an earlier one.
#[derive(Debug)]
pub struct Table<V: Copy> {
    pub entries: Vec<(String, V)>,
}

/// The map that a list of entries stands for.
pub open spec fn named<V: Copy>(entries: Seq<(String, V)>) -> Map<Seq<char>, V>
    decreases entries.len(),
{
    if entries.len() == 0 {
        Map::empty()
    } else {
        named(entries.drop_last()).insert(entries.last().0@, entries.last().1)
    }
}

impl<V: Copy> View for Table<V> {
    type V = Map<Seq<char>, V>;

    open spec fn view(&self) -> Map<Seq<char>, V> {
        named(self.entries@)
    }
}

impl<V: Copy> Table<V> {
    /// A table that holds nothing.
    pub fn new() -> (table: Table<V>)
        ensures
            table@ == Map::<Seq<char>, V>::empty(),
    {
        Table { entries: Vec::new() }
    }

    /// The value under a name.
    pub fn get(&self, name: &str) -> (value: Option<V>)
        ensures
            value == if self@.contains_key(name@) {
                Some(self@[name@])
            } else {
                None
            },
    {
        let mut i: usize = self.entries.len();
        assert(self.entries@.take(i as int) =~= self.entries@);
        while i > 0
            invariant
                i <= self.entries.len(),
                self@.contains_key(name@) == named(self.entries@.take(i as int)).contains_key(
                    name@,
                ),
                self@.contains_key(name@) ==> self@[name@] == named(
                    self.entries@.take(i as int),
                )[name@],
            decreases i,
        {
            assert(self.entries@.take(i as int).drop_last() =~= self.entries@.take(i - 1));
            if *self.entries[i - 1].0.as_str() == *name {
                return Some(self.entries[i - 1].1);
            }
            i = i - 1;
        }
        None
    }

    /// Forgets what is under a name.
    pub fn remove(&mut self, name: &str)
        ensures
            final(self)@ == old(self)@.remove(name@),
    {
        let mut kept: Vec<(String, V)> = Vec::new();
        let mut i: usize = 0;
        assert(named(kept@) =~= named(self.entries@.take(0)).remove(name@));
        while i < self.entries.len()
            invariant
                i <= self.entries.len(),
                *self == *old(self),
                named(kept@) == named(self.entries@.take(i as int)).remove(name@),
            decreases self.entries.len() - i,
        {
            let ghost before = kept@;
            assert(self.entries@.take(i + 1).drop_last() =~= self.entries@.take(i as int));
            let entry = &self.entries[i];
            if *entry.0.as_str() != *name {
                kept.push((entry.0.as_str().to_owned(), entry.1));
                assert(kept@.drop_last() =~= before);
            }
            assert(named(kept@) =~= named(self.entries@.take(i + 1)).remove(name@));
            i = i + 1;
        }
        assert(self.entries@.take(self.entries.len() as int) =~= self.entries@);
        self.entries = kept;
    }

    /// Puts a value under a name, in place of what was there.
    pub fn insert(&mut self, name: &str, value: V)
        ensures
            final(self)@ == old(self)@.insert(name@, value),
    {
        self.remove(name);
        let ghost before = self.entries@;
        self.entries.push((name.to_owned(), value));
        assert(self.entries@.drop_last() =~= before);
        assert(self@ =~= old(self)@.insert(name@, value));
    }

    /// Forgets what is under no name of the list.
    pub fn retain(&mut self, names: &Vec<String>)
        ensures
            final(self)@ == listed_only(old(self)@, names.deep_view()),
    {
        let mut kept: Vec<(String, V)> = Vec::new();
        let mut i: usize = 0;
        assert(named(kept@) =~= listed_only(named(self.entries@.take(0)), names.deep_view()));
        while i < self.entries.len()
            invariant
                i <= self.entries.len(),
                *self == *old(self),
                named(kept@) == listed_only(
                    named(self.entries@.take(i as int)),
                    names.deep_view(),
                ),
            decreases self.entries.len() - i,
        {
            let ghost before = kept@;
            assert(self.entries@.take(i + 1).drop_last() =~= self.entries@.take(i as int));
            let entry = &self.entries[i];
            if text::among(names, entry.0.as_str()) {
                kept.push((entry.0.as_str().to_owned(), entry.1));
                assert(kept@.drop_last() =~= before);
            }
            assert(named(kept@) =~= listed_only(
                named(self.entries@.take(i + 1)),
                names.deep_view(),
            ));
            i = i + 1;
        }
        assert(self.entries@.take(self.entries.len() as int) =~= self.entries@);
        self.entries = kept;
    }
}

/// What is under a name of a list.
pub open spec fn listed_only<V>(values: Map<Seq<char>, V>, names: Seq<Seq<char>>) -> Map<
    Seq<char>,
    V,
> {
    Map::new(
        |name: Seq<char>| values.contains_key(name) && names.contains(name),
        |name: Seq<char>| values[name],
    )
}

/// The operation that each session is at.
#[derive(Debug)]
pub struct SessionOperations {
    pub active: Table<u128>,
}

impl View for SessionOperations {
    type V = Map<Seq<char>, u128>;

    open spec fn view(&self) -> Map<Seq<char>, u128> {
        self.active@
    }
}

/// The operations once one of a session has ended: what has taken its place stays.
pub open spec fn without_operation(
    active: Map<Seq<char>, u128>,
    session_id: Seq<char>,
    operation_id: u128,
) -> Map<Seq<char>, u128> {
    if active.contains_key(session_id) && active[session_id] == operation_id {
        active.remove(session_id)
    } else {
        active
    }
}

impl SessionOperations {
    /// No session is at anything.
    pub fn new() -> (operations: SessionOperations)
        ensures
            operations@ == Map::<Seq<char>, u128>::empty(),
    {
        SessionOperations { active: Table::new() }
    }

    /// A session begins an operation.
    pub fn register_operation(&mut self, session_id: &str, operation_id: u128)
        ensures
            final(self)@ == old(self)@.insert(session_id@, operation_id),
    {
        self.active.insert(session_id, operation_id);
    }

    /// An operation of a session has ended.
    pub fn remove_operation(&mut self, session_id: &str, operation_id: u128)
        ensures
            final(self)@ == without_operation(old(self)@, session_id@, operation_id),
    {
        if let Some(active) = self.active.get(session_id) {
            if active == operation_id {
                self.active.remove(session_id);
            }
        }
    }

    /// The operation that is stopped when its session is.
    pub fn signal_stop(&self, session_id: &str) -> (operation: Option<u128>)
        ensures
            operation == if self@.contains_key(session_id@) {
                Some(self@[session_id@])
            } else {
                None
            },
    {
        self.active.get(session_id)
    }
}

/// The end of an operation does not forget the one that took its place, nor those of other
/// sessions.
pub proof fn ended_operations_forget_only_themselves(
    active: Map<Seq<char>, u128>,
    session_id: Seq<char>,
    earlier: u128,
    later: u128,
    other: Seq<char>,
)
    requires
        earlier != later,
        other != session_id,
    ensures
        ({
            let after = without_operation(active.insert(session_id, later), session_id, earlier);
            after[session_id] == later && after.contains_key(other) == active.contains_key(other)
                && (active.contains_key(other) ==> after[other] == active[other])
        }),
        !without_operation(active.insert(session_id, later), session_id, later).contains_key(
            session_id,
        ),
{
}

/// Whether an operation of a provider still hears that it is cancelled.
#[derive(Clone, Copy, Debug, PartialEq, Eq)]
pub enum Listener {
    /// It does, and has been told or not.
    Listening { cancelled: bool },
    /// Its identifier was taken a second time, and nobody listens under it.
    Deaf,
}

/// The operations of providers, by their identifiers.
#[derive(Debug)]
pub struct ProviderOperations {
    pub active: Table<Listener>,
}

impl View for ProviderOperations {
    type V = Map<Seq<char>, Listener>;

    open spec fn view(&self) -> Map<Seq<char>, Listener> {
        self.active@
    }
}

impl ProviderOperations {
    /// No operation is under way.
    pub fn new() -> (operations: ProviderOperations)
        ensures
            operations@ == Map::<Seq<char>, Listener>::empty(),
    {
        ProviderOperations { active: Table::new() }
    }

    /// Begins an operation; its identifier must not be in use.
    pub fn register(&mut self, operation_id: &str) -> (outcome: Result<(), Failure>)
        ensures
            arguments::checked(outcome) == if old(self)@.contains_key(operation_id@) {
                Err::<(), Seq<char>>("subagent operation identifier is already active"@)
            } else {
                Ok::<(), Seq<char>>(())
            },
            final(self)@ == old(self)@.insert(
                operation_id@,
                if old(self)@.contains_key(operation_id@) {
                    Listener::Deaf
                } else {
                    Listener::Listening { cancelled: false }
                },
            ),
    {
        if self.active.get(operation_id).is_some() {
            self.active.insert(operation_id, Listener::Deaf);
            return Err(Failure::fixed("subagent operation identifier is already active"));
        }
        self.active.insert(operation_id, Listener::Listening { cancelled: false });
        Ok(())
    }

    /// Cancels an operation. Whether it was told.
    pub fn cancel(&mut self, operation_id: &str) -> (told: bool)
        ensures
            told == (old(self)@.contains_key(operation_id@) && old(self)@[operation_id@]
                is Listening),
            final(self)@ == if told {
                old(self)@.insert(operation_id@, Listener::Listening { cancelled: true })
            } else {
                old(self)@
            },
    {
        match self.active.get(operation_id) {
            Some(Listener::Listening { cancelled: _ }) => {
                self.active.insert(operation_id, Listener::Listening { cancelled: true });
                true
            },
            _ => false,
        }
    }

    /// An operation has ended.
    pub fn finish(&mut self, operation_id: &str)
        ensures
            final(self)@ == old(self)@.remove(operation_id@),
    {
        self.active.remove(operation_id);
    }
}

/// The events that are being handled, and those that are not handled before a time.
#[derive(Debug)]
pub struct EventGate {
    pub in_flight: Table<bool>,
    /// In nanoseconds.
    pub not_before: Table<u128>,
}

/// Whether an event is handled now: it is not being handled, and its time has come.
pub open spec fn may_start(gate: EventGate, id: Seq<char>, now: u128) -> bool {
    &&& !gate.in_flight@.contains_key(id)
    &&& gate.not_before@.contains_key(id) ==> now >= gate.not_before@[id]
}

impl EventGate {
    /// No event is being handled.
    pub fn new() -> (gate: EventGate)
        ensures
            gate.in_flight@ == Map::<Seq<char>, bool>::empty(),
            gate.not_before@ == Map::<Seq<char>, u128>::empty(),
    {
        EventGate { in_flight: Table::new(), not_before: Table::new() }
    }

    /// Forgets when the events were to be tried again that are listed no more.
    pub fn list(&mut self, ids: &Vec<String>)
        ensures
            final(self).in_flight@ == old(self).in_flight@,
            final(self).not_before@ == listed_only(old(self).not_before@, ids.deep_view()),
    {
        self.not_before.retain(ids);
    }

    /// Whether an event is handled now; from then on it is.
    pub fn start(&mut self, id: &str, now: u128) -> (started: bool)
        ensures
            started == may_start(*old(self), id@, now),
            final(self).not_before@ == old(self).not_before@,
            final(self).in_flight@ == if started {
                old(self).in_flight@.insert(id@, true)
            } else {
                old(self).in_flight@
            },
    {
        if let Some(time) = self.not_before.get(id) {
            if now < time {
                return false;
            }
        }
        if self.in_flight.get(id).is_some() {
            return false;
        }
        self.in_flight.insert(id, true);
        true
    }

    /// An event has been handled.
    pub fn finish(&mut self, id: &str)
        ensures
            final(self).not_before@ == old(self).not_before@,
            final(self).in_flight@ == old(self).in_flight@.remove(id@),
    {
        self.in_flight.remove(id);
    }

    /// An event that failed is tried again at a time; one that succeeded is forgotten.
    pub fn note(&mut self, id: &str, again: Option<u128>)
        ensures
            final(self).in_flight@ == old(self).in_flight@,
            final(self).not_before@ == match again {
                Some(time) => old(self).not_before@.insert(id@, time),
                None => old(self).not_before@.remove(id@),
            },
    {
        match again {
            Some(time) => self.not_before.insert(id, time),
            None => self.not_before.remove(id),
        }
    }
}

/// An event is not handled a second time before the first has ended, whatever the time.
pub proof fn events_are_handled_one_at_a_time(before: EventGate, after: EventGate, id: Seq<char>, now: u128, later: u128)
    requires
        may_start(before, id, now),
        after.in_flight@ == before.in_flight@.insert(id, true),
        after.not_before@ == before.not_before@,
    ensures
        !may_start(after, id, later),
{
}

/// What is listed stays as it was, and what is not is forgotten.
pub proof fn unlisted_values_are_forgotten<V>(
    values: Map<Seq<char>, V>,
    names: Seq<Seq<char>>,
    name: Seq<char>,
)
    ensures
        listed_only(values, names).contains_key(name) <==> values.contains_key(name)
            && names.contains(name),
        listed_only(values, names).contains_key(name) ==> listed_only(values, names)[name]
            == values[name],
{
}

/// An operation that ended is forgotten where it is still the one of its session; a newer
/// one of the session and those of other sessions stay.
pub proof fn newer_operations_stay(
    active: Map<Seq<char>, u128>,
    session_id: Seq<char>,
    operation_id: u128,
    other: Seq<char>,
)
    ensures
        ({
            let left = without_operation(active, session_id, operation_id);
            &&& active.contains_key(session_id) && active[session_id] == operation_id
                ==> !left.contains_key(session_id)
            &&& active.contains_key(session_id) && active[session_id] != operation_id ==> left
                == active
            &&& other != session_id ==> (left.contains_key(other) <==> active.contains_key(other))
            &&& other != session_id && active.contains_key(other) ==> left[other] == active[other]
        }),
{
}

/// An event is started where it is not being handled and its time has come.
pub proof fn events_start_when_their_time_comes(gate: EventGate, id: Seq<char>, now: u128)
    ensures
        gate.in_flight@.contains_key(id) ==> !may_start(gate, id, now),
        !gate.in_flight@.contains_key(id) && !gate.not_before@.contains_key(id) ==> may_start(
            gate,
            id,
            now,
        ),
        !gate.in_flight@.contains_key(id) && gate.not_before@.contains_key(id) ==> (may_start(
            gate,
            id,
            now,
        ) <==> gate.not_before@[id] <= now),
{
}

} // verus!
