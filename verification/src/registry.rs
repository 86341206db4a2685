//! The event dispatch registry: a dual table from `(version, event)` pairs
//! to request-decoder factories and to listener callbacks.

use vstd::prelude::*;
use vstd::string::StringExecFns;

use crate::errors::{Error, ErrorKind};

verus! {

/// The map an entry list stands for: a later entry for a key replaces an
/// earlier one.
pub open spec fn entries_map<V>(s: Seq<((u8, u16), V)>) -> Map<(u8, u16), V>
    decreases s.len(),
{
    if s.len() == 0 {
        Map::empty()
    } else {
        entries_map(s.drop_last()).insert(s.last().0, s.last().1)
    }
}

/// A registry of factories and listeners, keyed by `(version, event_id)`.
///
/// `F` is the factory a frame is routed to; `L` is the listener that turns
/// a decoded request into response arguments. Insertions replace; for any
/// key, at most one factory and one listener are registered at any instant.
pub struct EventRegistry<F, L> {
    events: Vec<((u8, u16), F)>,
    listeners: Vec<((u8, u16), L)>,
}

impl<F, L> EventRegistry<F, L> {
    /// The factories as a functional map.
    pub closed spec fn events_map(&self) -> Map<(u8, u16), F> {
        entries_map(self.events@)
    }

    /// The listeners as a functional map.
    pub closed spec fn listeners_map(&self) -> Map<(u8, u16), L> {
        entries_map(self.listeners@)
    }

    /// Creates an empty registry.
    pub fn new() -> (r: EventRegistry<F, L>)
        ensures
            r.events_map() == Map::<(u8, u16), F>::empty(),
            r.listeners_map() == Map::<(u8, u16), L>::empty(),
    {
        EventRegistry { events: Vec::new(), listeners: Vec::new() }
    }

    /// Registers or replaces the factory for an event id.
    pub fn add_event(&mut self, event_id: (u8, u16), event_fn: F)
        ensures
            final(self).events_map() == old(self).events_map().insert(event_id, event_fn),
            final(self).listeners_map() == old(self).listeners_map(),
    {
        let ghost prev = self.events@;
        self.events.push((event_id, event_fn));
        proof {
            assert(self.events@.drop_last() =~= prev);
        }
    }

    /// Registers or replaces the listener for an event id.
    pub fn add_listener(&mut self, event_id: (u8, u16), listener_fn: L)
        ensures
            final(self).listeners_map() == old(self).listeners_map().insert(
                event_id,
                listener_fn,
            ),
            final(self).events_map() == old(self).events_map(),
    {
        let ghost prev = self.listeners@;
        self.listeners.push((event_id, listener_fn));
        proof {
            assert(self.listeners@.drop_last() =~= prev);
        }
    }

    /// Returns the factory registered for an event id, if any.
    pub fn get_event(&self, event_id: (u8, u16)) -> (r: Option<&F>)
        ensures
            r is Some <==> self.events_map().contains_key(event_id),
            r is Some ==> *r->Some_0 == self.events_map()[event_id],
    {
        lookup(&self.events, event_id)
    }

    /// Returns the listener registered for an event id, if any.
    pub fn get_listener(&self, event_id: (u8, u16)) -> (r: Option<&L>)
        ensures
            r is Some <==> self.listeners_map().contains_key(event_id),
            r is Some ==> *r->Some_0 == self.listeners_map()[event_id],
    {
        lookup(&self.listeners, event_id)
    }

    /// Routes an incoming frame's version and event to its factory; a key
    /// with no factory is the `NotFound` fault (code 404) that the
    /// transport answers with an error response.
    pub fn route(&self, version: u8, event: u16) -> (r: Result<&F, Error>)
        ensures
            r is Ok <==> self.events_map().contains_key((version, event)),
            r is Ok ==> *r->Ok_0 == self.events_map()[(version, event)],
            r is Err ==> r->Err_0.code == 404 && r->Err_0.kind is NotFound
                && r->Err_0.message@ == "Event not found"@,
    {
        match self.get_event((version, event)) {
            Some(f) => Ok(f),
            None => Err(Error {
                code: 404,
                message: String::from_str("Event not found"),
                kind: ErrorKind::NotFound,
            }),
        }
    }
}

/// Finds the value that the entry list's map gives a key: the latest entry
/// wins.
fn lookup<V>(entries: &Vec<((u8, u16), V)>, event_id: (u8, u16)) -> (r: Option<&V>)
    ensures
        r is Some <==> entries_map(entries@).contains_key(event_id),
        r is Some ==> *r->Some_0 == entries_map(entries@)[event_id],
{
    let ghost whole = entries@;
    let mut i: usize = entries.len();
    proof {
        assert(entries@.take(entries@.len() as int) =~= entries@);
    }
    while i > 0
        invariant
            i <= entries@.len(),
            whole == entries@,
            entries_map(whole).contains_key(event_id) <==> entries_map(
                entries@.take(i as int),
            ).contains_key(event_id),
            entries_map(whole).contains_key(event_id) ==> entries_map(whole)[event_id]
                == entries_map(entries@.take(i as int))[event_id],
        decreases i,
    {
        i = i - 1;
        proof {
            assert(entries@.take(i + 1).drop_last() =~= entries@.take(i as int));
            assert(entries@.take(i + 1).last() == entries@[i as int]);
        }
        let k = entries[i].0;
        if k.0 == event_id.0 && k.1 == event_id.1 {
            proof {
                assert(k == event_id);
            }
            return Some(&entries[i].1);
        }
    }
    proof {
        assert(entries@.take(0) =~= Seq::<((u8, u16), V)>::empty());
    }
    None
}

/// Whether a lookup result agrees with a functional map at a key.
pub open spec fn lookup_consistent<V>(m: Map<(u8, u16), V>, id: (u8, u16), r: Option<V>) -> bool {
    r == (if m.contains_key(id) {
        Some(m[id])
    } else {
        None::<V>
    })
}

/// The registry is a functional map: at any instant, a key resolves to at
/// most one factory and at most one listener, so any two lookups of the
/// same registry state agree.
pub proof fn lemma_registry_functional<F, L>(
    reg: EventRegistry<F, L>,
    id: (u8, u16),
    f1: Option<F>,
    f2: Option<F>,
    l1: Option<L>,
    l2: Option<L>,
)
    requires
        lookup_consistent(reg.events_map(), id, f1),
        lookup_consistent(reg.events_map(), id, f2),
        lookup_consistent(reg.listeners_map(), id, l1),
        lookup_consistent(reg.listeners_map(), id, l2),
    ensures
        f1 == f2,
        l1 == l2,
{
}

} // verus!
