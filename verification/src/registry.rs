//! The registry: the one place that holds the active event store, or none
//! before initialisation. It is an explicit value that the owner of the
//! process creates and hands to whoever emits or queries.
//!
//! Initialisation is first-writer-wins: once a store is installed, further
//! initialisations leave it in place.

use vstd::prelude::*;
use vstd::string::*;
use std::sync::Arc;
use crate::event::Event;
use crate::events::{Delivery, EventTarget};
use crate::level::Level;
use crate::manager::{events_in, has_level, pushed, EventManager, DEFAULT_MAX_EVENTS};
use crate::text::{decimal, decimal_text};

verus! {

/// Holds the active store, if one has been installed.
#[derive(Debug)]
pub struct Registry {
    pub manager: Option<EventManager>,
}

impl Registry {
    /// A registry in which no store has been installed yet.
    pub fn new() -> (r: Registry)
        ensures
            r.manager is None,
    {
        Registry { manager: None }
    }

    /// Whether a store has been installed.
    pub fn is_initialized(&self) -> (r: bool)
        ensures
            r == (self.manager is Some),
    {
        self.manager.is_some()
    }

    /// The registry after an initialisation that asks for `capacity`: a
    /// store that is installed already stays; else an empty one is installed.
    pub open spec fn initialized_with(before: Registry, after: Registry, capacity: nat) -> bool {
        match before.manager {
            Some(m) => after == before,
            None => {
                &&& after.manager is Some
                &&& after.manager.unwrap()@ == Seq::<Event>::empty()
                &&& after.manager.unwrap().capacity() == capacity
                &&& after.manager.unwrap().target().listeners() == Seq::<u128>::empty()
                &&& after.manager.unwrap().target().channel() == Seq::<Arc<Event>>::empty()
                &&& after.manager.unwrap().wf()
            },
        }
    }
}

/// Installs a store of the default capacity, unless one is installed already.
pub fn init_global_event_manager(registry: &mut Registry)
    ensures
        Registry::initialized_with(*old(registry), *final(registry), DEFAULT_MAX_EVENTS as nat),
{
    if registry.manager.is_none() {
        registry.manager = Some(EventManager::new(None));
    }
}

/// Installs a store that keeps at most `max_events` events, unless one is
/// installed already.
pub fn init_global_event_manager_with_count(registry: &mut Registry, max_events: usize)
    ensures
        Registry::initialized_with(*old(registry), *final(registry), max_events as nat),
{
    if registry.manager.is_none() {
        registry.manager = Some(EventManager::new(Some(max_events)));
    }
}

/// Sets up event capture: installs a store of the default capacity, unless
/// one is installed already.
pub fn init(registry: &mut Registry)
    ensures
        Registry::initialized_with(*old(registry), *final(registry), DEFAULT_MAX_EVENTS as nat),
{
    init_global_event_manager(registry);
}

/// Sets up event capture for use beside a subscriber that exists already.
pub fn init_layer_only(registry: &mut Registry)
    ensures
        Registry::initialized_with(*old(registry), *final(registry), DEFAULT_MAX_EVENTS as nat),
{
    init_global_event_manager(registry);
}

/// Shared handles to all events of the active store, newest first; `None`
/// where no store is installed.
pub fn get_global_events(registry: &Registry) -> (r: Option<Vec<Arc<Event>>>)
    ensures
        r is Some <==> registry.manager is Some,
        r is Some ==> events_in(r.unwrap()@) == registry.manager.unwrap()@,
{
    match &registry.manager {
        Some(manager) => Some(manager.snapshot()),
        None => None,
    }
}

/// The number of events in the active store; 0 where no store is installed.
pub fn get_global_event_count(registry: &Registry) -> (r: usize)
    ensures
        r == (match registry.manager {
            Some(m) => m@.len(),
            None => 0,
        }),
{
    match &registry.manager {
        Some(manager) => manager.len(),
        None => 0,
    }
}

/// Stores `event` in the active store and publishes it on its bus; `None`,
/// and nothing changes, where no store is installed.
pub fn emit(registry: &mut Registry, event: Event) -> (r: Option<Delivery<Event>>)
    ensures
        r is Some <==> old(registry).manager is Some,
        final(registry).manager is Some <==> old(registry).manager is Some,
        r is Some ==> {
            let before = old(registry).manager.unwrap();
            let after = final(registry).manager.unwrap();
            let delivery = r.unwrap();
            &&& *delivery.value == event
            &&& delivery.listeners@ == before.target().listeners()
            &&& after@ == pushed(before@, event, before.capacity())
            &&& after.capacity() == before.capacity()
            &&& after.target().listeners() == before.target().listeners()
            &&& after.target().channel() == before.target().channel().push(delivery.value)
            &&& (before.wf() ==> after.wf())
        },
{
    match &mut registry.manager {
        Some(manager) => Some(manager.emit(event)),
        None => None,
    }
}

/// The bus of the active store; `None` where no store is installed.
pub fn events(registry: &Registry) -> (r: Option<&EventTarget<Event>>)
    ensures
        r is Some <==> registry.manager is Some,
        r is Some ==> *r.unwrap() == registry.manager.unwrap().target(),
{
    match &registry.manager {
        Some(manager) => Some(manager.bus()),
        None => None,
    }
}

/// Empties the active store. Its bus and its subscriptions stay as they are.
pub fn clear_global_events(registry: &mut Registry)
    ensures
        final(registry).manager is Some <==> old(registry).manager is Some,
        final(registry).manager is Some ==> {
            let before = old(registry).manager.unwrap();
            let after = final(registry).manager.unwrap();
            &&& after@ == Seq::<Event>::empty()
            &&& after.capacity() == before.capacity()
            &&& after.target() == before.target()
            &&& (before.wf() ==> after.wf())
        },
{
    match &mut registry.manager {
        Some(manager) => {
            manager.clear();
        },
        None => {},
    }
}

/// The line of a summary for one level: the level's label and the number
/// of events of that level; nothing where there is none.
pub open spec fn level_line_text(history: Seq<Event>, level: Level) -> Seq<char> {
    let count = history.filter(has_level(level)).len();
    if count > 0 {
        "  "@ + level.spec_label() + ": "@ + decimal_text(count) + "\n"@
    } else {
        Seq::empty()
    }
}

/// The summary of a history: the number of events, and a line for each
/// level that occurs, the most severe first.
pub open spec fn summary_text(history: Seq<Event>) -> Seq<char> {
    "Event Summary: "@ + decimal_text(history.len()) + " total events\n"@ + level_line_text(
        history,
        Level::Error,
    ) + level_line_text(history, Level::Warn) + level_line_text(history, Level::Info)
        + level_line_text(history, Level::Debug) + level_line_text(history, Level::Trace)
}

fn write_level_line(out: &mut String, manager: &EventManager, level: Level)
    ensures
        final(out)@ == old(out)@ + level_line_text(manager@, level),
{
    let ghost start = out@;
    let found = manager.get_by_level(level);
    let count = found.len();
    assert(count == manager@.filter(has_level(level)).len()) by {
        assert(crate::manager::events_of(found@).len() == found@.len());
    }
    if count > 0 {
        out.append("  ");
        out.append(level.label().as_str());
        out.append(": ");
        out.append(decimal(count as u64).as_str());
        out.append("\n");
        assert(out@ =~= start + level_line_text(manager@, level));
    } else {
        assert(out@ =~= start + level_line_text(manager@, level));
    }
}

/// A short account of the active store: how many events it holds, and how
/// many of each level. Where no store is installed, a note that nothing was
/// captured.
pub fn get_event_summary(registry: &Registry) -> (r: String)
    ensures
        r@ == (match registry.manager {
            Some(m) => summary_text(m@),
            None => "No events captured"@,
        }),
{
    match &registry.manager {
        Some(manager) => {
            let mut summary = String::from_str("Event Summary: ");
            summary.append(decimal(manager.len() as u64).as_str());
            summary.append(" total events\n");
            write_level_line(&mut summary, manager, Level::Error);
            write_level_line(&mut summary, manager, Level::Warn);
            write_level_line(&mut summary, manager, Level::Info);
            write_level_line(&mut summary, manager, Level::Debug);
            write_level_line(&mut summary, manager, Level::Trace);
            assert(summary@ =~= summary_text(manager@));
            summary
        },
        None => String::from_str("No events captured"),
    }
}

} // verus!
