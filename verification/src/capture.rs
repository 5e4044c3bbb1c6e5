//! From what an instrumented call site reports to a stored and published
//! event.

use vstd::prelude::*;
use vstd::string::*;
use crate::event::{opt_string_text, uuid_like_string_at, uuid_like_text, Event};
use crate::event_data::EventData;
use crate::events::Delivery;
use crate::fields::{entries_with, FieldMap};
use crate::level::Level;
use crate::text::str_eq;
use crate::manager::pushed;
use crate::registry::{emit, Registry};
use crate::time::Timestamp;

verus! {

/// A text without the double quotes at its end.
pub open spec fn trim_end_quotes(s: Seq<char>) -> Seq<char>
    decreases s.len(),
{
    if s.len() > 0 && s.last() == '"' {
        trim_end_quotes(s.drop_last())
    } else {
        s
    }
}

/// A text without the double quotes at its start.
pub open spec fn trim_start_quotes(s: Seq<char>) -> Seq<char>
    decreases s.len(),
{
    if s.len() > 0 && s.first() == '"' {
        trim_start_quotes(s.drop_first())
    } else {
        s
    }
}

/// A text without the double quotes at its two ends.
pub open spec fn trim_quotes(s: Seq<char>) -> Seq<char> {
    trim_end_quotes(trim_start_quotes(s))
}

/// Calls `str::trim_matches` of the standard library with the double quote
/// as the pattern, and copies the slice that it gives. By its
/// documentation the slice is the text with every leading and every
/// trailing match of the pattern removed.
#[verifier::external_body]
pub(crate) fn trim_matches_quote(s: &str) -> (r: String)
    ensures
        r@ == trim_quotes(s@),
{
    s.trim_matches('"').to_string()
}

/// Collects what a call site records: the message, and every other field
/// under its name.
#[derive(Clone, Debug)]
pub struct FieldVisitor {
    pub fields: FieldMap,
    pub message: String,
}

/// What is fixed about a call site: its level and target and, where known,
/// its place in the source.
#[derive(Clone, Debug)]
pub struct CallSite {
    pub level: Level,
    pub target: String,
    pub file: Option<String>,
    pub line: Option<u32>,
    pub module: Option<String>,
}

/// Where an event fired: the thread and the process.
#[derive(Clone, Debug)]
pub struct Origin {
    pub thread_id: String,
    pub thread_name: Option<String>,
    pub process_id: u32,
}

impl FieldVisitor {
    /// A visitor that has seen nothing yet.
    pub fn new() -> (r: FieldVisitor)
        ensures
            r.message@ == Seq::<char>::empty(),
            r.fields.entries().len() == 0,
    {
        FieldVisitor { fields: FieldMap::new(), message: String::new() }
    }

    /// Takes in one recorded field, with its value as debug text. The field
    /// named `message` becomes the message, without the quotes around it;
    /// every other field is kept under its name.
    pub fn record_debug(&mut self, name: &str, value: String)
        ensures
            name@ == "message"@ ==> final(self).message@ == trim_quotes(value@) && final(self).fields
                == old(self).fields,
            name@ != "message"@ ==> final(self).message == old(self).message && final(self).fields.entries() == entries_with(old(self).fields.entries(), name@, value@) && final(self).fields@ == old(self).fields@.insert(name@, value@),
    {
        if str_eq(name, "message") {
            self.message = trim_matches_quote(value.as_str());
        } else {
            self.fields.insert(String::from_str(name), value);
        }
    }
}

/// `event` is the event for what a call site recorded, captured at `now` at
/// `origin`, with a correlation id made of the point in time `id_time`.
pub open spec fn is_capture_of(
    event: Event,
    recorded: FieldVisitor,
    site: CallSite,
    origin: Origin,
    now: Timestamp,
    id_time: Timestamp,
) -> bool {
    &&& event.event_data == (EventData {
        message: recorded.message,
        level: event.event_data.level,
        target: site.target,
        file: site.file,
        line: site.line,
        module: site.module,
        fields: recorded.fields,
        timestamp: now,
    })
    &&& event.event_data.level.0@ == site.level.spec_label()
    &&& event.event_data.level.spec_level() == site.level
    &&& event.parent is None
    &&& event.span_stack@.len() == 0
    &&& event.current_span is None
    &&& event.thread_id == Some(origin.thread_id)
    &&& event.thread_name == origin.thread_name
    &&& event.process_id == Some(origin.process_id)
    &&& opt_string_text(event.correlation_id) == Some("corr-"@ + uuid_like_text(id_time))
    &&& event.custom_metadata.entries().len() == 0
}

/// The event for what a call site recorded, captured at `now` at `origin`,
/// with a correlation id made of the point in time `id_time`.
pub fn capture_event_at(
    recorded: FieldVisitor,
    site: CallSite,
    origin: Origin,
    now: Timestamp,
    id_time: Timestamp,
) -> (r: Event)
    ensures
        is_capture_of(r, recorded, site, origin, now, id_time),
{
    let mut event_data = EventData::new_at(recorded.message, site.level, site.target, now);
    event_data.fields = recorded.fields;
    event_data.file = site.file;
    event_data.line = site.line;
    event_data.module = site.module;
    let mut correlation_id = String::from_str("corr-");
    correlation_id.append(uuid_like_string_at(id_time).as_str());
    Event::new(event_data).with_thread_info(origin.thread_id, origin.thread_name).with_process_id(
        origin.process_id,
    ).with_correlation_id(correlation_id)
}

/// The layer that turns what call sites report into events of the active
/// store.
#[derive(Clone, Copy, Debug)]
pub struct SpannerLayer;

impl SpannerLayer {
    /// Captures an event now, by the system clock, stores it in the active
    /// store and publishes it. Where no store is installed, the event is
    /// dropped and the answer is `None`.
    pub fn on_event(&self, registry: &mut Registry, recorded: FieldVisitor, site: CallSite, origin: Origin) -> (r:
        Option<Delivery<Event>>)
        ensures
            r is Some <==> old(registry).manager is Some,
            final(registry).manager is Some <==> old(registry).manager is Some,
            r is Some ==> {
                let before = old(registry).manager.unwrap();
                let after = final(registry).manager.unwrap();
                let event = *r.unwrap().value;
                &&& exists|now: Timestamp, id_time: Timestamp|
                    is_capture_of(event, recorded, site, origin, now, id_time)
                &&& r.unwrap().listeners@ == before.target().listeners()
                &&& after@ == pushed(before@, event, before.capacity())
                &&& after.capacity() == before.capacity()
                &&& after.target().listeners() == before.target().listeners()
                &&& after.target().channel() == before.target().channel().push(r.unwrap().value)
                &&& (before.wf() ==> after.wf())
            },
    {
        let now = Timestamp::now();
        let id_time = Timestamp::now();
        let event = capture_event_at(recorded, site, origin, now, id_time);
        assert(is_capture_of(event, recorded, site, origin, now, id_time));
        emit(registry, event)
    }
}

} // verus!
