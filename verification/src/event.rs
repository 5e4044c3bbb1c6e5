//! Events: captured content together with the context in which it arose.

use vstd::prelude::*;
use vstd::string::*;
use std::sync::Arc;
use crate::event_data::EventData;
use crate::fields::FieldMap;
use crate::level::Level;
use crate::span::SpanInfo;
use crate::text::{contains, hex, hex_text, is_substring};
use crate::time::Timestamp;

verus! {

/// One captured event.
///
/// `parent` points to an event that was captured earlier; following it
/// always ends.
#[derive(Clone, Debug)]
pub struct Event {
    pub parent: Option<Arc<Event>>,
    pub event_data: EventData,
    pub span_stack: Vec<SpanInfo>,
    pub current_span: Option<SpanInfo>,
    pub thread_id: Option<String>,
    pub thread_name: Option<String>,
    pub process_id: Option<u32>,
    pub correlation_id: Option<String>,
    pub custom_metadata: FieldMap,
}

/// The text of an optional string slice.
pub open spec fn opt_text(s: Option<&str>) -> Option<Seq<char>> {
    match s {
        Some(t) => Some(t@),
        None => None,
    }
}

/// The text of an optional owned string.
pub open spec fn opt_string_text(s: Option<String>) -> Option<Seq<char>> {
    match s {
        Some(t) => Some(t@),
        None => None,
    }
}

/// An identifier made of a point in time: its seconds and its nanoseconds
/// in base sixteen with a hyphen between them. Seconds before the epoch
/// are written as the 64-bit two's complement of their number.
pub open spec fn uuid_like_text(now: Timestamp) -> Seq<char> {
    hex_text((now.secs as u64) as nat) + "-"@ + hex_text(now.nanos as nat)
}

/// The identifier made of the point in time `now`.
pub fn uuid_like_string_at(now: Timestamp) -> (r: String)
    ensures
        r@ == uuid_like_text(now),
{
    let mut id = hex(now.secs as u64);
    id.append("-");
    id.append(hex(now.nanos as u64).as_str());
    assert(id@ =~= uuid_like_text(now));
    id
}

/// An identifier made of the current time by the system clock.
pub fn generate_uuid_like_string() -> (r: String)
    ensures
        exists|now: Timestamp| r@ == uuid_like_text(now),
{
    let now = Timestamp::now();
    let r = uuid_like_string_at(now);
    assert(r@ == uuid_like_text(now));
    r
}

/// Some span among `spans` has a name in which `needle` occurs.
pub open spec fn any_span_named(spans: Seq<SpanInfo>, needle: Seq<char>) -> bool {
    exists|i: int| 0 <= i < spans.len() && is_substring(#[trigger] spans[i].name@, needle)
}

impl Event {
    /// The event fired inside a span whose name contains `needle`: one on
    /// its stack, or its current span.
    pub open spec fn in_span_named(self, needle: Seq<char>) -> bool {
        ||| any_span_named(self.span_stack@, needle)
        ||| (self.current_span is Some && is_substring(self.current_span.unwrap().name@, needle))
    }

    /// The event passes every filter that is given. A filter that is absent
    /// lets every event pass.
    pub open spec fn spec_matches(
        self,
        level: Option<Level>,
        target: Option<Seq<char>>,
        message: Option<Seq<char>>,
        span_name: Option<Seq<char>>,
    ) -> bool {
        &&& (level is Some ==> self.event_data.level.spec_level() == level.unwrap())
        &&& (target is Some ==> is_substring(self.event_data.target@, target.unwrap()))
        &&& (message is Some ==> is_substring(self.event_data.message@, message.unwrap()))
        &&& (span_name is Some ==> self.in_span_named(span_name.unwrap()))
    }

    /// An event around `event_data`, with no context yet.
    pub fn new(event_data: EventData) -> (r: Event)
        ensures
            r.parent is None,
            r.event_data == event_data,
            r.span_stack@.len() == 0,
            r.current_span is None,
            r.thread_id is None,
            r.thread_name is None,
            r.process_id is None,
            r.correlation_id is None,
            r.custom_metadata.entries().len() == 0,
            r.custom_metadata@ == Map::<Seq<char>, Seq<char>>::empty(),
    {
        Event {
            parent: None,
            event_data,
            span_stack: Vec::new(),
            current_span: None,
            thread_id: None,
            thread_name: None,
            process_id: None,
            correlation_id: None,
            custom_metadata: FieldMap::new(),
        }
    }

    /// The same event, caused by `parent`.
    pub fn with_parent(self, parent: Arc<Event>) -> (r: Event)
        ensures
            r == (Event { parent: Some(parent), ..self }),
    {
        let mut e = self;
        e.parent = Some(parent);
        e
    }

    /// The same event with `spans` as the spans that were active, outermost first.
    pub fn with_span_stack(self, spans: Vec<SpanInfo>) -> (r: Event)
        ensures
            r == (Event { span_stack: spans, ..self }),
    {
        let mut e = self;
        e.span_stack = spans;
        e
    }

    /// The same event with `span` as its innermost span.
    pub fn with_current_span(self, span: SpanInfo) -> (r: Event)
        ensures
            r == (Event { current_span: Some(span), ..self }),
    {
        let mut e = self;
        e.current_span = Some(span);
        e
    }

    /// The same event with the thread on which it fired.
    pub fn with_thread_info(self, thread_id: String, thread_name: Option<String>) -> (r: Event)
        ensures
            r == (Event { thread_id: Some(thread_id), thread_name: thread_name, ..self }),
    {
        let mut e = self;
        e.thread_id = Some(thread_id);
        e.thread_name = thread_name;
        e
    }

    /// The same event with the process in which it fired.
    pub fn with_process_id(self, pid: u32) -> (r: Event)
        ensures
            r == (Event { process_id: Some(pid), ..self }),
    {
        let mut e = self;
        e.process_id = Some(pid);
        e
    }

    /// The same event with an id that ties it to related events.
    pub fn with_correlation_id(self, correlation_id: String) -> (r: Event)
        ensures
            r == (Event { correlation_id: Some(correlation_id), ..self }),
    {
        let mut e = self;
        e.correlation_id = Some(correlation_id);
        e
    }

    /// Attaches a piece of metadata to the event.
    pub fn add_metadata(&mut self, key: String, value: String)
        ensures
            final(self).custom_metadata@ == old(self).custom_metadata@.insert(key@, value@),
            final(self).custom_metadata.entries() == crate::fields::entries_with(
                old(self).custom_metadata.entries(),
                key@,
                value@,
            ),
            *final(self) == (Event { custom_metadata: final(self).custom_metadata, ..*old(self) }),
    {
        self.custom_metadata.insert(key, value);
    }

    /// An event captured at `timestamp` from what an instrumented call
    /// site reports: message, level, target, fields and, where known, the
    /// source location as file, line and module.
    pub fn from_tracing_event_at(
        message: String,
        level: Level,
        target: String,
        metadata: Option<(String, u32, String)>,
        fields: FieldMap,
        timestamp: Timestamp,
    ) -> (r: Event)
        ensures
            r.event_data.message == message,
            r.event_data.level.0@ == level.spec_label(),
            r.event_data.level.spec_level() == level,
            r.event_data.target == target,
            r.event_data.fields == fields,
            r.event_data.timestamp == timestamp,
            match metadata {
                Some((file, line, module)) => r.event_data.file == Some(file) && r.event_data.line
                    == Some(line) && r.event_data.module == Some(module),
                None => r.event_data.file is None && r.event_data.line is None
                    && r.event_data.module is None,
            },
            r.parent is None,
            r.span_stack@.len() == 0,
            r.current_span is None,
            r.thread_id is None,
            r.thread_name is None,
            r.process_id is None,
            r.correlation_id is None,
            r.custom_metadata.entries().len() == 0,
    {
        let mut event_data = EventData::new_at(message, level, target, timestamp);
        event_data.fields = fields;
        if let Some((file, line, module)) = metadata {
            event_data.file = Some(file);
            event_data.line = Some(line);
            event_data.module = Some(module);
        }
        Event::new(event_data)
    }

    /// An event captured now, by the system clock, from what an
    /// instrumented call site reports.
    pub fn from_tracing_event(
        message: String,
        level: Level,
        target: String,
        metadata: Option<(String, u32, String)>,
        fields: FieldMap,
    ) -> (r: Event)
        ensures
            r.event_data.message == message,
            r.event_data.level.0@ == level.spec_label(),
            r.event_data.level.spec_level() == level,
            r.event_data.target == target,
            r.event_data.fields == fields,
            match metadata {
                Some((file, line, module)) => r.event_data.file == Some(file) && r.event_data.line
                    == Some(line) && r.event_data.module == Some(module),
                None => r.event_data.file is None && r.event_data.line is None
                    && r.event_data.module is None,
            },
            r.parent is None,
            r.span_stack@.len() == 0,
            r.current_span is None,
            r.thread_id is None,
            r.thread_name is None,
            r.process_id is None,
            r.correlation_id is None,
            r.custom_metadata.entries().len() == 0,
    {
        Self::from_tracing_event_at(message, level, target, metadata, fields, Timestamp::now())
    }

    /// An event captured at `now` on the given thread of the given process,
    /// with a correlation id made of the point in time `id_time`.
    pub fn capture_context_at(
        message: String,
        level: Level,
        target: String,
        thread_id: String,
        thread_name: Option<String>,
        process_id: u32,
        now: Timestamp,
        id_time: Timestamp,
    ) -> (r: Event)
        ensures
            r.event_data.message == message,
            r.event_data.level.0@ == level.spec_label(),
            r.event_data.level.spec_level() == level,
            r.event_data.target == target,
            r.event_data.fields.entries().len() == 0,
            r.event_data.timestamp == now,
            r.event_data.file is None,
            r.event_data.line is None,
            r.event_data.module is None,
            r.parent is None,
            r.span_stack@.len() == 0,
            r.current_span is None,
            r.thread_id == Some(thread_id),
            r.thread_name == thread_name,
            r.process_id == Some(process_id),
            opt_string_text(r.correlation_id) == Some("corr-"@ + uuid_like_text(id_time)),
            r.custom_metadata.entries().len() == 0,
    {
        let event = Self::from_tracing_event_at(message, level, target, None, FieldMap::new(), now);
        let mut correlation_id = String::from_str("corr-");
        correlation_id.append(uuid_like_string_at(id_time).as_str());
        event.with_thread_info(thread_id, thread_name).with_process_id(
            process_id,
        ).with_correlation_id(correlation_id)
    }

    /// An event captured now, by the system clock, on the given thread of
    /// the given process, with a correlation id made of the time of capture.
    pub fn capture_current_context(
        message: String,
        level: Level,
        target: String,
        thread_id: String,
        thread_name: Option<String>,
        process_id: u32,
    ) -> (r: Event)
        ensures
            r.event_data.message == message,
            r.event_data.level.0@ == level.spec_label(),
            r.event_data.level.spec_level() == level,
            r.event_data.target == target,
            r.event_data.fields.entries().len() == 0,
            r.event_data.file is None,
            r.event_data.line is None,
            r.event_data.module is None,
            r.parent is None,
            r.span_stack@.len() == 0,
            r.current_span is None,
            r.thread_id == Some(thread_id),
            r.thread_name == thread_name,
            r.process_id == Some(process_id),
            exists|id_time: Timestamp|
                opt_string_text(r.correlation_id) == Some("corr-"@ + uuid_like_text(id_time)),
            r.custom_metadata.entries().len() == 0,
    {
        let now = Timestamp::now();
        let id_time = Timestamp::now();
        let r = Self::capture_context_at(
            message,
            level,
            target,
            thread_id,
            thread_name,
            process_id,
            now,
            id_time,
        );
        assert(opt_string_text(r.correlation_id) == Some("corr-"@ + uuid_like_text(id_time)));
        r
    }

    /// Whether the event fired inside a span whose name contains `needle`.
    pub fn has_span_named(&self, needle: &str) -> (r: bool)
        ensures
            r == self.in_span_named(needle@),
    {
        let mut i: usize = 0;
        while i < self.span_stack.len()
            invariant
                i <= self.span_stack@.len(),
                forall|j: int| 0 <= j < i ==> !is_substring(#[trigger] self.span_stack@[j].name@, needle@),
            decreases self.span_stack@.len() - i,
        {
            if contains(self.span_stack[i].name.as_str(), needle) {
                return true;
            }
            i += 1;
        }
        match &self.current_span {
            Some(span) => contains(span.name.as_str(), needle),
            None => false,
        }
    }

    /// Whether the event passes all the filters that are given.
    pub fn matches_criteria(
        &self,
        level_filter: Option<Level>,
        target_filter: Option<&str>,
        message_contains: Option<&str>,
        span_name_contains: Option<&str>,
    ) -> (r: bool)
        ensures
            r == self.spec_matches(
                level_filter,
                opt_text(target_filter),
                opt_text(message_contains),
                opt_text(span_name_contains),
            ),
    {
        if let Some(level) = level_filter {
            if !self.event_data.level.is_level(level) {
                return false;
            }
        }
        if let Some(target) = target_filter {
            if !contains(self.event_data.target.as_str(), target) {
                return false;
            }
        }
        if let Some(message) = message_contains {
            if !contains(self.event_data.message.as_str(), message) {
                return false;
            }
        }
        if let Some(span_name) = span_name_contains {
            if !self.has_span_named(span_name) {
                return false;
            }
        }
        true
    }
}

} // verus!
