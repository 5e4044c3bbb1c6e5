//! The event store: a bounded history of events, newest first, with its
//! queries, and the bus on which the stored events are published.

use vstd::prelude::*;
use std::collections::VecDeque;
use std::sync::Arc;
use crate::event::Event;
use crate::events::{share, subscribed, unsubscribed, Delivery, EventStream, EventTarget, Subscription};
use crate::level::Level;
use crate::text::{contains, is_substring, str_eq};

verus! {

/// The number of events that a store keeps when no other limit is given.
pub const DEFAULT_MAX_EVENTS: usize = 12_000;

/// The history after `event` has arrived at a store that keeps at most
/// `capacity` events: the event goes to the front, and where that makes the
/// history longer than the capacity, the oldest event leaves at the back.
pub open spec fn pushed(history: Seq<Event>, event: Event, capacity: nat) -> Seq<Event> {
    let grown = seq![event] + history;
    if grown.len() > capacity {
        grown.drop_last()
    } else {
        grown
    }
}

/// The history after `events` have arrived one after the other, the first
/// of them first.
pub open spec fn pushed_all(history: Seq<Event>, events: Seq<Event>, capacity: nat) -> Seq<Event>
    decreases events.len(),
{
    if events.len() == 0 {
        history
    } else {
        pushed(pushed_all(history, events.drop_last(), capacity), events.last(), capacity)
    }
}

/// The last `capacity` of `events`, or all of them where there are fewer,
/// the latest first.
pub open spec fn newest_first(events: Seq<Event>, capacity: nat) -> Seq<Event> {
    let kept = if events.len() <= capacity {
        events.len()
    } else {
        capacity
    };
    Seq::new(kept, |i: int| events[events.len() - 1 - i])
}

/// The test that an event has the level `level`.
pub open spec fn has_level(level: Level) -> spec_fn(Event) -> bool {
    |e: Event| e.event_data.level.spec_level() == level
}

/// The test that `needle` occurs in the target of an event.
pub open spec fn target_contains(needle: Seq<char>) -> spec_fn(Event) -> bool {
    |e: Event| is_substring(e.event_data.target@, needle)
}

/// The test that an event fired inside a span whose name contains `needle`.
pub open spec fn in_span(needle: Seq<char>) -> spec_fn(Event) -> bool {
    |e: Event| e.in_span_named(needle)
}

/// The test that an event fired on the thread `id`.
pub open spec fn on_thread(id: Seq<char>) -> spec_fn(Event) -> bool {
    |e: Event| e.thread_id is Some && e.thread_id.unwrap()@ == id
}

/// The test that an event carries the correlation id `id`.
pub open spec fn correlated(id: Seq<char>) -> spec_fn(Event) -> bool {
    |e: Event| e.correlation_id is Some && e.correlation_id.unwrap()@ == id
}

/// The test that an event passes all of the given filters.
pub open spec fn passes(
    level: Option<Level>,
    target: Option<Seq<char>>,
    message: Option<Seq<char>>,
    span_name: Option<Seq<char>>,
) -> spec_fn(Event) -> bool {
    |e: Event| e.spec_matches(level, target, message, span_name)
}

/// The events behind a sequence of references.
pub open spec fn events_of(refs: Seq<&Event>) -> Seq<Event> {
    refs.map_values(|e: &Event| *e)
}

/// The events behind a sequence of shared handles.
pub open spec fn events_in(handles: Seq<Arc<Event>>) -> Seq<Event> {
    handles.map_values(|e: Arc<Event>| *e)
}

/// What a query asks of an event.
enum Criterion<'a> {
    Level(Level),
    Target(&'a str),
    Span(&'a str),
    Thread(&'a str),
    Correlation(&'a str),
    All(Option<Level>, Option<&'a str>, Option<&'a str>, Option<&'a str>),
}

impl<'a> Criterion<'a> {
    spec fn test(self) -> spec_fn(Event) -> bool {
        match self {
            Criterion::Level(level) => has_level(level),
            Criterion::Target(needle) => target_contains(needle@),
            Criterion::Span(needle) => in_span(needle@),
            Criterion::Thread(id) => on_thread(id@),
            Criterion::Correlation(id) => correlated(id@),
            Criterion::All(level, target, message, span_name) => passes(
                level,
                crate::event::opt_text(target),
                crate::event::opt_text(message),
                crate::event::opt_text(span_name),
            ),
        }
    }

    fn holds(&self, event: &Event) -> (r: bool)
        ensures
            r == (self.test())(*event),
    {
        match self {
            Criterion::Level(level) => event.event_data.level.is_level(*level),
            Criterion::Target(needle) => contains(event.event_data.target.as_str(), needle),
            Criterion::Span(needle) => event.has_span_named(needle),
            Criterion::Thread(id) => match &event.thread_id {
                Some(t) => str_eq(t.as_str(), id),
                None => false,
            },
            Criterion::Correlation(id) => match &event.correlation_id {
                Some(c) => str_eq(c.as_str(), id),
                None => false,
            },
            Criterion::All(level, target, message, span_name) => event.matches_criteria(
                *level,
                *target,
                *message,
                *span_name,
            ),
        }
    }
}

/// A bounded store of events together with the bus on which they are
/// published.
///
/// Its view is the history: the stored events, newest first.
#[derive(Debug)]
pub struct EventManager {
    pub(crate) inner: VecDeque<Arc<Event>>,
    pub(crate) target: EventTarget<Event>,
    pub(crate) max_events: usize,
}

impl View for EventManager {
    type V = Seq<Event>;

    closed spec fn view(&self) -> Seq<Event> {
        events_in(self.inner@)
    }
}

impl EventManager {
    /// The largest number of events that the store keeps.
    pub closed spec fn capacity(&self) -> nat {
        self.max_events as nat
    }

    /// The bus of the store.
    pub closed spec fn target(&self) -> EventTarget<Event> {
        self.target
    }

    /// The store holds no more events than its capacity allows, and its bus
    /// lists no subscription twice.
    pub open spec fn wf(&self) -> bool {
        &&& self@.len() <= self.capacity()
        &&& self.target().wf()
    }

    /// An empty store that keeps at most `max_events` events, or
    /// `DEFAULT_MAX_EVENTS` where no limit is given.
    pub fn new(max_events: Option<usize>) -> (r: EventManager)
        ensures
            r@ == Seq::<Event>::empty(),
            r.capacity() == (match max_events {
                Some(limit) => limit,
                None => DEFAULT_MAX_EVENTS,
            }),
            r.target().listeners() == Seq::<u128>::empty(),
            r.target().channel() == Seq::<Arc<Event>>::empty(),
            r.wf(),
    {
        let limit = match max_events {
            Some(limit) => limit,
            None => DEFAULT_MAX_EVENTS,
        };
        let r = EventManager { inner: VecDeque::new(), target: EventTarget::new(), max_events: limit };
        assert(r@ =~= Seq::<Event>::empty());
        r
    }

    /// Stores an event that is already shared.
    pub fn push_shared(&mut self, event: Arc<Event>)
        ensures
            final(self)@ == pushed(old(self)@, *event, old(self).capacity()),
            final(self).capacity() == old(self).capacity(),
            final(self).target() == old(self).target(),
            old(self).wf() ==> final(self).wf(),
    {
        self.inner.push_front(event);
        assert(events_in(self.inner@) =~= seq![*event] + old(self)@);
        if self.inner.len() > self.max_events {
            let ghost grown = self.inner@;
            let _ = self.inner.pop_back();
            assert(events_in(self.inner@) =~= events_in(grown).drop_last());
        }
    }

    /// Stores `event` as the newest one. Where the store is full
    /// afterwards, the oldest event leaves it.
    pub fn push(&mut self, event: Event)
        ensures
            final(self)@ == pushed(old(self)@, event, old(self).capacity()),
            final(self).capacity() == old(self).capacity(),
            final(self).target() == old(self).target(),
            old(self).wf() ==> final(self).wf(),
    {
        self.push_shared(Arc::new(event));
    }

    /// Stores `events` one after the other, the first of them first. Nothing
    /// is published on the bus.
    pub fn push_all(&mut self, events: &Vec<Arc<Event>>)
        ensures
            final(self)@ == pushed_all(old(self)@, events_in(events@), old(self).capacity()),
            final(self).capacity() == old(self).capacity(),
            final(self).target() == old(self).target(),
            old(self).wf() ==> final(self).wf(),
    {
        let ghost all = events_in(events@);
        let mut i: usize = 0;
        assert(all.take(0) =~= Seq::<Event>::empty());
        while i < events.len()
            invariant
                i <= events@.len(),
                all == events_in(events@),
                self@ == pushed_all(old(self)@, all.take(i as int), old(self).capacity()),
                self.capacity() == old(self).capacity(),
                self.target() == old(self).target(),
                old(self).wf() ==> self.wf(),
            decreases events@.len() - i,
        {
            self.push_shared(share(&events[i]));
            proof {
                let head = all.take(i + 1);
                assert(head.drop_last() =~= all.take(i as int));
                assert(head.last() == all[i as int]);
            }
            i += 1;
        }
        assert(all.take(i as int) =~= all);
    }

    /// Stores `event` and publishes it on the bus: the delivery names every
    /// subscription that is registered at this moment.
    pub fn emit(&mut self, event: Event) -> (r: Delivery<Event>)
        ensures
            *r.value == event,
            r.listeners@ == old(self).target().listeners(),
            final(self)@ == pushed(old(self)@, event, old(self).capacity()),
            final(self).capacity() == old(self).capacity(),
            final(self).target().listeners() == old(self).target().listeners(),
            final(self).target().channel() == old(self).target().channel().push(r.value),
            old(self).wf() ==> final(self).wf(),
    {
        let shared = Arc::new(event);
        self.push_shared(share(&shared));
        self.target.emit(shared)
    }

    /// Registers a new subscription on the bus of the store.
    pub fn on(&mut self) -> (r: Subscription)
        ensures
            old(self).wf() ==> final(self).wf(),
            final(self)@ == old(self)@,
            final(self).capacity() == old(self).capacity(),
            final(self).target().listeners() == subscribed(old(self).target().listeners(), r.id),
            final(self).target().channel() == old(self).target().channel(),
    {
        self.target.on()
    }

    /// Ends a subscription on the bus of the store.
    pub fn off(&mut self, sub: &Subscription)
        ensures
            old(self).wf() ==> final(self).wf(),
            final(self)@ == old(self)@,
            final(self).capacity() == old(self).capacity(),
            final(self).target().listeners() == unsubscribed(old(self).target().listeners(), sub.id),
            final(self).target().channel() == old(self).target().channel(),
    {
        self.target.off(sub)
    }

    /// Opens a stream on the bus of the store.
    pub fn as_stream(&mut self) -> (r: EventStream<Event>)
        ensures
            r.queue() == Seq::<Arc<Event>>::empty(),
            old(self).wf() ==> final(self).wf(),
            final(self)@ == old(self)@,
            final(self).capacity() == old(self).capacity(),
            final(self).target().listeners() == subscribed(old(self).target().listeners(), r.id()),
            final(self).target().channel() == old(self).target().channel(),
    {
        self.target.as_stream()
    }

    /// The bus of the store.
    pub fn bus(&self) -> (r: &EventTarget<Event>)
        ensures
            *r == self.target(),
    {
        &self.target
    }

    /// The number of stored events.
    pub fn len(&self) -> (r: usize)
        ensures
            r == self@.len(),
    {
        self.inner.len()
    }

    /// Whether the store holds no event.
    pub fn is_empty(&self) -> (r: bool)
        ensures
            r == (self@.len() == 0),
    {
        self.inner.len() == 0
    }

    /// The largest number of events that the store keeps.
    pub fn max_events(&self) -> (r: usize)
        ensures
            r == self.capacity(),
    {
        self.max_events
    }

    /// Empties the history. The bus and its subscriptions stay as they are.
    pub fn clear(&mut self)
        ensures
            final(self)@ == Seq::<Event>::empty(),
            final(self).capacity() == old(self).capacity(),
            final(self).target() == old(self).target(),
            old(self).wf() ==> final(self).wf(),
    {
        self.inner.clear();
        assert(self@ =~= Seq::<Event>::empty());
    }

    /// Shared handles to all stored events, newest first.
    pub fn snapshot(&self) -> (r: Vec<Arc<Event>>)
        ensures
            events_in(r@) == self@,
    {
        let mut out: Vec<Arc<Event>> = Vec::new();
        let mut i: usize = 0;
        while i < self.inner.len()
            invariant
                i <= self.inner@.len(),
                out@ == self.inner@.take(i as int),
            decreases self.inner@.len() - i,
        {
            out.push(share(&self.inner[i]));
            assert(self.inner@.take(i + 1) =~= self.inner@.take(i as int).push(self.inner@[i as int]));
            i += 1;
        }
        assert(self.inner@.take(i as int) =~= self.inner@);
        out
    }

    /// The stored events that meet `criterion`, newest first.
    fn select<'a>(&'a self, criterion: &Criterion<'_>) -> (r: Vec<&'a Event>)
        ensures
            events_of(r@) == self@.filter(criterion.test()),
    {
        let ghost test = criterion.test();
        let mut out: Vec<&'a Event> = Vec::new();
        let mut i: usize = 0;
        proof {
            reveal(Seq::filter);
            assert(self@.take(0) =~= Seq::<Event>::empty());
            assert(events_of(out@) =~= Seq::<Event>::empty());
        }
        while i < self.inner.len()
            invariant
                i <= self.inner@.len(),
                self@.len() == self.inner@.len(),
                test == criterion.test(),
                events_of(out@) == self@.take(i as int).filter(test),
            decreases self.inner@.len() - i,
        {
            let event: &'a Event = &self.inner[i];
            proof {
                self@.take(i as int).lemma_filter_push(*event, test);
                assert(self@.take(i + 1) =~= self@.take(i as int).push(*event));
            }
            let ghost before = out@;
            if criterion.holds(event) {
                out.push(event);
                assert(events_of(out@) =~= events_of(before).push(*event));
            }
            i += 1;
        }
        assert(self@.take(i as int) =~= self@);
        out
    }

    /// The stored events of the level `level`, newest first.
    pub fn get_by_level(&self, level: Level) -> (r: Vec<&Event>)
        ensures
            events_of(r@) == self@.filter(has_level(level)),
    {
        self.select(&Criterion::Level(level))
    }

    /// The stored events in whose target `target` occurs, newest first.
    pub fn get_by_target(&self, target: &str) -> (r: Vec<&Event>)
        ensures
            events_of(r@) == self@.filter(target_contains(target@)),
    {
        self.select(&Criterion::Target(target))
    }

    /// The stored events that fired inside a span whose name contains
    /// `span_name`, newest first.
    pub fn get_by_span(&self, span_name: &str) -> (r: Vec<&Event>)
        ensures
            events_of(r@) == self@.filter(in_span(span_name@)),
    {
        self.select(&Criterion::Span(span_name))
    }

    /// The stored events that fired on the thread `thread_id`, newest first.
    pub fn get_by_thread(&self, thread_id: &str) -> (r: Vec<&Event>)
        ensures
            events_of(r@) == self@.filter(on_thread(thread_id@)),
    {
        self.select(&Criterion::Thread(thread_id))
    }

    /// The stored events with the correlation id `correlation_id`, newest first.
    pub fn get_by_correlation_id(&self, correlation_id: &str) -> (r: Vec<&Event>)
        ensures
            events_of(r@) == self@.filter(correlated(correlation_id@)),
    {
        self.select(&Criterion::Correlation(correlation_id))
    }

    /// The stored events that pass every filter that is given, newest first.
    pub fn search(
        &self,
        level_filter: Option<Level>,
        target_filter: Option<&str>,
        message_contains: Option<&str>,
        span_name_contains: Option<&str>,
    ) -> (r: Vec<&Event>)
        ensures
            events_of(r@) == self@.filter(
                passes(
                    level_filter,
                    crate::event::opt_text(target_filter),
                    crate::event::opt_text(message_contains),
                    crate::event::opt_text(span_name_contains),
                ),
            ),
    {
        self.select(
            &Criterion::All(level_filter, target_filter, message_contains, span_name_contains),
        )
    }

    /// The `count` newest events, or all of them where there are fewer.
    pub fn get_recent(&self, count: usize) -> (r: Vec<&Event>)
        ensures
            events_of(r@) == self@.take(
                if count <= self@.len() {
                    count as int
                } else {
                    self@.len() as int
                },
            ),
    {
        let n = if count <= self.inner.len() {
            count
        } else {
            self.inner.len()
        };
        let mut out: Vec<&Event> = Vec::new();
        let mut i: usize = 0;
        assert(events_of(out@) =~= self@.take(0));
        while i < n
            invariant
                i <= n <= self.inner@.len(),
                self@.len() == self.inner@.len(),
                events_of(out@) == self@.take(i as int),
            decreases n - i,
        {
            let event: &Event = &self.inner[i];
            let ghost before = out@;
            out.push(event);
            assert(events_of(out@) =~= events_of(before).push(*event));
            assert(self@.take(i + 1) =~= self@.take(i as int).push(*event));
            i += 1;
        }
        out
    }
}

/// Filtering by two tests that agree on every event gives the same events.
pub proof fn lemma_filter_agree(
    history: Seq<Event>,
    p: spec_fn(Event) -> bool,
    q: spec_fn(Event) -> bool,
)
    requires
        forall|e: Event| #[trigger] p(e) == q(e),
    ensures
        history.filter(p) == history.filter(q),
    decreases history.len(),
{
    reveal(Seq::filter);
    if history.len() > 0 {
        lemma_filter_agree(history.drop_last(), p, q);
    }
}

/// Filtering by a test that every event passes changes nothing.
pub proof fn lemma_filter_all(history: Seq<Event>, p: spec_fn(Event) -> bool)
    requires
        forall|e: Event| #[trigger] p(e),
    ensures
        history.filter(p) == history,
    decreases history.len(),
{
    reveal(Seq::filter);
    if history.len() > 0 {
        lemma_filter_all(history.drop_last(), p);
        assert(history.drop_last().push(history.last()) =~= history);
    }
}

/// After any number of pushes into an empty store, the store holds the last
/// `capacity` of the pushed events, or all of them where there are fewer,
/// the latest first; so its length is the smaller of the two numbers.
pub proof fn lemma_pushes_keep_newest(events: Seq<Event>, capacity: nat)
    ensures
        pushed_all(Seq::empty(), events, capacity) == newest_first(events, capacity),
        pushed_all(Seq::empty(), events, capacity).len() == (if events.len() <= capacity {
            events.len()
        } else {
            capacity
        }),
    decreases events.len(),
{
    if events.len() == 0 {
        assert(newest_first(events, capacity) =~= Seq::<Event>::empty());
    } else {
        let earlier = events.drop_last();
        lemma_pushes_keep_newest(earlier, capacity);
        let before = newest_first(earlier, capacity);
        let grown = seq![events.last()] + before;
        let after = pushed(before, events.last(), capacity);
        assert(after =~= newest_first(events, capacity)) by {
            assert forall|i: int| 0 <= i < after.len() implies after[i] == newest_first(
                events,
                capacity,
            )[i] by {
                if i > 0 {
                    assert(after[i] == grown[i]);
                    assert(grown[i] == before[i - 1]);
                    assert(before[i - 1] == earlier[earlier.len() - 1 - (i - 1)]);
                }
            }
        }
    }
}

/// A search without any filter gives the whole history in its order.
pub proof fn lemma_search_without_filters(history: Seq<Event>)
    ensures
        history.filter(passes(None, None, None, None)) == history,
{
    lemma_filter_all(history, passes(None, None, None, None));
}

/// A search with one filter alone gives what the query for that one
/// property gives: by level, by target, by span name.
pub proof fn lemma_search_with_one_filter(history: Seq<Event>, level: Level, needle: Seq<char>)
    ensures
        history.filter(passes(Some(level), None, None, None)) == history.filter(has_level(level)),
        history.filter(passes(None, Some(needle), None, None)) == history.filter(
            target_contains(needle),
        ),
        history.filter(passes(None, None, None, Some(needle))) == history.filter(in_span(needle)),
{
    lemma_filter_agree(history, passes(Some(level), None, None, None), has_level(level));
    lemma_filter_agree(history, passes(None, Some(needle), None, None), target_contains(needle));
    lemma_filter_agree(history, passes(None, None, None, Some(needle)), in_span(needle));
}

} // verus!
