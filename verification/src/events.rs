//! The event bus: who is listening, and what each published value is
//! delivered to.
//!
//! The bus keeps no callbacks. Publishing a value yields a `Delivery` that
//! names the subscriptions to which the value is owed; whoever owns the
//! handlers carries it out with `Delivery::dispatch`, at a time of their
//! choosing and without holding the bus, so that a handler is free to
//! publish or subscribe in turn.

use vstd::prelude::*;
use std::collections::VecDeque;
use std::sync::Arc;
use crate::event::Event;

verus! {

/// The listeners after `id` has subscribed: it is added at the end unless
/// it is listening already.
pub open spec fn subscribed(listeners: Seq<u128>, id: u128) -> Seq<u128> {
    if listeners.contains(id) {
        listeners
    } else {
        listeners.push(id)
    }
}

/// The test that an identifier is another one than `id`.
pub open spec fn other_than(id: u128) -> spec_fn(u128) -> bool {
    |other: u128| other != id
}

/// The test that an identifier is `id`.
pub open spec fn same_as(id: u128) -> spec_fn(u128) -> bool {
    |other: u128| other == id
}

/// The listeners after `id` has unsubscribed: the others, in their order.
pub open spec fn unsubscribed(listeners: Seq<u128>, id: u128) -> Seq<u128> {
    listeners.filter(other_than(id))
}

/// How often `id` stands among `listeners`.
pub open spec fn occurrences(listeners: Seq<u128>, id: u128) -> nat {
    listeners.filter(same_as(id)).len()
}

/// The handler at `index` is the first one registered under `id`.
pub open spec fn is_handler_for<H>(handlers: Seq<(u128, H)>, index: int, id: u128) -> bool {
    &&& 0 <= index < handlers.len()
    &&& handlers[index].0 == id
    &&& forall|j: int| 0 <= j < index ==> handlers[j].0 != id
}

/// The test that some handler is registered under an identifier.
pub open spec fn has_handler<H>(handlers: Seq<(u128, H)>) -> spec_fn(u128) -> bool {
    |id: u128| exists|j: int| 0 <= j < handlers.len() && handlers[j].0 == id
}

/// Draws a random identifier with `uuid::Uuid::new_v4` and hands it out as
/// the 128-bit number that `Uuid::as_u128` gives. Nothing is claimed of the
/// number drawn.
#[verifier::external_body]
pub(crate) fn fresh_id() -> (id: u128) {
    uuid::Uuid::new_v4().as_u128()
}

/// Makes another handle to a shared value with `Arc::clone` of the standard
/// library: the new handle points to the same value.
#[verifier::external_body]
pub(crate) fn share<T>(value: &Arc<T>) -> (r: Arc<T>)
    ensures
        r == *value,
{
    Arc::clone(value)
}

/// The handle of one registration on a bus.
#[derive(Debug)]
pub struct Subscription {
    pub id: u128,
}

/// A published value together with the subscriptions it is owed to, in the
/// order in which they registered.
#[derive(Debug)]
pub struct Delivery<T> {
    pub value: Arc<T>,
    pub listeners: Vec<u128>,
}

/// A publish/subscribe bus for values of type `T`.
#[derive(Debug)]
pub struct EventTarget<T> {
    pub(crate) listeners: Vec<u128>,
    pub(crate) channel: VecDeque<Arc<T>>,
}

impl Subscription {
    /// A handle for the registration `id`.
    pub fn new(id: u128) -> (r: Subscription)
        ensures
            r.id == id,
    {
        Subscription { id }
    }

    /// Ends the registration on `target`. Ending it again changes nothing.
    pub fn off<T>(&self, target: &mut EventTarget<T>)
        ensures
            old(target).wf() ==> final(target).wf(),
            final(target).listeners() == unsubscribed(old(target).listeners(), self.id),
            final(target).channel() == old(target).channel(),
    {
        target.off(self);
    }
}

impl<T> Delivery<T> {
    /// Carries the delivery out: for every subscription that it names, in
    /// their order, the first handler registered under that subscription is
    /// called once with the value. A subscription without a handler is
    /// passed over. The answer is the number of calls made.
    pub fn dispatch<H: Fn(Arc<T>)>(&self, handlers: &Vec<(u128, H)>) -> (calls: usize)
        requires
            forall|i: int, x: Arc<T>|
                0 <= i < handlers@.len() ==> #[trigger] call_requires(handlers@[i].1, (x,)),
        ensures
            calls == self.listeners@.filter(has_handler(handlers@)).len(),
            forall|k: int, j: int|
                #![trigger is_handler_for(handlers@, j, self.listeners@[k])]
                0 <= k < self.listeners@.len() && is_handler_for(handlers@, j, self.listeners@[k])
                    ==> call_ensures(handlers@[j].1, (self.value,), ()),
    {
        let ghost known = has_handler(handlers@);
        let mut calls: usize = 0;
        let mut i: usize = 0;
        proof {
            reveal(Seq::filter);
            assert(self.listeners@.take(0) =~= Seq::<u128>::empty());
        }
        while i < self.listeners.len()
            invariant
                i <= self.listeners@.len(),
                known == has_handler(handlers@),
                calls == self.listeners@.take(i as int).filter(known).len(),
                calls <= i,
                forall|i: int, x: Arc<T>|
                    0 <= i < handlers@.len() ==> #[trigger] call_requires(handlers@[i].1, (x,)),
                forall|k: int, j: int|
                    #![trigger is_handler_for(handlers@, j, self.listeners@[k])]
                    0 <= k < i && is_handler_for(handlers@, j, self.listeners@[k]) ==> call_ensures(
                        handlers@[j].1,
                        (self.value,),
                        (),
                    ),
            decreases self.listeners@.len() - i,
        {
            let id = self.listeners[i];
            let mut j: usize = 0;
            let mut found = false;
            while j < handlers.len() && !found
                invariant
                    j <= handlers@.len(),
                    id == self.listeners@[i as int],
                    i < self.listeners@.len(),
                    forall|i: int, x: Arc<T>|
                        0 <= i < handlers@.len() ==> #[trigger] call_requires(handlers@[i].1, (x,)),
                    !found ==> forall|jj: int| 0 <= jj < j ==> handlers@[jj].0 != id,
                    found ==> exists|jj: int|
                        is_handler_for(handlers@, jj, id) && call_ensures(
                            handlers@[jj].1,
                            (self.value,),
                            (),
                        ),
                decreases handlers@.len() - j + (if found {
                    0int
                } else {
                    1int
                }),
            {
                if handlers[j].0 == id {
                    (handlers[j].1)(share(&self.value));
                    found = true;
                    assert(is_handler_for(handlers@, j as int, id));
                } else {
                    j += 1;
                }
            }
            proof {
                self.listeners@.take(i as int).lemma_filter_push(id, known);
                assert(self.listeners@.take(i + 1) =~= self.listeners@.take(i as int).push(id));
                if found {
                    let jj = choose|jj: int|
                        is_handler_for(handlers@, jj, id) && call_ensures(
                            handlers@[jj].1,
                            (self.value,),
                            (),
                        );
                    assert(handlers@[jj].0 == id);
                    assert(known(id));
                    assert forall|j2: int| is_handler_for(handlers@, j2, id) implies j2 == jj by {
                        if j2 < jj {
                            assert(handlers@[j2].0 != id);
                        } else if jj < j2 {
                            assert(handlers@[jj].0 != id);
                        }
                    }
                } else {
                    assert(!known(id));
                }
            }
            if found {
                calls += 1;
            }
            i += 1;
        }
        assert(self.listeners@.take(i as int) =~= self.listeners@);
        calls
    }
}

impl<T> EventTarget<T> {
    /// The registered subscriptions, in the order in which they registered.
    pub closed spec fn listeners(&self) -> Seq<u128> {
        self.listeners@
    }

    /// The published values that nobody has taken from the bus's own
    /// channel yet, oldest first.
    pub closed spec fn channel(&self) -> Seq<Arc<T>> {
        self.channel@
    }

    /// No subscription is registered twice.
    pub open spec fn wf(&self) -> bool {
        self.listeners().no_duplicates()
    }

    /// Whether `id` is registered.
    pub open spec fn is_listening(&self, id: u128) -> bool {
        self.listeners().contains(id)
    }

    /// A bus without listeners and with an empty channel.
    pub fn new() -> (r: EventTarget<T>)
        ensures
            r.wf(),
            r.listeners() == Seq::<u128>::empty(),
            r.channel() == Seq::<Arc<T>>::empty(),
    {
        EventTarget { listeners: Vec::new(), channel: VecDeque::new() }
    }

    /// Whether `id` is registered.
    pub fn has_listener(&self, id: u128) -> (r: bool)
        ensures
            r == self.is_listening(id),
    {
        let mut i: usize = 0;
        while i < self.listeners.len()
            invariant
                i <= self.listeners@.len(),
                forall|j: int| 0 <= j < i ==> self.listeners@[j] != id,
            decreases self.listeners@.len() - i,
        {
            if self.listeners[i] == id {
                return true;
            }
            i += 1;
        }
        false
    }

    /// The number of registered subscriptions.
    pub fn listener_count(&self) -> (r: usize)
        ensures
            r == self.listeners().len(),
    {
        self.listeners.len()
    }

    /// Publishes `value`: it is owed to every subscription registered at
    /// this moment, once each, and joins the bus's own channel.
    pub fn emit(&mut self, value: Arc<T>) -> (r: Delivery<T>)
        ensures
            r.value == value,
            r.listeners@ == old(self).listeners(),
            final(self).listeners() == old(self).listeners(),
            final(self).channel() == old(self).channel().push(value),
    {
        let mut targets: Vec<u128> = Vec::new();
        let mut i: usize = 0;
        while i < self.listeners.len()
            invariant
                i <= self.listeners@.len(),
                targets@ == self.listeners@.take(i as int),
            decreases self.listeners@.len() - i,
        {
            targets.push(self.listeners[i]);
            assert(self.listeners@.take(i + 1) =~= self.listeners@.take(i as int).push(
                self.listeners@[i as int],
            ));
            i += 1;
        }
        assert(self.listeners@.take(i as int) =~= self.listeners@);
        self.channel.push_back(share(&value));
        Delivery { value, listeners: targets }
    }

    /// Registers the subscription `id`. Where `id` is registered already,
    /// the registration stays as it is and the new handle stands for it.
    pub fn on_with_id(&mut self, id: u128) -> (r: Subscription)
        ensures
            r.id == id,
            old(self).wf() ==> final(self).wf(),
            final(self).listeners() == subscribed(old(self).listeners(), id),
            final(self).channel() == old(self).channel(),
    {
        if !self.has_listener(id) {
            self.listeners.push(id);
            proof {
                let before = old(self).listeners@;
                if old(self).wf() {
                    assert forall|a: int, b: int|
                        0 <= a < self.listeners@.len() && 0 <= b < self.listeners@.len() && a
                            != b implies self.listeners@[a] != self.listeners@[b] by {
                        if a < before.len() && b < before.len() {
                            assert(before[a] != before[b]);
                        } else if a < before.len() {
                            assert(before.contains(before[a]));
                        } else {
                            assert(before.contains(before[b]));
                        }
                    }
                }
            }
        }
        Subscription { id }
    }

    /// Registers a new subscription under a freshly drawn identifier.
    pub fn on(&mut self) -> (r: Subscription)
        ensures
            old(self).wf() ==> final(self).wf(),
            final(self).listeners() == subscribed(old(self).listeners(), r.id),
            final(self).channel() == old(self).channel(),
    {
        self.on_with_id(fresh_id())
    }

    /// Ends the registration that `sub` stands for. Where there is none,
    /// nothing changes.
    pub fn off(&mut self, sub: &Subscription)
        ensures
            old(self).wf() ==> final(self).wf(),
            final(self).listeners() == unsubscribed(old(self).listeners(), sub.id),
            final(self).channel() == old(self).channel(),
    {
        let id = sub.id;
        let ghost keep = other_than(id);
        let mut kept: Vec<u128> = Vec::new();
        let mut i: usize = 0;
        proof {
            reveal(Seq::filter);
            assert(self.listeners@.take(0) =~= Seq::<u128>::empty());
        }
        while i < self.listeners.len()
            invariant
                i <= self.listeners@.len(),
                self.listeners@ == old(self).listeners@,
                self.channel@ == old(self).channel@,
                keep == other_than(id),
                kept@ == self.listeners@.take(i as int).filter(keep),
            decreases self.listeners@.len() - i,
        {
            proof {
                self.listeners@.take(i as int).lemma_filter_push(self.listeners@[i as int], keep);
                assert(self.listeners@.take(i + 1) =~= self.listeners@.take(i as int).push(
                    self.listeners@[i as int],
                ));
            }
            if self.listeners[i] != id {
                kept.push(self.listeners[i]);
            }
            i += 1;
        }
        proof {
            assert(self.listeners@.take(i as int) =~= self.listeners@);
            if old(self).wf() {
                lemma_filter_keeps_distinct(self.listeners@, keep);
            }
        }
        self.listeners = kept;
    }

    /// Opens a stream on the bus, registered under a freshly drawn identifier.
    pub fn as_stream(&mut self) -> (r: EventStream<T>)
        ensures
            r.queue() == Seq::<Arc<T>>::empty(),
            old(self).wf() ==> final(self).wf(),
            final(self).listeners() == subscribed(old(self).listeners(), r.id()),
            final(self).channel() == old(self).channel(),
    {
        EventStream::new(self)
    }

    /// Takes the oldest value from the bus's own channel, if there is one.
    pub fn recv(&mut self) -> (r: Option<Arc<T>>)
        ensures
            final(self).listeners() == old(self).listeners(),
            match r {
                Some(v) => old(self).channel().len() > 0 && v == old(self).channel()[0]
                    && final(self).channel() == old(self).channel().subrange(
                    1,
                    old(self).channel().len() as int,
                ),
                None => old(self).channel().len() == 0 && final(self).channel() == old(self).channel(),
            },
    {
        self.channel.pop_front()
    }
}

impl<T> Default for EventTarget<T> {
    fn default() -> (r: EventTarget<T>)
        ensures
            r.wf(),
            r.listeners() == Seq::<u128>::empty(),
            r.channel() == Seq::<Arc<T>>::empty(),
    {
        EventTarget::new()
    }
}

/// A pull-style view of a bus: a subscription with a queue of its own, into
/// which the values owed to it are put and from which they are read in the
/// order in which they were published.
#[derive(Debug)]
pub struct EventStream<T> {
    pub(crate) sub: Subscription,
    pub(crate) queue: VecDeque<Arc<T>>,
}

impl<T> EventStream<T> {
    /// The identifier under which the stream is registered.
    pub closed spec fn id(&self) -> u128 {
        self.sub.id
    }

    /// The values delivered and not yet read, oldest first.
    pub closed spec fn queue(&self) -> Seq<Arc<T>> {
        self.queue@
    }

    /// The queue after a delivery: the value joins it where the delivery
    /// names the stream, and not otherwise.
    pub open spec fn accepted(queue: Seq<Arc<T>>, id: u128, delivery: Delivery<T>) -> Seq<Arc<T>> {
        if delivery.listeners@.contains(id) {
            queue.push(delivery.value)
        } else {
            queue
        }
    }

    /// A stream registered on `target` under the identifier `id`.
    pub fn with_id(target: &mut EventTarget<T>, id: u128) -> (r: EventStream<T>)
        ensures
            r.id() == id,
            r.queue() == Seq::<Arc<T>>::empty(),
            old(target).wf() ==> final(target).wf(),
            final(target).listeners() == subscribed(old(target).listeners(), id),
            final(target).channel() == old(target).channel(),
    {
        EventStream { sub: target.on_with_id(id), queue: VecDeque::new() }
    }

    /// A stream registered on `target` under a freshly drawn identifier.
    pub fn new(target: &mut EventTarget<T>) -> (r: EventStream<T>)
        ensures
            r.queue() == Seq::<Arc<T>>::empty(),
            old(target).wf() ==> final(target).wf(),
            final(target).listeners() == subscribed(old(target).listeners(), r.id()),
            final(target).channel() == old(target).channel(),
    {
        EventStream { sub: target.on(), queue: VecDeque::new() }
    }

    /// The subscription behind the stream.
    pub fn subscription(&self) -> (r: &Subscription)
        ensures
            r.id == self.id(),
    {
        &self.sub
    }

    /// Takes in a delivery: its value joins the queue if the delivery names
    /// this stream.
    pub fn accept(&mut self, delivery: &Delivery<T>)
        ensures
            final(self).id() == old(self).id(),
            final(self).queue() == Self::accepted(old(self).queue(), old(self).id(), *delivery),
    {
        let mut i: usize = 0;
        while i < delivery.listeners.len()
            invariant
                i <= delivery.listeners@.len(),
                forall|j: int| 0 <= j < i ==> delivery.listeners@[j] != self.sub.id,
                self.sub.id == old(self).sub.id,
                self.queue@ == old(self).queue@,
            decreases delivery.listeners@.len() - i,
        {
            if delivery.listeners[i] == self.sub.id {
                self.queue.push_back(share(&delivery.value));
                return;
            }
            i += 1;
        }
    }

    /// Reads the next value, if one has been delivered.
    pub fn poll_next(&mut self) -> (r: Option<Arc<T>>)
        ensures
            final(self).id() == old(self).id(),
            match r {
                Some(v) => old(self).queue().len() > 0 && v == old(self).queue()[0] && final(self).queue() == old(self).queue().subrange(1, old(self).queue().len() as int),
                None => old(self).queue().len() == 0 && final(self).queue() == old(self).queue(),
            },
    {
        self.queue.pop_front()
    }
}

/// A bus for events on its own, apart from any store.
#[derive(Debug)]
pub struct TracingEventBridge {
    pub target: EventTarget<Event>,
}

impl TracingEventBridge {
    /// A bridge with a bus that nobody listens to yet.
    pub fn new() -> (r: TracingEventBridge)
        ensures
            r.target.wf(),
            r.target.listeners() == Seq::<u128>::empty(),
            r.target.channel() == Seq::<Arc<Event>>::empty(),
    {
        TracingEventBridge { target: EventTarget::new() }
    }

    /// Publishes `event` on the bridge's bus.
    pub fn emit_tracing_event(&mut self, event: Event) -> (r: Delivery<Event>)
        ensures
            *r.value == event,
            r.listeners@ == old(self).target.listeners(),
            final(self).target.listeners() == old(self).target.listeners(),
            final(self).target.channel() == old(self).target.channel().push(r.value),
    {
        self.target.emit(Arc::new(event))
    }

    /// Registers a new subscription on the bridge's bus.
    pub fn on_tracing_event(&mut self) -> (r: Subscription)
        ensures
            old(self).target.wf() ==> final(self).target.wf(),
            final(self).target.listeners() == subscribed(old(self).target.listeners(), r.id),
            final(self).target.channel() == old(self).target.channel(),
    {
        self.target.on()
    }

    /// Opens a stream on the bridge's bus.
    pub fn as_stream(&mut self) -> (r: EventStream<Event>)
        ensures
            r.queue() == Seq::<Arc<Event>>::empty(),
            old(self).target.wf() ==> final(self).target.wf(),
            final(self).target.listeners() == subscribed(old(self).target.listeners(), r.id()),
            final(self).target.channel() == old(self).target.channel(),
    {
        self.target.as_stream()
    }
}

impl Default for TracingEventBridge {
    fn default() -> (r: TracingEventBridge)
        ensures
            r.target.wf(),
            r.target.listeners() == Seq::<u128>::empty(),
            r.target.channel() == Seq::<Arc<Event>>::empty(),
    {
        TracingEventBridge::new()
    }
}

/// Among listeners without duplicates, an identifier stands once if it is
/// listed and not at all if it is not.
pub proof fn lemma_occurrences(listeners: Seq<u128>, id: u128)
    requires
        listeners.no_duplicates(),
    ensures
        occurrences(listeners, id) == (if listeners.contains(id) {
            1nat
        } else {
            0nat
        }),
    decreases listeners.len(),
{
    reveal(Seq::filter);
    if listeners.len() > 0 {
        let rest = listeners.drop_last();
        assert(rest.no_duplicates()) by {
            assert forall|a: int, b: int| 0 <= a < rest.len() && 0 <= b < rest.len() && a
                != b implies rest[a] != rest[b] by {
                assert(listeners[a] != listeners[b]);
            }
        }
        lemma_occurrences(rest, id);
        if rest.contains(id) {
            let j = choose|j: int| 0 <= j < rest.len() && rest[j] == id;
            assert(listeners[j] == id);
            assert(listeners.last() != id);
        } else if listeners.last() == id {
            assert(listeners[listeners.len() - 1] == id);
        } else if listeners.contains(id) {
            let j = choose|j: int| 0 <= j < listeners.len() && listeners[j] == id;
            assert(rest[j] == id);
        }
    }
}

/// Subscribing, publishing and unsubscribing. Once an identifier has
/// subscribed, the listeners name it exactly once, so every publication,
/// which is owed to the listeners as they stand and leaves them as they are,
/// is owed to it exactly once. Once it has unsubscribed, the listeners no
/// longer name it, whatever has happened in between, and every other
/// identifier is listed as often as before.
pub proof fn lemma_subscribe_emit_unsubscribe(listeners: Seq<u128>, id: u128, other: u128)
    requires
        listeners.no_duplicates(),
        other != id,
    ensures
        subscribed(listeners, id).no_duplicates(),
        occurrences(subscribed(listeners, id), id) == 1,
        occurrences(subscribed(listeners, id), other) == occurrences(listeners, other),
        unsubscribed(listeners, id).no_duplicates(),
        occurrences(unsubscribed(listeners, id), id) == 0,
        occurrences(unsubscribed(listeners, id), other) == occurrences(listeners, other),
        occurrences(unsubscribed(subscribed(listeners, id), id), id) == 0,
{
    let with = subscribed(listeners, id);
    assert(with.no_duplicates() && with.contains(id) && (with.contains(other) <==> listeners.contains(
        other,
    ))) by {
        if !listeners.contains(id) {
            assert(with[listeners.len() as int] == id);
            assert forall|a: int, b: int| 0 <= a < with.len() && 0 <= b < with.len() && a
                != b implies with[a] != with[b] by {
                if a < listeners.len() && b < listeners.len() {
                    assert(listeners[a] != listeners[b]);
                } else if a < listeners.len() {
                    assert(listeners.contains(listeners[a]));
                } else {
                    assert(listeners.contains(listeners[b]));
                }
            }
            if with.contains(other) {
                let j = choose|j: int| 0 <= j < with.len() && with[j] == other;
                assert(listeners[j] == other);
            }
            if listeners.contains(other) {
                let j = choose|j: int| 0 <= j < listeners.len() && listeners[j] == other;
                assert(with[j] == other);
            }
        }
    }
    lemma_occurrences(with, id);
    lemma_occurrences(with, other);
    lemma_occurrences(listeners, other);
    lemma_filter_keeps_distinct(listeners, other_than(id));
    lemma_filter_keeps_distinct(with, other_than(id));
    lemma_occurrences(unsubscribed(listeners, id), id);
    lemma_occurrences(unsubscribed(listeners, id), other);
    lemma_occurrences(unsubscribed(with, id), id);
}

/// Unsubscribing a second time changes nothing.
pub proof fn lemma_unsubscribe_idempotent(listeners: Seq<u128>, id: u128)
    ensures
        unsubscribed(unsubscribed(listeners, id), id) == unsubscribed(listeners, id),
    decreases listeners.len(),
{
    reveal(Seq::filter);
    if listeners.len() > 0 {
        let rest = listeners.drop_last();
        lemma_unsubscribe_idempotent(rest, id);
        if listeners.last() != id {
            unsubscribed(rest, id).lemma_filter_push(listeners.last(), other_than(id));
        }
    }
}

/// Deliveries reach a stream in the order of publication: a stream that is
/// named by two deliveries in a row holds their two values, the earlier
/// one first, behind what it held before.
pub proof fn lemma_stream_keeps_order<T>(
    queue: Seq<Arc<T>>,
    id: u128,
    first: Delivery<T>,
    second: Delivery<T>,
)
    requires
        first.listeners@.contains(id),
        second.listeners@.contains(id),
    ensures
        EventStream::<T>::accepted(EventStream::<T>::accepted(queue, id, first), id, second)
            == queue + seq![first.value, second.value],
{
    assert(queue.push(first.value).push(second.value) =~= queue + seq![first.value, second.value]);
}

/// Filtering a sequence without duplicates leaves no duplicates.
pub proof fn lemma_filter_keeps_distinct(s: Seq<u128>, pred: spec_fn(u128) -> bool)
    requires
        s.no_duplicates(),
    ensures
        s.filter(pred).no_duplicates(),
        forall|x: u128| s.filter(pred).contains(x) <==> (s.contains(x) && pred(x)),
    decreases s.len(),
{
    reveal(Seq::filter);
    if s.len() > 0 {
        let rest = s.drop_last();
        assert(rest.no_duplicates()) by {
            assert forall|a: int, b: int| 0 <= a < rest.len() && 0 <= b < rest.len() && a
                != b implies rest[a] != rest[b] by {
                assert(s[a] != s[b]);
            }
        }
        lemma_filter_keeps_distinct(rest, pred);
        let f = rest.filter(pred);
        assert forall|x: u128| s.filter(pred).contains(x) <==> (s.contains(x) && pred(x)) by {
            if s.filter(pred).contains(x) {
                let k = choose|k: int| 0 <= k < s.filter(pred).len() && s.filter(pred)[k] == x;
                if k < f.len() {
                    assert(f[k] == x);
                    assert(f.contains(x));
                    assert(rest.contains(x));
                    let j = choose|j: int| 0 <= j < rest.len() && rest[j] == x;
                    assert(s[j] == x);
                } else {
                    assert(s[s.len() - 1] == x);
                }
            }
            if s.contains(x) && pred(x) {
                let j = choose|j: int| 0 <= j < s.len() && s[j] == x;
                if j < rest.len() {
                    assert(rest[j] == x);
                    assert(rest.contains(x));
                    let k = choose|k: int| 0 <= k < f.len() && f[k] == x;
                    assert(s.filter(pred)[k] == x);
                } else {
                    assert(s.filter(pred)[f.len() as int] == x);
                }
            }
        }
        if pred(s.last()) {
            assert(!rest.contains(s.last())) by {
                if rest.contains(s.last()) {
                    let j = choose|j: int| 0 <= j < rest.len() && rest[j] == s.last();
                    assert(s[j] == s[s.len() - 1]);
                }
            }
            assert forall|a: int, b: int|
                0 <= a < s.filter(pred).len() && 0 <= b < s.filter(pred).len() && a
                    != b implies s.filter(pred)[a] != s.filter(pred)[b] by {
                if a < f.len() && b < f.len() {
                    assert(f[a] != f[b]);
                } else if a < f.len() {
                    assert(f.contains(f[a]));
                } else {
                    assert(f.contains(f[b]));
                }
            }
        }
    } else {
        assert forall|x: u128| s.filter(pred).contains(x) <==> (s.contains(x) && pred(x)) by {}
    }
}

} // verus!
