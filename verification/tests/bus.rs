use std::cell::RefCell;
use std::sync::Arc;

use spanner::event::Event;
use spanner::event_data::EventData;
use spanner::events::{EventStream, EventTarget, Subscription, TracingEventBridge};
use spanner::level::Level;
use spanner::time::Timestamp;

#[test]
fn subscriber_gets_each_emit_once_until_it_unsubscribes() {
    let mut bus: EventTarget<u32> = EventTarget::new();
    let early = bus.emit(Arc::new(0));
    assert!(early.listeners.is_empty());

    let sub = bus.on_with_id(7);
    assert_eq!(sub.id, 7);
    for n in 1..=5u32 {
        let delivery = bus.emit(Arc::new(n));
        assert_eq!(*delivery.value, n);
        assert_eq!(delivery.listeners.iter().filter(|id| **id == 7).count(), 1);
    }

    bus.off(&sub);
    for n in 6..=8u32 {
        let delivery = bus.emit(Arc::new(n));
        assert_eq!(delivery.listeners.iter().filter(|id| **id == 7).count(), 0);
    }
}

#[test]
fn listeners_are_named_in_order_of_registration() {
    let mut bus: EventTarget<u32> = EventTarget::new();
    let a = bus.on_with_id(30);
    let b = bus.on_with_id(10);
    let c = bus.on_with_id(20);
    assert_eq!(bus.emit(Arc::new(1)).listeners, vec![30, 10, 20]);
    bus.off(&b);
    assert_eq!(bus.emit(Arc::new(2)).listeners, vec![30, 20]);
    bus.off(&a);
    bus.off(&c);
    assert!(bus.emit(Arc::new(3)).listeners.is_empty());
    assert_eq!(bus.listener_count(), 0);
}

#[test]
fn registering_an_identifier_twice_keeps_one_registration() {
    let mut bus: EventTarget<u32> = EventTarget::new();
    let first = bus.on_with_id(5);
    let second = bus.on_with_id(5);
    assert_eq!(first.id, second.id);
    assert_eq!(bus.listener_count(), 1);
    assert_eq!(bus.emit(Arc::new(1)).listeners, vec![5]);
}

#[test]
fn unsubscribing_twice_changes_nothing_more() {
    let mut bus: EventTarget<u32> = EventTarget::new();
    let keep = bus.on_with_id(1);
    let gone = bus.on_with_id(2);
    bus.off(&gone);
    bus.off(&gone);
    gone.off(&mut bus);
    bus.off(&Subscription::new(99));
    assert!(bus.has_listener(keep.id));
    assert!(!bus.has_listener(gone.id));
    assert_eq!(bus.emit(Arc::new(1)).listeners, vec![1]);
}

#[test]
fn fresh_subscriptions_are_told_apart() {
    let mut bus: EventTarget<u32> = EventTarget::new();
    let a = bus.on();
    let b = bus.on();
    assert_ne!(a.id, b.id);
    assert_eq!(bus.listener_count(), 2);
    assert_eq!(bus.emit(Arc::new(1)).listeners, vec![a.id, b.id]);
}

#[test]
fn the_channel_keeps_what_was_published_in_order() {
    let mut bus: EventTarget<String> = EventTarget::new();
    assert!(bus.recv().is_none());
    bus.emit(Arc::new("one".to_string()));
    bus.emit(Arc::new("two".to_string()));
    assert_eq!(bus.recv().map(|v| (*v).clone()), Some("one".to_string()));
    bus.emit(Arc::new("three".to_string()));
    assert_eq!(bus.recv().map(|v| (*v).clone()), Some("two".to_string()));
    assert_eq!(bus.recv().map(|v| (*v).clone()), Some("three".to_string()));
    assert!(bus.recv().is_none());
}

#[test]
fn emitted_value_is_shared_not_copied() {
    let mut bus: EventTarget<String> = EventTarget::new();
    let value = Arc::new("shared".to_string());
    let delivery = bus.emit(value.clone());
    assert!(Arc::ptr_eq(&delivery.value, &value));
    let queued = bus.recv().unwrap();
    assert!(Arc::ptr_eq(&queued, &value));
}

#[test]
fn stream_reads_deliveries_in_emission_order() {
    let mut bus: EventTarget<u32> = EventTarget::new();
    let before = bus.emit(Arc::new(0));
    let mut stream = bus.as_stream();
    stream.accept(&before);
    assert!(stream.poll_next().is_none());

    for n in 1..=3u32 {
        let delivery = bus.emit(Arc::new(n));
        stream.accept(&delivery);
    }
    assert_eq!(stream.poll_next().map(|v| *v), Some(1));
    assert_eq!(stream.poll_next().map(|v| *v), Some(2));
    assert_eq!(stream.poll_next().map(|v| *v), Some(3));
    assert!(stream.poll_next().is_none());

    bus.off(stream.subscription());
    let after = bus.emit(Arc::new(4));
    stream.accept(&after);
    assert!(stream.poll_next().is_none());
}

#[test]
fn each_stream_has_a_queue_of_its_own() {
    let mut bus: EventTarget<u32> = EventTarget::new();
    let mut slow = EventStream::with_id(&mut bus, 1);
    let first = bus.emit(Arc::new(10));
    let mut late = EventStream::new(&mut bus);
    let second = bus.emit(Arc::new(20));
    for delivery in [&first, &second] {
        slow.accept(delivery);
        late.accept(delivery);
    }
    assert_eq!(late.poll_next().map(|v| *v), Some(20));
    assert!(late.poll_next().is_none());
    assert_eq!(slow.poll_next().map(|v| *v), Some(10));
    assert_eq!(slow.poll_next().map(|v| *v), Some(20));
    assert!(slow.poll_next().is_none());
}

#[test]
fn bridge_publishes_events() {
    let mut bridge = TracingEventBridge::new();
    let sub = bridge.on_tracing_event();
    let mut stream = bridge.as_stream();
    let event = Event::new(EventData::new_at(
        "bridged".to_string(),
        Level::Info,
        "test".to_string(),
        Timestamp { secs: 0, nanos: 0 },
    ));
    let delivery = bridge.emit_tracing_event(event);
    assert_eq!(delivery.listeners.len(), 2);
    assert_eq!(delivery.listeners[0], sub.id);
    stream.accept(&delivery);
    assert_eq!(
        stream.poll_next().map(|e| e.event_data.message.clone()),
        Some("bridged".to_string())
    );
}

#[test]
fn dispatch_calls_each_named_handler_once_in_order() {
    let log: RefCell<Vec<(char, u32)>> = RefCell::new(Vec::new());
    let mut bus: EventTarget<u32> = EventTarget::new();
    let a = bus.on_with_id(1);
    let b = bus.on_with_id(2);
    let _silent = bus.on_with_id(3);
    let handlers: Vec<(u128, Box<dyn Fn(Arc<u32>) + '_>)> = vec![
        (b.id, Box::new(|v: Arc<u32>| log.borrow_mut().push(('b', *v)))),
        (a.id, Box::new(|v: Arc<u32>| log.borrow_mut().push(('a', *v)))),
        (a.id, Box::new(|v: Arc<u32>| log.borrow_mut().push(('x', *v)))),
        (9, Box::new(|v: Arc<u32>| log.borrow_mut().push(('z', *v)))),
    ];

    for n in 1..=3u32 {
        let delivery = bus.emit(Arc::new(n));
        assert_eq!(delivery.dispatch(&handlers), 2);
    }
    assert_eq!(
        *log.borrow(),
        vec![('a', 1), ('b', 1), ('a', 2), ('b', 2), ('a', 3), ('b', 3)]
    );

    bus.off(&a);
    let delivery = bus.emit(Arc::new(4));
    assert_eq!(delivery.dispatch(&handlers), 1);
    bus.off(&b);
    let delivery = bus.emit(Arc::new(5));
    assert_eq!(delivery.dispatch(&handlers), 0);
    assert_eq!(log.borrow().len(), 7);
    assert_eq!(log.borrow()[6], ('b', 4));
}

#[test]
fn dispatch_without_listeners_or_handlers_calls_nothing() {
    let mut bus: EventTarget<u32> = EventTarget::new();
    let none: Vec<(u128, fn(Arc<u32>))> = Vec::new();
    assert_eq!(bus.emit(Arc::new(1)).dispatch(&none), 0);
    bus.on_with_id(1);
    assert_eq!(bus.emit(Arc::new(2)).dispatch(&none), 0);
}

#[test]
fn default_bus_and_bridge_are_empty() {
    let mut bus: EventTarget<u32> = EventTarget::default();
    assert_eq!(bus.listener_count(), 0);
    assert!(bus.recv().is_none());
    let mut bridge = TracingEventBridge::default();
    assert_eq!(bridge.target.listener_count(), 0);
    assert!(bridge.target.recv().is_none());
}
