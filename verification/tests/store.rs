use spanner::event::Event;
use spanner::event_data::EventData;
use spanner::level::{Level, SerializableLevel};
use spanner::manager::{EventManager, DEFAULT_MAX_EVENTS};
use spanner::registry::{
    clear_global_events, emit, events, get_event_summary, get_global_event_count,
    get_global_events, init, init_global_event_manager, init_global_event_manager_with_count,
    init_layer_only, Registry,
};
use spanner::span::SpanInfo;
use spanner::time::Timestamp;

fn at() -> Timestamp {
    Timestamp { secs: 1_700_000_000, nanos: 0 }
}

fn event(message: &str, level: Level) -> Event {
    Event::new(EventData::new_at(message.to_string(), level, "test".to_string(), at()))
}

fn event_in(message: &str, level: Level, target: &str) -> Event {
    Event::new(EventData::new_at(message.to_string(), level, target.to_string(), at()))
}

fn messages(found: &[&Event]) -> Vec<String> {
    found.iter().map(|e| e.event_data.message.clone()).collect()
}

#[test]
fn capacity_two_evicts_the_oldest() {
    let mut store = EventManager::new(Some(2));
    store.push(event("A", Level::Info));
    store.push(event("B", Level::Info));
    store.push(event("C", Level::Info));
    assert_eq!(messages(&store.get_recent(10)), vec!["C", "B"]);
    assert_eq!(store.len(), 2);
}

#[test]
fn pushes_keep_the_newest_up_to_capacity() {
    for capacity in 0..6usize {
        for pushes in 0..9usize {
            let mut store = EventManager::new(Some(capacity));
            for i in 0..pushes {
                store.push(event(&format!("m{}", i), Level::Debug));
            }
            let kept = pushes.min(capacity);
            assert_eq!(store.len(), kept);
            let expected: Vec<String> =
                (0..kept).map(|k| format!("m{}", pushes - 1 - k)).collect();
            assert_eq!(messages(&store.get_recent(usize::MAX)), expected);
        }
    }
}

#[test]
fn default_capacity_is_twelve_thousand() {
    let store = EventManager::new(None);
    assert_eq!(DEFAULT_MAX_EVENTS, 12_000);
    assert_eq!(store.max_events(), 12_000);
    assert!(store.is_empty());
    assert_eq!(store.len(), 0);
}

#[test]
fn capacity_zero_keeps_nothing() {
    let mut store = EventManager::new(Some(0));
    store.push(event("A", Level::Info));
    assert!(store.is_empty());
    assert_eq!(store.get_recent(5).len(), 0);
}

#[test]
fn levels_example_counts_and_order() {
    let mut store = EventManager::new(Some(10));
    store.push(event("first info", Level::Info));
    store.push(event("an error", Level::Error));
    store.push(event("second info", Level::Info));
    store.push(event("a warning", Level::Warn));
    assert_eq!(messages(&store.get_by_level(Level::Info)), vec!["second info", "first info"]);
    assert_eq!(store.get_by_level(Level::Error).len(), 1);
    assert_eq!(store.get_by_level(Level::Warn).len(), 1);
    assert_eq!(store.get_by_level(Level::Debug).len(), 0);
    assert_eq!(store.get_by_level(Level::Trace).len(), 0);

    let registry = Registry { manager: Some(store) };
    assert_eq!(
        get_event_summary(&registry),
        "Event Summary: 4 total events\n  ERROR: 1\n  WARN: 1\n  INFO: 2\n"
    );
}

#[test]
fn search_without_filters_gives_everything_in_order() {
    let mut store = EventManager::new(Some(10));
    store.push(event("one", Level::Info));
    store.push(event("two", Level::Error));
    store.push(event("three", Level::Trace));
    assert_eq!(messages(&store.search(None, None, None, None)), vec!["three", "two", "one"]);
}

#[test]
fn search_by_level_is_get_by_level() {
    let mut store = EventManager::new(Some(10));
    store.push(event("one", Level::Info));
    store.push(event("two", Level::Error));
    store.push(event("three", Level::Info));
    store.push(event("four", Level::Warn));
    for level in [Level::Error, Level::Warn, Level::Info, Level::Debug, Level::Trace] {
        assert_eq!(
            messages(&store.search(Some(level), None, None, None)),
            messages(&store.get_by_level(level))
        );
    }
    assert_eq!(messages(&store.search(Some(Level::Info), None, None, None)), vec!["three", "one"]);
}

#[test]
fn search_joins_all_filters() {
    let mut store = EventManager::new(Some(10));
    store.push(event_in("disk is full", Level::Error, "app::storage"));
    store.push(event_in("disk is fine", Level::Info, "app::storage"));
    store.push(event_in("disk is full", Level::Error, "app::network"));
    store.push(
        event_in("disk is full again", Level::Error, "app::storage").with_span_stack(vec![
            SpanInfo::new_at(1, "flush_buffers".to_string(), "app".to_string(), Level::Info, at()),
        ]),
    );
    assert_eq!(
        messages(&store.search(Some(Level::Error), Some("storage"), Some("full"), None)),
        vec!["disk is full again", "disk is full"]
    );
    assert_eq!(
        messages(&store.search(Some(Level::Error), Some("storage"), Some("full"), Some("flush"))),
        vec!["disk is full again"]
    );
    assert_eq!(store.search(Some(Level::Warn), Some("storage"), None, None).len(), 0);
    assert_eq!(store.search(None, Some(""), Some(""), None).len(), 4);
}

#[test]
fn target_is_matched_by_substring() {
    let mut store = EventManager::new(Some(10));
    store.push(event_in("a", Level::Info, "app::storage::disk"));
    store.push(event_in("b", Level::Info, "app::network"));
    store.push(event_in("c", Level::Info, "lib::storage"));
    assert_eq!(messages(&store.get_by_target("storage")), vec!["c", "a"]);
    assert_eq!(messages(&store.get_by_target("app::")), vec!["b", "a"]);
    assert_eq!(store.get_by_target("storage::disk::x").len(), 0);
    assert_eq!(store.get_by_target("").len(), 3);
}

#[test]
fn span_is_found_on_the_stack_or_as_current() {
    let mut store = EventManager::new(Some(10));
    store.push(event("on stack", Level::Info).with_span_stack(vec![
        SpanInfo::new_at(1, "outer".to_string(), "t".to_string(), Level::Info, at()),
        SpanInfo::new_at(2, "handle_request".to_string(), "t".to_string(), Level::Info, at()),
    ]));
    store.push(event("current", Level::Info).with_current_span(SpanInfo::new_at(
        3,
        "request_parser".to_string(),
        "t".to_string(),
        Level::Debug,
        at(),
    )));
    store.push(event("none", Level::Info));
    assert_eq!(messages(&store.get_by_span("request")), vec!["current", "on stack"]);
    assert_eq!(messages(&store.get_by_span("outer")), vec!["on stack"]);
    assert_eq!(messages(&store.get_by_span("parser")), vec!["current"]);
    assert_eq!(store.get_by_span("missing").len(), 0);
}

#[test]
fn thread_and_correlation_are_matched_exactly() {
    let mut store = EventManager::new(Some(10));
    store.push(
        event("a", Level::Info)
            .with_thread_info("ThreadId(1)".to_string(), Some("main".to_string()))
            .with_correlation_id("corr-1".to_string()),
    );
    store.push(
        event("b", Level::Info)
            .with_thread_info("ThreadId(12)".to_string(), None)
            .with_correlation_id("corr-12".to_string()),
    );
    store.push(event("c", Level::Info));
    assert_eq!(messages(&store.get_by_thread("ThreadId(1)")), vec!["a"]);
    assert_eq!(messages(&store.get_by_thread("ThreadId(12)")), vec!["b"]);
    assert_eq!(store.get_by_thread("ThreadId").len(), 0);
    assert_eq!(messages(&store.get_by_correlation_id("corr-1")), vec!["a"]);
    assert_eq!(store.get_by_correlation_id("corr").len(), 0);
}

#[test]
fn recent_takes_from_the_front() {
    let mut store = EventManager::new(Some(10));
    store.push(event("one", Level::Info));
    store.push(event("two", Level::Info));
    store.push(event("three", Level::Info));
    assert_eq!(store.get_recent(0).len(), 0);
    assert_eq!(messages(&store.get_recent(2)), vec!["three", "two"]);
    assert_eq!(messages(&store.get_recent(3)), vec!["three", "two", "one"]);
    assert_eq!(messages(&store.get_recent(4)), vec!["three", "two", "one"]);
}

#[test]
fn unknown_label_counts_as_info() {
    let mut odd = event("odd", Level::Error);
    odd.event_data.level = SerializableLevel("bogus".to_string());
    let mut store = EventManager::new(Some(10));
    store.push(odd);
    assert_eq!(messages(&store.get_by_level(Level::Info)), vec!["odd"]);
    assert_eq!(store.get_by_level(Level::Error).len(), 0);
}

#[test]
fn clear_empties_the_history_and_keeps_the_bus() {
    let mut store = EventManager::new(Some(10));
    let sub = store.on();
    store.push(event("one", Level::Info));
    store.clear();
    assert!(store.is_empty());
    assert!(store.bus().has_listener(sub.id));
    let delivery = store.emit(event("two", Level::Info));
    assert_eq!(delivery.listeners, vec![sub.id]);
    assert_eq!(store.len(), 1);
}

#[test]
fn emit_stores_and_publishes() {
    let mut store = EventManager::new(Some(2));
    let first = store.on();
    let second = store.on();
    let delivery = store.emit(event("hello", Level::Warn));
    assert_eq!(delivery.value.event_data.message, "hello");
    assert_eq!(delivery.listeners, vec![first.id, second.id]);
    assert_eq!(messages(&store.get_recent(5)), vec!["hello"]);
    store.off(&first);
    let delivery = store.emit(event("again", Level::Warn));
    assert_eq!(delivery.listeners, vec![second.id]);
    assert_eq!(messages(&store.get_recent(5)), vec!["again", "hello"]);
}

#[test]
fn push_all_is_push_after_push() {
    let shared: Vec<std::sync::Arc<Event>> = ["a", "b", "c", "d"]
        .iter()
        .map(|m| std::sync::Arc::new(event(m, Level::Info)))
        .collect();
    let mut store = EventManager::new(Some(3));
    store.push(event("z", Level::Info));
    store.push_all(&shared);
    assert_eq!(messages(&store.get_recent(10)), vec!["d", "c", "b"]);
    assert_eq!(store.snapshot().len(), 3);
    assert!(std::sync::Arc::ptr_eq(&store.snapshot()[0], &shared[3]));
}

#[test]
fn registry_reports_nothing_before_initialisation() {
    let mut registry = Registry::new();
    assert!(!registry.is_initialized());
    assert!(get_global_events(&registry).is_none());
    assert_eq!(get_global_event_count(&registry), 0);
    assert!(events(&registry).is_none());
    assert!(emit(&mut registry, event("lost", Level::Info)).is_none());
    clear_global_events(&mut registry);
    assert!(!registry.is_initialized());
    assert_eq!(get_event_summary(&registry), "No events captured");
}

#[test]
fn first_initialisation_wins() {
    let mut registry = Registry::new();
    init_global_event_manager_with_count(&mut registry, 2);
    assert!(emit(&mut registry, event("one", Level::Info)).is_some());
    init_global_event_manager(&mut registry);
    init(&mut registry);
    init_layer_only(&mut registry);
    init_global_event_manager_with_count(&mut registry, 50);
    assert_eq!(registry.manager.as_ref().map(|m| m.max_events()), Some(2));
    assert_eq!(get_global_event_count(&registry), 1);
    emit(&mut registry, event("two", Level::Info));
    emit(&mut registry, event("three", Level::Info));
    assert_eq!(get_global_event_count(&registry), 2);
    let all = get_global_events(&registry).map(|v| {
        v.iter().map(|e| e.event_data.message.clone()).collect::<Vec<String>>()
    });
    assert_eq!(all, Some(vec!["three".to_string(), "two".to_string()]));
}

#[test]
fn default_initialisation_uses_the_default_capacity() {
    let mut registry = Registry::new();
    init(&mut registry);
    assert_eq!(registry.manager.as_ref().map(|m| m.max_events()), Some(12_000));
    assert_eq!(get_event_summary(&registry), "Event Summary: 0 total events\n");
    assert_eq!(events(&registry).map(|bus| bus.listener_count()), Some(0));
}

#[test]
fn clearing_the_registry_empties_the_store() {
    let mut registry = Registry::new();
    init_global_event_manager(&mut registry);
    emit(&mut registry, event("one", Level::Error));
    emit(&mut registry, event("two", Level::Trace));
    assert_eq!(
        get_event_summary(&registry),
        "Event Summary: 2 total events\n  ERROR: 1\n  TRACE: 1\n"
    );
    clear_global_events(&mut registry);
    assert_eq!(get_global_event_count(&registry), 0);
    assert_eq!(get_global_events(&registry).map(|v| v.len()), Some(0));
}
