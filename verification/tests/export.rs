use std::sync::Arc;

use spanner::capture::{CallSite, FieldVisitor, Origin, SpannerLayer};
use spanner::event::Event;
use spanner::event_data::EventData;
use spanner::export::{
    create_export_data, create_export_data_at, export_filtered_to_data,
    export_filtered_to_data_at, export_to_data, export_to_data_at, filter_events,
    import_and_merge_from_data, import_from_data, LevelCounts, FORMAT_VERSION,
};
use spanner::level::{Level, SerializableLevel};
use spanner::registry::{
    clear_global_events, emit, get_event_summary, get_global_event_count, get_global_events,
    init_global_event_manager, init_global_event_manager_with_count, Registry,
};
use spanner::time::Timestamp;

fn at() -> Timestamp {
    Timestamp { secs: 1_700_000_000, nanos: 0 }
}

fn event(message: &str, level: Level, target: &str) -> Event {
    Event::new(EventData::new_at(message.to_string(), level, target.to_string(), at()))
}

fn shared(message: &str, level: Level) -> Arc<Event> {
    Arc::new(event(message, level, "test"))
}

fn messages(events: &[Arc<Event>]) -> Vec<String> {
    events.iter().map(|e| e.event_data.message.clone()).collect()
}

fn counts(counts: &LevelCounts) -> Vec<(String, usize)> {
    let mut all = counts.entries.clone();
    all.sort();
    all
}

#[test]
fn test_binary_export() {
    let mut registry = Registry::new();
    init_global_event_manager(&mut registry);
    clear_global_events(&mut registry);

    let event1 = Event::new(EventData::new("Test event 1".to_string(), Level::Info, "test".to_string()));
    let event2 = Event::new(EventData::new("Test event 2".to_string(), Level::Error, "test".to_string()));
    emit(&mut registry, event1);
    emit(&mut registry, event2);

    let data = export_to_data(&registry);
    assert!(!data.events.is_empty(), "Binary data should not be empty");
    println!("Successfully exported {} events", data.events.len());
    assert_eq!(messages(&data.events), vec!["Test event 2", "Test event 1"]);
    assert_eq!(data.metadata.total_events, 2);

    let summary = get_event_summary(&registry);
    println!("Event summary:\n{}", summary);
    assert_eq!(summary, "Event Summary: 2 total events\n  ERROR: 1\n  INFO: 1\n");
}

#[test]
fn test_filtered_export() {
    let mut registry = Registry::new();
    init_global_event_manager(&mut registry);
    clear_global_events(&mut registry);

    let listeners = spanner::registry::events(&registry)
        .expect("Events target should be available")
        .listener_count();
    assert_eq!(listeners, 0);

    emit(&mut registry, event("Info message", Level::Info, "test"));
    emit(&mut registry, event("Error message", Level::Error, "test"));
    emit(&mut registry, event("Debug message", Level::Debug, "test"));

    let data = export_to_data(&registry);
    let count = data.events.len();
    println!("Successfully exported {} events", count);
    assert!(count > 0, "Export file should not be empty");

    let imported_manager = import_from_data(&data);
    let imported_count = imported_manager.len();
    println!("Successfully imported {} events", imported_count);
    assert_eq!(count, imported_count, "Import count should match export count");

    let imported_events: Vec<_> = imported_manager.get_recent(10);
    println!("Imported events: {:?}", imported_events.len());
    assert_eq!(imported_events.len(), 3);
}

#[test]
fn test_subscriber_integration() {
    let mut registry = Registry::new();
    init_global_event_manager(&mut registry);
    clear_global_events(&mut registry);

    let layer = SpannerLayer;
    let reports = [
        (Level::Info, "Test info message from subscriber"),
        (Level::Warn, "Test warning from subscriber"),
        (Level::Error, "Test error from subscriber"),
    ];
    for (level, message) in reports {
        let mut recorded = FieldVisitor::new();
        recorded.record_debug("message", format!("{:?}", message));
        let delivery = layer.on_event(
            &mut registry,
            recorded,
            CallSite {
                level,
                target: "export".to_string(),
                file: Some("tests/export.rs".to_string()),
                line: Some(1),
                module: Some("export".to_string()),
            },
            Origin { thread_id: "ThreadId(1)".to_string(), thread_name: None, process_id: 1 },
        );
        assert_eq!(delivery.map(|d| d.value.event_data.message.clone()), Some(message.to_string()));
    }

    let summary = get_event_summary(&registry);
    println!("Subscriber integration test - captured events summary:\n{}", summary);
    let count = get_global_event_count(&registry);
    println!("Total events captured: {}", count);
    assert!(count > 0, "Should have captured some events through the subscriber");
    assert_eq!(count, 3);
    assert_eq!(summary, "Event Summary: 3 total events\n  ERROR: 1\n  WARN: 1\n  INFO: 1\n");
}

#[test]
fn layer_drops_events_without_a_store() {
    let mut registry = Registry::new();
    let mut recorded = FieldVisitor::new();
    recorded.record_debug("message", "\"lost\"".to_string());
    let delivery = SpannerLayer.on_event(
        &mut registry,
        recorded,
        CallSite { level: Level::Info, target: "t".to_string(), file: None, line: None, module: None },
        Origin { thread_id: "ThreadId(1)".to_string(), thread_name: None, process_id: 1 },
    );
    assert!(delivery.is_none());
    assert!(!registry.is_initialized());
}

#[test]
fn metadata_sums_up_the_events() {
    let events = vec![
        shared("a", Level::Info),
        shared("b", Level::Error),
        shared("c", Level::Info),
        shared("d", Level::Warn),
    ];
    let data = create_export_data_at(events.clone(), Some("nightly".to_string()), at());
    assert_eq!(data.metadata.version, FORMAT_VERSION);
    assert_eq!(data.metadata.version, "0.1.0");
    assert_eq!(data.metadata.timestamp, at());
    assert_eq!(data.metadata.total_events, 4);
    assert_eq!(data.metadata.description.as_deref(), Some("nightly"));
    assert_eq!(
        counts(&data.metadata.level_counts),
        vec![("ERROR".to_string(), 1), ("INFO".to_string(), 2), ("WARN".to_string(), 1)]
    );
    assert_eq!(data.metadata.level_counts.count("INFO"), 2);
    assert_eq!(data.metadata.level_counts.count("ERROR"), 1);
    assert_eq!(data.metadata.level_counts.count("DEBUG"), 0);
    assert_eq!(data.metadata.level_counts.len(), 3);
    assert_eq!(messages(&data.events), vec!["a", "b", "c", "d"]);
    for (stored, given) in data.events.iter().zip(events.iter()) {
        assert!(Arc::ptr_eq(stored, given));
    }
}

#[test]
fn metadata_of_no_events() {
    let data = create_export_data(Vec::new(), None);
    assert_eq!(data.metadata.total_events, 0);
    assert_eq!(data.metadata.level_counts.len(), 0);
    assert!(data.metadata.description.is_none());
    assert!(data.events.is_empty());
    assert!(data.metadata.timestamp.secs > 1_600_000_000);
}

#[test]
fn counts_go_by_the_stored_label() {
    let mut odd = event("odd", Level::Info, "test");
    odd.event_data.level = SerializableLevel("bogus".to_string());
    let data = create_export_data_at(vec![Arc::new(odd), shared("a", Level::Info)], None, at());
    assert_eq!(
        counts(&data.metadata.level_counts),
        vec![("INFO".to_string(), 1), ("bogus".to_string(), 1)]
    );
}

#[test]
fn filter_keeps_matching_events_in_order() {
    let events = vec![
        Arc::new(event("disk full", Level::Error, "app::storage")),
        Arc::new(event("disk fine", Level::Info, "app::storage")),
        Arc::new(event("link down", Level::Error, "app::network")),
        Arc::new(event("disk full again", Level::Error, "app::storage")),
    ];
    let kept = filter_events(events.clone(), Some(Level::Error), Some("storage"), None, None);
    assert_eq!(messages(&kept), vec!["disk full", "disk full again"]);
    assert!(Arc::ptr_eq(&kept[1], &events[3]));
    assert_eq!(filter_events(events.clone(), None, None, None, None).len(), 4);
    assert_eq!(filter_events(events.clone(), None, None, Some("down"), None).len(), 1);
    assert_eq!(filter_events(events, None, None, None, Some("any")).len(), 0);
}

#[test]
fn export_with_description_then_import() {
    let mut registry = Registry::new();
    init_global_event_manager(&mut registry);
    emit(&mut registry, event("keep one", Level::Error, "app"));
    emit(&mut registry, event("skip", Level::Info, "app"));
    emit(&mut registry, event("keep two", Level::Error, "app"));

    let data = export_filtered_to_data(
        &registry,
        Some(Level::Error),
        None,
        None,
        None,
        Some("nightly".to_string()),
    );
    assert_eq!(data.metadata.description.as_deref(), Some("nightly"));
    assert_eq!(data.metadata.total_events, 2);
    assert_eq!(messages(&data.events), vec!["keep two", "keep one"]);
    let filtered_count = registry
        .manager
        .as_ref()
        .map(|m| m.search(Some(Level::Error), None, None, None).len())
        .unwrap();

    let mut target = Registry::new();
    init_global_event_manager(&mut target);
    let (back, imported) = import_and_merge_from_data(&mut target, data);
    assert_eq!(back.metadata.description.as_deref(), Some("nightly"));
    assert_eq!(imported, filtered_count);
    assert_eq!(get_global_event_count(&target), 2);

    let imported_store = import_from_data(&back);
    assert_eq!(imported_store.len(), filtered_count);
}

#[test]
fn export_at_a_given_time() {
    let mut registry = Registry::new();
    init_global_event_manager(&mut registry);
    emit(&mut registry, event("a", Level::Trace, "x::y"));
    emit(&mut registry, event("b", Level::Trace, "x::z"));
    let whole = export_to_data_at(&registry, at());
    assert_eq!(whole.metadata.timestamp, at());
    assert!(whole.metadata.description.is_none());
    assert_eq!(messages(&whole.events), vec!["b", "a"]);
    let part = export_filtered_to_data_at(&registry, None, Some("::y"), None, None, None, at());
    assert_eq!(messages(&part.events), vec!["a"]);
    assert_eq!(counts(&part.metadata.level_counts), vec![("TRACE".to_string(), 1)]);
}

#[test]
fn export_without_a_store_is_empty() {
    let registry = Registry::new();
    let data = export_to_data(&registry);
    assert!(data.events.is_empty());
    assert_eq!(data.metadata.total_events, 0);
    let filtered = export_filtered_to_data(&registry, Some(Level::Info), None, None, None, None);
    assert!(filtered.events.is_empty());
}

#[test]
fn import_replays_in_stored_order() {
    let data = create_export_data_at(
        vec![shared("first", Level::Info), shared("second", Level::Info), shared("third", Level::Info)],
        None,
        at(),
    );
    let store = import_from_data(&data);
    assert_eq!(store.max_events(), 12_000);
    let found: Vec<String> =
        store.get_recent(10).iter().map(|e| e.event_data.message.clone()).collect();
    assert_eq!(found, vec!["third", "second", "first"]);
}

#[test]
fn import_beyond_capacity_keeps_the_last_events() {
    let events: Vec<Arc<Event>> =
        (0..12_003).map(|i| shared(&format!("e{}", i), Level::Debug)).collect();
    let data = create_export_data_at(events, None, at());
    assert_eq!(data.metadata.total_events, 12_003);
    assert_eq!(data.metadata.level_counts.count("DEBUG"), 12_003);
    let store = import_from_data(&data);
    assert_eq!(store.len(), 12_000);
    let newest = store.get_recent(1)[0].event_data.message.clone();
    assert_eq!(newest, "e12002");
    let all = store.get_recent(usize::MAX);
    assert_eq!(all[all.len() - 1].event_data.message, "e3");
}

#[test]
fn merge_pushes_without_publishing() {
    let mut registry = Registry::new();
    init_global_event_manager_with_count(&mut registry, 3);
    emit(&mut registry, event("live", Level::Info, "app"));
    let sub = registry.manager.as_mut().map(|m| m.on()).unwrap();
    let data = create_export_data_at(
        vec![shared("old one", Level::Info), shared("old two", Level::Info), shared("old three", Level::Info)],
        None,
        at(),
    );
    let (back, count) = import_and_merge_from_data(&mut registry, data);
    assert_eq!(count, 3);
    assert_eq!(back.events.len(), 3);
    let all = get_global_events(&registry).unwrap();
    assert_eq!(messages(&all), vec!["old three", "old two", "old one"]);
    let bus = spanner::registry::events(&registry).unwrap();
    assert!(bus.has_listener(sub.id));
    let mut drained = 0;
    let mut manager = registry.manager.take().unwrap();
    let mut stream = manager.as_stream();
    while stream.poll_next().is_some() {
        drained += 1;
    }
    assert_eq!(drained, 0);

    let mut none = Registry::new();
    let (_, count) = import_and_merge_from_data(&mut none, back);
    assert_eq!(count, 3);
    assert!(!none.is_initialized());
}
