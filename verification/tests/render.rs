use std::sync::Arc;

use spanner::event::Event;
use spanner::event_data::EventData;
use spanner::fields::FieldMap;
use spanner::level::{Level, SerializableLevel};
use spanner::render::{
    write_header, write_location, write_origin, write_pairs, write_section, write_span_line,
};
use spanner::span::SpanInfo;
use spanner::text::push_indent;
use spanner::time::Timestamp;

fn ts(secs: i64, nanos: u32) -> Timestamp {
    Timestamp { secs, nanos }
}

fn span(id: u64, name: &str, level: Level, entered: i64) -> SpanInfo {
    SpanInfo::new_at(id, name.to_string(), "app".to_string(), level, ts(entered, 0))
}

fn event(message: &str, level: Level) -> Event {
    Event::new(EventData::new_at(
        message.to_string(),
        level,
        "app::core".to_string(),
        ts(1_700_000_000, 0),
    ))
}

#[test]
fn indentation_is_two_spaces_a_level() {
    let mut out = "x".to_string();
    push_indent(&mut out, 0);
    assert_eq!(out, "x");
    push_indent(&mut out, 3);
    assert_eq!(out, "x      ");
}

#[test]
fn pairs_are_written_in_order() {
    let mut fields = FieldMap::new();
    fields.insert("a".to_string(), "1".to_string());
    fields.insert("b".to_string(), "2".to_string());
    let mut out = String::new();
    write_pairs(&mut out, &fields, " ", "=", "");
    assert_eq!(out, " a=1 b=2");
    let mut out = "head|".to_string();
    write_pairs(&mut out, &fields, "  ", ": ", "\n");
    assert_eq!(out, "head|  a: 1\n  b: 2\n");
    let mut out = "same".to_string();
    write_pairs(&mut out, &FieldMap::new(), "<", "=", ">");
    assert_eq!(out, "same");
}

#[test]
fn span_line_with_and_without_duration_and_fields() {
    let mut s = span(1, "load", Level::Debug, 10);
    let mut out = String::new();
    write_span_line(&mut out, &s, "  ", None);
    assert_eq!(out, "  ├─ load (DEBUG) [active]\n");

    s.add_field("file".to_string(), "a.txt".to_string());
    s.add_field("size".to_string(), "12".to_string());
    let mut out = String::new();
    write_span_line(&mut out, &s, "", Some("1.50s"));
    assert_eq!(out, "├─ load (DEBUG) [1.50s] { file=a.txt size=12 }\n");
}

#[test]
fn span_line_shows_the_level_that_the_label_stands_for() {
    let mut s = span(1, "odd", Level::Error, 10);
    s.level = SerializableLevel("loud".to_string());
    let mut out = String::new();
    write_span_line(&mut out, &s, "", None);
    assert_eq!(out, "├─ odd (INFO) [active]\n");
}

#[test]
fn tree_of_an_event_without_spans_is_empty() {
    assert_eq!(event("m", Level::Info).get_span_tree_at(ts(0, 0)), "");
    assert_eq!(event("m", Level::Info).get_span_tree(), "");
}

#[test]
fn tree_walks_the_stack_and_each_child_tree_in_order() {
    let mut outer = span(1, "request", Level::Info, 100);
    outer.add_field("id".to_string(), "7".to_string());
    let mut parse = span(2, "parse", Level::Debug, 101);
    parse.exit_at(ts(101, 500_000_000));
    let mut headers = span(3, "headers", Level::Trace, 101);
    headers.exit_at(ts(101, 250_000_000));
    parse.add_child(headers);
    outer.add_child(parse);
    let mut respond = span(4, "respond", Level::Debug, 102);
    respond.exit_at(ts(104, 0));
    outer.add_child(respond);
    let mut inner = span(5, "db", Level::Warn, 103);
    inner.add_child(span(6, "query", Level::Info, 104));
    let never = span(7, "future", Level::Info, 200);

    let e = event("m", Level::Info)
        .with_current_span(span(5, "db", Level::Warn, 103))
        .with_span_stack(vec![outer, inner, never]);
    let expected = "Current Span: db (WARN)\n\
Span Stack:\n\
├─ request (INFO) [10.00s] { id=7 }\n\
\x20\x20├─ parse (DEBUG) [500.00ms]\n\
\x20\x20\x20\x20├─ headers (TRACE) [250.00ms]\n\
\x20\x20├─ respond (DEBUG) [2.00s]\n\
\x20\x20├─ db (WARN) [7.00s]\n\
\x20\x20\x20\x20├─ query (INFO) [6.00s]\n\
\x20\x20\x20\x20├─ future (INFO) [active]\n";
    assert_eq!(e.get_span_tree_at(ts(110, 0)), expected);
}

#[test]
fn tree_with_only_a_current_span() {
    let e = event("m", Level::Info).with_current_span(span(1, "only", Level::Trace, 1));
    assert_eq!(e.get_span_tree_at(ts(5, 0)), "Current Span: only (TRACE)\n");
}

#[test]
fn header_location_origin_and_sections() {
    let mut data = EventData::new_at("boom".to_string(), Level::Error, "app::db".to_string(), ts(0, 0));
    let mut out = String::new();
    write_header(&mut out, &data, "yesterday");
    assert_eq!(out, "Event: boom (ERROR)\nTarget: app::db\nTimestamp: yesterday\n");

    let mut out = String::new();
    write_location(&mut out, &data);
    assert_eq!(out, "");
    data.file = Some("src/db.rs".to_string());
    write_location(&mut out, &data);
    assert_eq!(out, "Location: src/db.rs:0\n");
    data.line = Some(4_000_000_000);
    let mut out = String::new();
    write_location(&mut out, &data);
    assert_eq!(out, "Location: src/db.rs:4000000000\n");

    let bare = Event::new(data);
    let mut out = String::new();
    write_origin(&mut out, &bare);
    assert_eq!(out, "");
    let mut named = bare.with_thread_info("ThreadId(2)".to_string(), Some("io".to_string()));
    let mut out = String::new();
    write_origin(&mut out, &named);
    assert_eq!(out, "Thread: ThreadId(2) (io)\n");
    named.thread_name = None;
    let full = named.with_process_id(u32::MAX).with_correlation_id("corr-1".to_string());
    let mut out = String::new();
    write_origin(&mut out, &full);
    assert_eq!(out, "Thread: ThreadId(2)\nProcess ID: 4294967295\nCorrelation ID: corr-1\n");

    let mut fields = FieldMap::new();
    let mut out = String::new();
    write_section(&mut out, "Title:\n", &fields);
    assert_eq!(out, "");
    fields.insert("k".to_string(), "v".to_string());
    write_section(&mut out, "Title:\n", &fields);
    assert_eq!(out, "Title:\n  k: v\n");
}

#[test]
fn full_context_of_a_plain_event() {
    let e = event("hello", Level::Info);
    assert_eq!(
        e.get_full_context_at(ts(0, 0)),
        "Event: hello (INFO)\nTarget: app::core\nTimestamp: 2023-11-14T22:13:20Z\n\n"
    );
    assert_eq!(e.get_full_context(), e.get_full_context_at(ts(0, 0)));
}

#[test]
fn full_context_follows_the_chain_of_parents() {
    let root = Arc::new(event("root cause", Level::Error));
    let mut middle = event("middle", Level::Warn).with_parent(root);
    middle.event_data.file = Some("src/m.rs".to_string());
    middle.event_data.line = Some(12);
    let middle = Arc::new(middle);
    let mut leaf = event("leaf", Level::Info)
        .with_parent(middle)
        .with_thread_info("ThreadId(1)".to_string(), Some("main".to_string()))
        .with_process_id(10)
        .with_correlation_id("corr-9".to_string())
        .with_span_stack(vec![span(1, "job", Level::Info, 1_700_000_000)]);
    leaf.event_data.add_field("attempt".to_string(), "2".to_string());
    leaf.add_metadata("region".to_string(), "eu".to_string());

    let expected = "Event: leaf (INFO)\n\
Target: app::core\n\
Timestamp: 2023-11-14T22:13:20Z\n\
Thread: ThreadId(1) (main)\n\
Process ID: 10\n\
Correlation ID: corr-9\n\
Event Fields:\n\
\x20\x20attempt: 2\n\
Metadata:\n\
\x20\x20region: eu\n\
\n\
Span Stack:\n\
├─ job (INFO) [1.00s]\n\
\n\
--- Parent Event ---\n\
Event: middle (WARN)\n\
Target: app::core\n\
Timestamp: 2023-11-14T22:13:20Z\n\
Location: src/m.rs:12\n\
\n\
\n\
--- Parent Event ---\n\
Event: root cause (ERROR)\n\
Target: app::core\n\
Timestamp: 2023-11-14T22:13:20Z\n\
\n";
    assert_eq!(leaf.get_full_context_at(ts(1_700_000_001, 0)), expected);
}
