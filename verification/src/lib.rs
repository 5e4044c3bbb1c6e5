//! Capture, bounded retention and distribution of structured runtime events.
//!
//! The data model lives in `level`, `time`, `fields`, `span`, `event_data`
//! and `event`; `events` is the publish/subscribe bus, `manager` the bounded
//! store with its queries, `registry` the holder of the one active store,
//! `export` the snapshot of a store and the way back, `render` the
//! diagnostic text, and `capture` the path from a call site to an event.

pub mod capture;
pub mod event;
pub mod event_data;
pub mod events;
pub mod export;
pub mod fields;
pub mod level;
pub mod manager;
pub mod registry;
pub mod render;
pub mod span;
pub mod text;
pub mod time;

pub use capture::{CallSite, FieldVisitor, Origin, SpannerLayer};
pub use event::{generate_uuid_like_string, Event};
pub use event_data::EventData;
pub use events::{Delivery, EventStream, EventTarget, Subscription, TracingEventBridge};
pub use export::{
    create_export_data, export_filtered_to_data, export_to_data, import_and_merge_from_data,
    import_from_data, ExportData, ExportMetadata, LevelCounts,
};
pub use fields::FieldMap;
pub use level::{Level, SerializableLevel};
pub use manager::EventManager;
pub use registry::{
    clear_global_events, emit, events, get_event_summary, get_global_event_count,
    get_global_events, init, init_global_event_manager, init_global_event_manager_with_count,
    init_layer_only, Registry,
};
pub use span::SpanInfo;
pub use time::{Elapsed, Timestamp};
