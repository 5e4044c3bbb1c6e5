//! What an event says: its message, level, origin and fields.

use vstd::prelude::*;
use crate::fields::FieldMap;
use crate::level::{Level, SerializableLevel};
use crate::time::Timestamp;

verus! {

/// The captured content of one event.
#[derive(Clone, Debug)]
pub struct EventData {
    pub message: String,
    pub level: SerializableLevel,
    pub target: String,
    pub file: Option<String>,
    pub line: Option<u32>,
    pub module: Option<String>,
    pub fields: FieldMap,
    pub timestamp: Timestamp,
}

impl EventData {
    /// Event content captured at `timestamp`, without source location or fields.
    pub fn new_at(message: String, level: Level, target: String, timestamp: Timestamp) -> (r:
        EventData)
        ensures
            r.message == message,
            r.level.0@ == level.spec_label(),
            r.level.spec_level() == level,
            r.target == target,
            r.file is None,
            r.line is None,
            r.module is None,
            r.fields.entries().len() == 0,
            r.fields@ == Map::<Seq<char>, Seq<char>>::empty(),
            r.timestamp == timestamp,
    {
        EventData {
            message,
            level: SerializableLevel::from_level(level),
            target,
            file: None,
            line: None,
            module: None,
            fields: FieldMap::new(),
            timestamp,
        }
    }

    /// Event content captured now, by the system clock.
    pub fn new(message: String, level: Level, target: String) -> (r: EventData)
        ensures
            r.message == message,
            r.level.0@ == level.spec_label(),
            r.level.spec_level() == level,
            r.target == target,
            r.file is None,
            r.line is None,
            r.module is None,
            r.fields.entries().len() == 0,
            r.fields@ == Map::<Seq<char>, Seq<char>>::empty(),
    {
        Self::new_at(message, level, target, Timestamp::now())
    }

    /// The level of the event.
    pub fn level(&self) -> (r: Level)
        ensures
            r == self.level.spec_level(),
    {
        self.level.level()
    }

    /// Records a field on the event.
    pub fn add_field(&mut self, key: String, value: String)
        ensures
            final(self).fields@ == old(self).fields@.insert(key@, value@),
            final(self).fields.entries() == crate::fields::entries_with(
                old(self).fields.entries(),
                key@,
                value@,
            ),
            *final(self) == (EventData { fields: final(self).fields, ..*old(self) }),
    {
        self.fields.insert(key, value);
    }
}

} // verus!
