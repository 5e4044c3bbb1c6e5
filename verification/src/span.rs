//! Spans: named intervals of execution, with their fields and the spans
//! entered below them.

use vstd::prelude::*;
use crate::fields::FieldMap;
use crate::level::{Level, SerializableLevel};
use crate::time::{Elapsed, Timestamp};

verus! {

/// One span, as it was when it was captured.
#[derive(Debug)]
pub struct SpanInfo {
    pub id: u64,
    pub name: String,
    pub target: String,
    pub level: SerializableLevel,
    pub file: Option<String>,
    pub line: Option<u32>,
    pub module: Option<String>,
    pub fields: FieldMap,
    pub entered_at: Timestamp,
    pub exited_at: Option<Timestamp>,
    pub duration: Option<Elapsed>,
    pub children: Vec<SpanInfo>,
}

impl Clone for SpanInfo {
    fn clone(&self) -> (r: SpanInfo)
        decreases *self,
    {
        let mut children: Vec<SpanInfo> = Vec::new();
        let mut i: usize = 0;
        while i < self.children.len()
            invariant
                i <= self.children@.len(),
            decreases self.children@.len() - i,
        {
            children.push(self.children[i].clone());
            i += 1;
        }
        SpanInfo {
            id: self.id,
            name: self.name.clone(),
            target: self.target.clone(),
            level: self.level.clone(),
            file: self.file.clone(),
            line: self.line,
            module: self.module.clone(),
            fields: self.fields.clone(),
            entered_at: self.entered_at,
            exited_at: self.exited_at,
            duration: self.duration,
            children,
        }
    }
}

impl SpanInfo {
    /// The duration that belongs to a span entered at `entered_at` and left at
    /// `exited_at`: the time between the two where the exit is not earlier
    /// than the entry, none while the span is active.
    pub open spec fn duration_between(entered_at: Timestamp, exited_at: Option<Timestamp>) -> Option<
        nat,
    > {
        match exited_at {
            Some(t) => t.spec_since(entered_at),
            None => None,
        }
    }

    /// The recorded duration is the one that belongs to the recorded entry
    /// and exit.
    pub open spec fn timing_wf(self) -> bool {
        match Self::duration_between(self.entered_at, self.exited_at) {
            Some(d) => self.duration is Some && self.duration.unwrap()@ == d,
            None => self.duration is None,
        }
    }

    /// The timing of the span and of every span below it is consistent.
    pub open spec fn wf(self) -> bool
        decreases self,
    {
        &&& self.timing_wf()
        &&& forall|i: int| 0 <= i < self.children@.len() ==> (#[trigger] self.children@[i]).wf()
    }

    /// Whether the span has not been left yet.
    pub open spec fn spec_is_active(self) -> bool {
        self.exited_at is None
    }

    /// The duration as it is read at `now`: the recorded one where there is
    /// one, else the time since the entry.
    pub open spec fn spec_duration_at(self, now: Timestamp) -> Option<nat> {
        match self.duration {
            Some(d) => Some(d@),
            None => now.spec_since(self.entered_at),
        }
    }

    /// A span entered at `entered_at`, active, with no fields and no children.
    pub fn new_at(id: u64, name: String, target: String, level: Level, entered_at: Timestamp) -> (r:
        SpanInfo)
        ensures
            r.id == id,
            r.name == name,
            r.target == target,
            r.level.0@ == level.spec_label(),
            r.level.spec_level() == level,
            r.file is None,
            r.line is None,
            r.module is None,
            r.fields@ == Map::<Seq<char>, Seq<char>>::empty(),
            r.fields.entries().len() == 0,
            r.entered_at == entered_at,
            r.exited_at is None,
            r.duration is None,
            r.children@.len() == 0,
            r.wf(),
    {
        SpanInfo {
            id,
            name,
            target,
            level: SerializableLevel::from_level(level),
            file: None,
            line: None,
            module: None,
            fields: FieldMap::new(),
            entered_at,
            exited_at: None,
            duration: None,
            children: Vec::new(),
        }
    }

    /// A span entered now, by the system clock.
    pub fn new(id: u64, name: String, target: String, level: Level) -> (r: SpanInfo)
        ensures
            r.id == id,
            r.name == name,
            r.target == target,
            r.level.0@ == level.spec_label(),
            r.level.spec_level() == level,
            r.file is None,
            r.line is None,
            r.module is None,
            r.fields@ == Map::<Seq<char>, Seq<char>>::empty(),
            r.fields.entries().len() == 0,
            r.exited_at is None,
            r.duration is None,
            r.children@.len() == 0,
            r.wf(),
    {
        Self::new_at(id, name, target, level, Timestamp::now())
    }

    /// The level of the span.
    pub fn level(&self) -> (r: Level)
        ensures
            r == self.level.spec_level(),
    {
        self.level.level()
    }

    /// Records a field on the span.
    pub fn add_field(&mut self, key: String, value: String)
        ensures
            final(self).fields@ == old(self).fields@.insert(key@, value@),
            final(self).fields.entries() == crate::fields::entries_with(
                old(self).fields.entries(),
                key@,
                value@,
            ),
            *final(self) == (SpanInfo { fields: final(self).fields, ..*old(self) }),
            final(self).wf() == old(self).wf(),
    {
        self.fields.insert(key, value);
        proof {
            assert(self.children@ == old(self).children@);
            assert(self.wf() == old(self).wf());
        }
    }

    /// Appends a span entered below this one.
    pub fn add_child(&mut self, child: SpanInfo)
        ensures
            final(self).children@ == old(self).children@.push(child),
            *final(self) == (SpanInfo { children: final(self).children, ..*old(self) }),
            final(self).wf() == (old(self).wf() && child.wf()),
    {
        self.children.push(child);
        proof {
            let before = old(self).children@;
            let after = self.children@;
            if old(self).wf() && child.wf() {
                assert forall|i: int| 0 <= i < after.len() implies (#[trigger] after[i]).wf() by {
                    if i < before.len() {
                        assert(before[i].wf());
                    }
                }
            }
            if self.wf() {
                assert(after[before.len() as int].wf());
                assert forall|i: int| 0 <= i < before.len() implies (#[trigger] before[i]).wf() by {
                    assert(after[i].wf());
                }
            }
        }
    }

    /// Marks the span as left at `now` and records how long it lasted. Where
    /// `now` lies before the entry, no duration is recorded.
    pub fn exit_at(&mut self, now: Timestamp)
        ensures
            final(self).exited_at == Some(now),
            final(self).timing_wf(),
            *final(self) == (SpanInfo {
                exited_at: final(self).exited_at,
                duration: final(self).duration,
                ..*old(self)
            }),
            old(self).wf() ==> final(self).wf(),
    {
        self.exited_at = Some(now);
        self.duration = now.since(self.entered_at);
        proof {
            if old(self).wf() {
                assert forall|i: int| 0 <= i < self.children@.len() implies (
                #[trigger] self.children@[i]).wf() by {
                    assert(old(self).children@[i].wf());
                }
            }
        }
    }

    /// Marks the span as left now, by the system clock.
    pub fn exit(&mut self)
        ensures
            final(self).exited_at is Some,
            final(self).timing_wf(),
            *final(self) == (SpanInfo {
                exited_at: final(self).exited_at,
                duration: final(self).duration,
                ..*old(self)
            }),
            old(self).wf() ==> final(self).wf(),
    {
        self.exit_at(Timestamp::now());
    }

    /// Whether the span has not been left yet.
    pub fn is_active(&self) -> (r: bool)
        ensures
            r == self.spec_is_active(),
    {
        self.exited_at.is_none()
    }

    /// How long the span lasted, read at `now`: the recorded duration where
    /// there is one, else the time from the entry to `now`, and nothing
    /// where `now` lies before the entry.
    pub fn get_duration_at(&self, now: Timestamp) -> (r: Option<Elapsed>)
        ensures
            r is Some <==> self.spec_duration_at(now) is Some,
            r is Some ==> r.unwrap()@ == self.spec_duration_at(now).unwrap(),
            self.duration is Some ==> r == self.duration,
    {
        match self.duration {
            Some(d) => Some(d),
            None => now.since(self.entered_at),
        }
    }

    /// How long the span lasted, or has lasted so far by the system clock.
    pub fn get_duration(&self) -> (r: Option<Elapsed>)
        ensures
            self.duration is Some ==> r == self.duration,
            exists|now: Timestamp|
                {
                    &&& r is Some <==> (#[trigger] self.spec_duration_at(now)) is Some
                    &&& r is Some ==> r.unwrap()@ == self.spec_duration_at(now).unwrap()
                },
    {
        let now = Timestamp::now();
        let r = self.get_duration_at(now);
        assert(r is Some <==> self.spec_duration_at(now) is Some);
        r
    }
}

} // verus!
