//! Snapshots: the events of a store together with a summary of them, ready
//! to be written out, and the way back from a snapshot into a store.

use vstd::prelude::*;
use vstd::string::*;
use std::sync::Arc;
use crate::event::{opt_text, Event};
use crate::events::share;
use crate::level::Level;
use crate::text::str_eq;
use crate::manager::{events_in, passes, pushed_all, EventManager, DEFAULT_MAX_EVENTS};
use crate::registry::{get_global_events, Registry};
use crate::time::Timestamp;

verus! {

/// The version of the snapshot format, as it is written into the metadata.
pub const FORMAT_VERSION: &'static str = "0.1.0";

/// The test that an event carries the level label `label`.
pub open spec fn labelled(label: Seq<char>) -> spec_fn(Event) -> bool {
    |e: Event| e.event_data.level.0@ == label
}

/// The number of events that carry the level label `label`.
pub open spec fn label_count(events: Seq<Event>, label: Seq<char>) -> nat {
    events.filter(labelled(label)).len()
}

/// The count that a list of counts gives for `label`: that of its last
/// entry under the label, and 0 where it has none.
pub open spec fn tally(entries: Seq<(Seq<char>, nat)>, label: Seq<char>) -> nat
    decreases entries.len(),
{
    if entries.len() == 0 {
        0
    } else if entries.last().0 == label {
        entries.last().1
    } else {
        tally(entries.drop_last(), label)
    }
}

/// No label occurs twice among the entries.
pub open spec fn distinct_labels(entries: Seq<(Seq<char>, nat)>) -> bool {
    forall|i: int, j: int| 0 <= i < j < entries.len() ==> entries[i].0 != entries[j].0
}

/// The list gives for a label the count of the entry under it that no
/// other entry under it follows, and 0 where no entry is under it.
pub proof fn lemma_tally_last(entries: Seq<(Seq<char>, nat)>, label: Seq<char>, at: Option<int>)
    requires
        match at {
            Some(i) => 0 <= i < entries.len() && entries[i].0 == label && forall|j: int|
                i < j < entries.len() ==> entries[j].0 != label,
            None => forall|j: int| 0 <= j < entries.len() ==> entries[j].0 != label,
        },
    ensures
        tally(entries, label) == (match at {
            Some(i) => entries[i].1,
            None => 0,
        }),
    decreases entries.len(),
{
    if entries.len() > 0 {
        if entries.last().0 == label {
            assert(entries[entries.len() - 1].0 == label);
        } else {
            let rest = entries.drop_last();
            match at {
                Some(i) => {
                    assert(rest[i] == entries[i]);
                    assert forall|j: int| i < j < rest.len() implies rest[j].0 != label by {
                        assert(entries[j].0 != label);
                    }
                },
                None => {
                    assert forall|j: int| 0 <= j < rest.len() implies rest[j].0 != label by {
                        assert(entries[j].0 != label);
                    }
                },
            }
            lemma_tally_last(rest, label, at);
        }
    }
}

/// With distinct labels, each entry's count is what the list gives for its
/// label, and a label without an entry counts 0.
pub proof fn lemma_tally(entries: Seq<(Seq<char>, nat)>, label: Seq<char>)
    requires
        distinct_labels(entries),
    ensures
        forall|i: int| 0 <= i < entries.len() && entries[i].0 == label ==> tally(entries, label)
            == entries[i].1,
        (forall|i: int| 0 <= i < entries.len() ==> entries[i].0 != label) ==> tally(entries, label)
            == 0,
    decreases entries.len(),
{
    if entries.len() > 0 {
        let rest = entries.drop_last();
        assert(distinct_labels(rest)) by {
            assert forall|i: int, j: int| 0 <= i < j < rest.len() implies rest[i].0 != rest[j].0 by {
                assert(entries[i].0 != entries[j].0);
            }
        }
        lemma_tally(rest, label);
        assert forall|i: int| 0 <= i < entries.len() && entries[i].0 == label implies tally(
            entries,
            label,
        ) == entries[i].1 by {
            if i < entries.len() - 1 {
                assert(entries[i].0 != entries[entries.len() - 1].0);
                assert(rest[i] == entries[i]);
            }
        }
        if forall|i: int| 0 <= i < entries.len() ==> entries[i].0 != label {
            assert(entries[entries.len() - 1].0 != label);
            assert forall|i: int| 0 <= i < rest.len() implies rest[i].0 != label by {
                assert(entries[i].0 != label);
            }
        }
    }
}

/// Raising the count of one entry, with distinct labels, changes what the
/// list gives for that label and for no other.
pub proof fn lemma_tally_update(entries: Seq<(Seq<char>, nat)>, i: int, count: nat, label: Seq<char>)
    requires
        distinct_labels(entries),
        0 <= i < entries.len(),
    ensures
        distinct_labels(entries.update(i, (entries[i].0, count))),
        tally(entries.update(i, (entries[i].0, count)), label) == (if label == entries[i].0 {
            count
        } else {
            tally(entries, label)
        }),
{
    let changed = entries.update(i, (entries[i].0, count));
    assert(distinct_labels(changed)) by {
        assert forall|a: int, b: int| 0 <= a < b < changed.len() implies changed[a].0
            != changed[b].0 by {
            assert(entries[a].0 != entries[b].0);
        }
    }
    lemma_tally(changed, label);
    lemma_tally(entries, label);
    if label == entries[i].0 {
        assert(changed[i].0 == label);
    } else if exists|k: int| 0 <= k < entries.len() && entries[k].0 == label {
        let k = choose|k: int| 0 <= k < entries.len() && entries[k].0 == label;
        assert(changed[k] == entries[k]);
    } else {
        assert forall|k: int| 0 <= k < changed.len() implies changed[k].0 != label by {
            assert(entries[k].0 != label);
        }
    }
}

/// One more event raises the count of its own label by one and leaves the
/// counts of the other labels as they are.
pub proof fn lemma_label_count_push(events: Seq<Event>, event: Event, label: Seq<char>)
    ensures
        label_count(events.push(event), label) == label_count(events, label) + (if event.event_data.level.0@
            == label {
            1nat
        } else {
            0nat
        }),
        label_count(events, label) <= events.len(),
{
    events.lemma_filter_push(event, labelled(label));
    events.lemma_filter_len(labelled(label));
}

/// How many events there are of each level label.
#[derive(Clone, Debug)]
pub struct LevelCounts {
    pub entries: Vec<(String, usize)>,
}

impl LevelCounts {
    /// The entries as plain values, in stored order.
    pub open spec fn entries(self) -> Seq<(Seq<char>, nat)> {
        self.entries@.map_values(|e: (String, usize)| (e.0@, e.1 as nat))
    }

    /// The count for `label`; 0 for a label without an entry.
    pub open spec fn spec_count(self, label: Seq<char>) -> nat {
        tally(self.entries(), label)
    }

    /// No label has two entries, and no entry counts 0.
    pub open spec fn wf(self) -> bool {
        &&& distinct_labels(self.entries())
        &&& forall|i: int| 0 <= i < self.entries().len() ==> (#[trigger] self.entries()[i]).1 > 0
    }

    /// The counts are those of `events`: for every label the number of
    /// events that carry it.
    pub open spec fn counts(self, events: Seq<Event>) -> bool {
        &&& self.wf()
        &&& forall|label: Seq<char>| #[trigger] self.spec_count(label) == label_count(events, label)
    }

    /// Counts for no events.
    pub fn new() -> (r: LevelCounts)
        ensures
            r.entries().len() == 0,
            r.wf(),
    {
        LevelCounts { entries: Vec::new() }
    }

    /// The number of labels with an entry.
    pub fn len(&self) -> (r: usize)
        ensures
            r == self.entries().len(),
    {
        self.entries.len()
    }

    /// Where the last entry under `label` stands.
    fn position(&self, label: &str) -> (r: Option<usize>)
        ensures
            match r {
                Some(i) => i < self.entries().len() && self.entries()[i as int].0 == label@ && forall|
                    j: int,
                | i < j < self.entries().len() ==> self.entries()[j].0 != label@,
                None => forall|i: int| 0 <= i < self.entries().len() ==> self.entries()[i].0 != label@,
            },
    {
        let mut i: usize = self.entries.len();
        while i > 0
            invariant
                i <= self.entries().len(),
                forall|j: int| i <= j < self.entries().len() ==> self.entries()[j].0 != label@,
            decreases i,
        {
            i -= 1;
            if str_eq(self.entries[i].0.as_str(), label) {
                return Some(i);
            }
        }
        None
    }

    /// The count for `label`; 0 for a label without an entry.
    pub fn count(&self, label: &str) -> (r: usize)
        ensures
            r == self.spec_count(label@),
    {
        match self.position(label) {
            Some(i) => {
                proof {
                    lemma_tally_last(self.entries(), label@, Some(i as int));
                }
                self.entries[i].1
            },
            None => {
                proof {
                    lemma_tally_last(self.entries(), label@, None);
                }
                0
            },
        }
    }

    /// Counts one more event under `label`.
    fn record(&mut self, label: &String, Ghost(seen): Ghost<Seq<Event>>, Ghost(event): Ghost<Event>)
        requires
            old(self).counts(seen),
            event.event_data.level.0@ == label@,
            seen.len() < usize::MAX,
        ensures
            final(self).counts(seen.push(event)),
    {
        let ghost before = self.entries();
        proof {
            lemma_tally(before, label@);
            lemma_label_count_push(seen, event, label@);
        }
        match self.position(label.as_str()) {
            Some(i) => {
                let count = self.entries[i].1;
                assert(count as nat == before[i as int].1);
                assert(before[i as int].1 == self.spec_count(label@));
                self.entries[i] = (label.clone(), count + 1);
                proof {
                    assert(self.entries() =~= before.update(i as int, (before[i as int].0, (count + 1) as nat)));
                    assert forall|other: Seq<char>| #[trigger]
                        self.spec_count(other) == label_count(seen.push(event), other) by {
                        lemma_tally_update(before, i as int, (count + 1) as nat, other);
                        lemma_label_count_push(seen, event, other);
                        assert(old(self).spec_count(other) == label_count(seen, other));
                    }
                    lemma_tally_update(before, i as int, (count + 1) as nat, label@);
                }
            },
            None => {
                self.entries.push((label.clone(), 1));
                proof {
                    assert(self.entries() =~= before.push((label@, 1nat)));
                    assert(self.entries().drop_last() =~= before);
                    assert forall|other: Seq<char>| #[trigger]
                        self.spec_count(other) == label_count(seen.push(event), other) by {
                        lemma_label_count_push(seen, event, other);
                        assert(old(self).spec_count(other) == label_count(seen, other));
                    }
                    assert(distinct_labels(self.entries())) by {
                        assert forall|a: int, b: int| 0 <= a < b < self.entries().len() implies self.entries()[a].0
                            != self.entries()[b].0 by {
                            if b < before.len() {
                                assert(before[a].0 != before[b].0);
                            }
                        }
                    }
                }
            },
        }
    }
}

/// What is known of a snapshot as a whole.
#[derive(Clone, Debug)]
pub struct ExportMetadata {
    pub version: String,
    pub timestamp: Timestamp,
    pub total_events: usize,
    pub level_counts: LevelCounts,
    pub description: Option<String>,
}

/// A snapshot: events in a fixed order, and the metadata that sums them up.
#[derive(Clone, Debug)]
pub struct ExportData {
    pub metadata: ExportMetadata,
    pub events: Vec<Arc<Event>>,
}

/// A snapshot of `events`, in the order given, taken at `now`.
pub fn create_export_data_at(events: Vec<Arc<Event>>, description: Option<String>, now: Timestamp) -> (r:
    ExportData)
    ensures
        r.events == events,
        r.metadata.version@ == FORMAT_VERSION@,
        r.metadata.timestamp == now,
        r.metadata.total_events == events@.len(),
        r.metadata.level_counts.counts(events_in(events@)),
        r.metadata.description == description,
{
    let mut level_counts = LevelCounts::new();
    let mut i: usize = 0;
    proof {
        reveal(Seq::filter);
        assert(events_in(events@.take(0)) =~= Seq::<Event>::empty());
        assert forall|label: Seq<char>| #[trigger]
            level_counts.spec_count(label) == label_count(events_in(events@.take(0)), label) by {}
    }
    while i < events.len()
        invariant
            i <= events@.len(),
            level_counts.counts(events_in(events@.take(i as int))),
        decreases events@.len() - i,
    {
        let ghost seen = events_in(events@.take(i as int));
        let ghost event = events_in(events@)[i as int];
        level_counts.record(&events[i].event_data.level.0, Ghost(seen), Ghost(event));
        assert(events_in(events@.take(i + 1)) =~= seen.push(event));
        i += 1;
    }
    assert(events@.take(i as int) =~= events@);
    let total_events = events.len();
    ExportData {
        metadata: ExportMetadata {
            version: String::from_str(FORMAT_VERSION),
            timestamp: now,
            total_events,
            level_counts,
            description,
        },
        events,
    }
}

/// A snapshot of `events`, in the order given, taken now by the system clock.
pub fn create_export_data(events: Vec<Arc<Event>>, description: Option<String>) -> (r: ExportData)
    ensures
        r.events == events,
        r.metadata.version@ == FORMAT_VERSION@,
        r.metadata.total_events == events@.len(),
        r.metadata.level_counts.counts(events_in(events@)),
        r.metadata.description == description,
{
    create_export_data_at(events, description, Timestamp::now())
}

/// Those of `events` that pass every filter that is given, in their order.
pub fn filter_events(
    events: Vec<Arc<Event>>,
    level_filter: Option<Level>,
    target_filter: Option<&str>,
    message_contains: Option<&str>,
    span_name_contains: Option<&str>,
) -> (r: Vec<Arc<Event>>)
    ensures
        events_in(r@) == events_in(events@).filter(
            passes(
                level_filter,
                opt_text(target_filter),
                opt_text(message_contains),
                opt_text(span_name_contains),
            ),
        ),
{
    let ghost test = passes(
        level_filter,
        opt_text(target_filter),
        opt_text(message_contains),
        opt_text(span_name_contains),
    );
    let ghost all = events_in(events@);
    let mut kept: Vec<Arc<Event>> = Vec::new();
    let mut i: usize = 0;
    proof {
        reveal(Seq::filter);
        assert(all.take(0) =~= Seq::<Event>::empty());
        assert(events_in(kept@) =~= Seq::<Event>::empty());
    }
    while i < events.len()
        invariant
            i <= events@.len(),
            all == events_in(events@),
            test == passes(
                level_filter,
                opt_text(target_filter),
                opt_text(message_contains),
                opt_text(span_name_contains),
            ),
            events_in(kept@) == all.take(i as int).filter(test),
        decreases events@.len() - i,
    {
        proof {
            all.take(i as int).lemma_filter_push(all[i as int], test);
            assert(all.take(i + 1) =~= all.take(i as int).push(all[i as int]));
        }
        let ghost before = kept@;
        if events[i].matches_criteria(
            level_filter,
            target_filter,
            message_contains,
            span_name_contains,
        ) {
            kept.push(share(&events[i]));
            assert(events_in(kept@) =~= events_in(before).push(all[i as int]));
        }
        i += 1;
    }
    assert(all.take(i as int) =~= all);
    kept
}

/// A snapshot of the whole active store, newest event first, taken at
/// `now`. Where no store is installed, the snapshot holds no events.
pub fn export_to_data_at(registry: &Registry, now: Timestamp) -> (r: ExportData)
    ensures
        events_in(r.events@) == (match registry.manager {
            Some(m) => m@,
            None => Seq::<Event>::empty(),
        }),
        r.metadata.version@ == FORMAT_VERSION@,
        r.metadata.timestamp == now,
        r.metadata.total_events == r.events@.len(),
        r.metadata.level_counts.counts(events_in(r.events@)),
        r.metadata.description is None,
{
    let events = match get_global_events(registry) {
        Some(events) => events,
        None => Vec::new(),
    };
    assert(registry.manager is None ==> events_in(events@) =~= Seq::<Event>::empty());
    create_export_data_at(events, None, now)
}

/// A snapshot of the whole active store, taken now by the system clock.
pub fn export_to_data(registry: &Registry) -> (r: ExportData)
    ensures
        events_in(r.events@) == (match registry.manager {
            Some(m) => m@,
            None => Seq::<Event>::empty(),
        }),
        r.metadata.version@ == FORMAT_VERSION@,
        r.metadata.total_events == r.events@.len(),
        r.metadata.level_counts.counts(events_in(r.events@)),
        r.metadata.description is None,
{
    export_to_data_at(registry, Timestamp::now())
}

/// A snapshot, taken at `now`, of those events of the active store that
/// pass every filter that is given, newest first, with a description.
pub fn export_filtered_to_data_at(
    registry: &Registry,
    level_filter: Option<Level>,
    target_filter: Option<&str>,
    message_contains: Option<&str>,
    span_name_contains: Option<&str>,
    description: Option<String>,
    now: Timestamp,
) -> (r: ExportData)
    ensures
        events_in(r.events@) == (match registry.manager {
            Some(m) => m@,
            None => Seq::<Event>::empty(),
        }).filter(
            passes(
                level_filter,
                opt_text(target_filter),
                opt_text(message_contains),
                opt_text(span_name_contains),
            ),
        ),
        r.metadata.version@ == FORMAT_VERSION@,
        r.metadata.timestamp == now,
        r.metadata.total_events == r.events@.len(),
        r.metadata.level_counts.counts(events_in(r.events@)),
        r.metadata.description == description,
{
    let all = match get_global_events(registry) {
        Some(events) => events,
        None => Vec::new(),
    };
    assert(registry.manager is None ==> events_in(all@) =~= Seq::<Event>::empty());
    let kept = filter_events(
        all,
        level_filter,
        target_filter,
        message_contains,
        span_name_contains,
    );
    create_export_data_at(kept, description, now)
}

/// A filtered snapshot of the active store, taken now by the system clock.
pub fn export_filtered_to_data(
    registry: &Registry,
    level_filter: Option<Level>,
    target_filter: Option<&str>,
    message_contains: Option<&str>,
    span_name_contains: Option<&str>,
    description: Option<String>,
) -> (r: ExportData)
    ensures
        events_in(r.events@) == (match registry.manager {
            Some(m) => m@,
            None => Seq::<Event>::empty(),
        }).filter(
            passes(
                level_filter,
                opt_text(target_filter),
                opt_text(message_contains),
                opt_text(span_name_contains),
            ),
        ),
        r.metadata.version@ == FORMAT_VERSION@,
        r.metadata.total_events == r.events@.len(),
        r.metadata.level_counts.counts(events_in(r.events@)),
        r.metadata.description == description,
{
    export_filtered_to_data_at(
        registry,
        level_filter,
        target_filter,
        message_contains,
        span_name_contains,
        description,
        Timestamp::now(),
    )
}

/// A fresh store of the default capacity into which the events of a
/// snapshot have been pushed in their stored order: the last of them ends
/// up newest, and what exceeds the capacity has left at the old end.
pub fn import_from_data(data: &ExportData) -> (r: EventManager)
    ensures
        r@ == pushed_all(Seq::empty(), events_in(data.events@), DEFAULT_MAX_EVENTS as nat),
        r.capacity() == DEFAULT_MAX_EVENTS,
        r.target().listeners() == Seq::<u128>::empty(),
        r.target().channel() == Seq::<Arc<Event>>::empty(),
        r.wf(),
{
    let mut manager = EventManager::new(None);
    manager.push_all(&data.events);
    manager
}

/// Pushes the events of a snapshot into the active store, in their stored
/// order and without publishing them, and hands the snapshot back with the
/// number of its events. Where no store is installed, nothing is stored.
pub fn import_and_merge_from_data(registry: &mut Registry, data: ExportData) -> (r: (ExportData, usize))
    ensures
        r.0 == data,
        r.1 == data.events@.len(),
        final(registry).manager is Some <==> old(registry).manager is Some,
        final(registry).manager is Some ==> {
            let before = old(registry).manager.unwrap();
            let after = final(registry).manager.unwrap();
            &&& after@ == pushed_all(before@, events_in(data.events@), before.capacity())
            &&& after.capacity() == before.capacity()
            &&& after.target() == before.target()
            &&& (before.wf() ==> after.wf())
        },
{
    match &mut registry.manager {
        Some(manager) => {
            manager.push_all(&data.events);
        },
        None => {},
    }
    let imported_count = data.events.len();
    (data, imported_count)
}

} // verus!
