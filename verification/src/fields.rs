//! A small name-to-value mapping of strings that keeps its entries in the
//! order in which their names first appeared.

use vstd::prelude::*;

verus! {

/// What a sequence of entries maps each name to: a later entry wins over an
/// earlier one of the same name.
pub open spec fn entries_map(s: Seq<(Seq<char>, Seq<char>)>) -> Map<Seq<char>, Seq<char>>
    decreases s.len(),
{
    if s.len() == 0 {
        Map::empty()
    } else {
        entries_map(s.drop_last()).insert(s.last().0, s.last().1)
    }
}

/// No name occurs twice among the entries.
pub open spec fn distinct_names(s: Seq<(Seq<char>, Seq<char>)>) -> bool {
    forall|i: int, j: int| 0 <= i < j < s.len() ==> s[i].0 != s[j].0
}

/// The position of the last entry under `name`, if there is one.
pub open spec fn last_index(s: Seq<(Seq<char>, Seq<char>)>, name: Seq<char>) -> Option<int>
    decreases s.len(),
{
    if s.len() == 0 {
        None
    } else if s.last().0 == name {
        Some(s.len() - 1)
    } else {
        last_index(s.drop_last(), name)
    }
}

/// The entries after `value` has been stored under `name`: an entry under
/// that name keeps its place and takes the value, a new name goes to the end.
pub open spec fn entries_with(s: Seq<(Seq<char>, Seq<char>)>, name: Seq<char>, value: Seq<char>) -> Seq<
    (Seq<char>, Seq<char>),
> {
    match last_index(s, name) {
        Some(i) => if 0 <= i < s.len() {
            s.update(i, (name, value))
        } else {
            s
        },
        None => s.push((name, value)),
    }
}

/// `last_index` finds the entry under `name` after which no other follows,
/// and finds none exactly when the name does not occur.
pub proof fn lemma_last_index(s: Seq<(Seq<char>, Seq<char>)>, name: Seq<char>)
    ensures
        match last_index(s, name) {
            Some(i) => 0 <= i < s.len() && s[i].0 == name && forall|j: int|
                i < j < s.len() ==> s[j].0 != name,
            None => forall|j: int| 0 <= j < s.len() ==> s[j].0 != name,
        },
    decreases s.len(),
{
    if s.len() > 0 && s.last().0 != name {
        lemma_last_index(s.drop_last(), name);
        match last_index(s, name) {
            Some(i) => {
                assert(s.drop_last()[i] == s[i]);
                assert forall|j: int| i < j < s.len() implies s[j].0 != name by {
                    if j < s.len() - 1 {
                        assert(s.drop_last()[j] == s[j]);
                    }
                }
            },
            None => {
                assert forall|j: int| 0 <= j < s.len() implies s[j].0 != name by {
                    if j < s.len() - 1 {
                        assert(s.drop_last()[j] == s[j]);
                    }
                }
            },
        }
    }
}

/// The map has exactly the names that occur, each with the value of its last entry.
pub proof fn lemma_entries_map_lookup(s: Seq<(Seq<char>, Seq<char>)>, name: Seq<char>)
    ensures
        entries_map(s).contains_key(name) <==> last_index(s, name) is Some,
        last_index(s, name) is Some ==> entries_map(s)[name] == s[last_index(s, name).unwrap()].1,
    decreases s.len(),
{
    if s.len() > 0 {
        lemma_entries_map_lookup(s.drop_last(), name);
        lemma_last_index(s.drop_last(), name);
        if s.last().0 != name && last_index(s, name) is Some {
            assert(s.drop_last()[last_index(s, name).unwrap()] == s[last_index(s, name).unwrap()]);
        }
    }
}

/// Appending an entry inserts it into the map.
pub proof fn lemma_entries_map_push(s: Seq<(Seq<char>, Seq<char>)>, e: (Seq<char>, Seq<char>))
    ensures
        entries_map(s.push(e)) == entries_map(s).insert(e.0, e.1),
{
    assert(s.push(e).drop_last() =~= s);
    assert(s.push(e).last() == e);
}

/// Giving the last entry under a name a new value inserts into the map.
pub proof fn lemma_entries_map_update(s: Seq<(Seq<char>, Seq<char>)>, name: Seq<char>, value: Seq<char>)
    requires
        last_index(s, name) is Some,
    ensures
        entries_map(s.update(last_index(s, name).unwrap(), (name, value))) =~= entries_map(s).insert(
            name,
            value,
        ),
    decreases s.len(),
{
    let i = last_index(s, name).unwrap();
    let t = s.update(i, (name, value));
    lemma_last_index(s, name);
    if i == s.len() - 1 {
        assert(t.drop_last() =~= s.drop_last());
    } else {
        lemma_entries_map_update(s.drop_last(), name, value);
        assert(t.drop_last() =~= s.drop_last().update(i, (name, value)));
        assert(t.last() == s.last());
    }
}

/// A mapping from field names to values.
///
/// Its view is the mapping itself; `entries` gives the names in the order in
/// which they were first stored.
#[derive(Clone, Debug)]
pub struct FieldMap {
    pub entries: Vec<(String, String)>,
}

impl View for FieldMap {
    type V = Map<Seq<char>, Seq<char>>;

    open spec fn view(&self) -> Map<Seq<char>, Seq<char>> {
        entries_map(self.entries())
    }
}

impl FieldMap {
    /// The entries as plain text, in stored order.
    pub open spec fn entries(self) -> Seq<(Seq<char>, Seq<char>)> {
        self.entries@.map_values(|e: (String, String)| (e.0@, e.1@))
    }

    /// An empty mapping.
    pub fn new() -> (r: FieldMap)
        ensures
            r.entries() == Seq::<(Seq<char>, Seq<char>)>::empty(),
            r@ == Map::<Seq<char>, Seq<char>>::empty(),
    {
        let r = FieldMap { entries: Vec::new() };
        assert(r.entries() =~= Seq::empty());
        r
    }

    /// The number of entries.
    pub fn len(&self) -> (r: usize)
        ensures
            r == self.entries().len(),
    {
        self.entries.len()
    }

    pub fn is_empty(&self) -> (r: bool)
        ensures
            r == (self.entries().len() == 0),
    {
        self.entries.len() == 0
    }

    /// The name of the entry at `index`.
    pub fn key_at(&self, index: usize) -> (r: &String)
        requires
            index < self.entries().len(),
        ensures
            r@ == self.entries()[index as int].0,
    {
        &self.entries[index].0
    }

    /// The value of the entry at `index`.
    pub fn value_at(&self, index: usize) -> (r: &String)
        requires
            index < self.entries().len(),
        ensures
            r@ == self.entries()[index as int].1,
    {
        &self.entries[index].1
    }

    /// Where the last entry under `name` stands.
    fn position(&self, name: &str) -> (r: Option<usize>)
        ensures
            r is Some <==> last_index(self.entries(), name@) is Some,
            r is Some ==> r.unwrap() as int == last_index(self.entries(), name@).unwrap(),
    {
        let mut i: usize = self.entries.len();
        assert(self.entries().take(i as int) =~= self.entries());
        while i > 0
            invariant
                i <= self.entries().len(),
                last_index(self.entries(), name@) == last_index(self.entries().take(i as int), name@),
            decreases i,
        {
            let ghost head = self.entries().take(i as int);
            i -= 1;
            if crate::text::str_eq(self.entries[i].0.as_str(), name) {
                assert(head.last().0 == name@);
                return Some(i);
            }
            assert(head.drop_last() =~= self.entries().take(i as int));
        }
        assert(self.entries().take(0).len() == 0);
        None
    }

    /// The value stored under `name`, if there is one.
    pub fn get(&self, name: &str) -> (r: Option<&String>)
        ensures
            r is Some <==> self@.contains_key(name@),
            r is Some ==> r.unwrap()@ == self@[name@],
    {
        proof {
            lemma_entries_map_lookup(self.entries(), name@);
            lemma_last_index(self.entries(), name@);
        }
        match self.position(name) {
            Some(i) => Some(&self.entries[i].1),
            None => None,
        }
    }

    /// Stores `value` under `name`. A name that is already present keeps its
    /// place and takes the new value; a new name goes to the end.
    pub fn insert(&mut self, name: String, value: String)
        ensures
            final(self)@ == old(self)@.insert(name@, value@),
            final(self).entries() == entries_with(old(self).entries(), name@, value@),
            distinct_names(old(self).entries()) ==> distinct_names(final(self).entries()),
    {
        let ghost before = self.entries();
        proof {
            lemma_last_index(before, name@);
        }
        match self.position(name.as_str()) {
            Some(i) => {
                self.entries[i] = (name, value);
                proof {
                    assert(self.entries() =~= before.update(i as int, (name@, value@)));
                    lemma_entries_map_update(before, name@, value@);
                    if distinct_names(before) {
                        assert forall|a: int, b: int| 0 <= a < b < self.entries().len() implies self.entries()[a].0
                            != self.entries()[b].0 by {
                            assert(before[a].0 != before[b].0);
                        }
                    }
                }
            },
            None => {
                self.entries.push((name, value));
                proof {
                    assert(self.entries() =~= before.push((name@, value@)));
                    lemma_entries_map_push(before, (name@, value@));
                    if distinct_names(before) {
                        assert forall|a: int, b: int| 0 <= a < b < self.entries().len() implies self.entries()[a].0
                            != self.entries()[b].0 by {
                            if b < before.len() {
                                assert(before[a].0 != before[b].0);
                            }
                        }
                    }
                }
            },
        }
    }
}

} // verus!
