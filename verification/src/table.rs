//! A table from texts to values.

use vstd::prelude::*;
use crate::text::same_text;

verus! {

/// A table in which every key occurs once.
#[derive(Debug)]
pub struct Table<V> {
    entries: Vec<(String, V)>,
}

/// Whether `key` stands at the position `at`.
spec fn stands_at<V>(entries: Seq<(String, V)>, key: Seq<char>, at: int) -> bool {
    0 <= at < entries.len() && entries[at].0@ == key
}

/// Whether no key occurs twice.
spec fn distinct<V>(entries: Seq<(String, V)>) -> bool {
    forall|i: int, j: int|
        0 <= i < entries.len() && 0 <= j < entries.len() && #[trigger] entries[i].0@
            == #[trigger] entries[j].0@ ==> i == j
}

spec fn entries_map<V>(entries: Seq<(String, V)>) -> Map<Seq<char>, V> {
    Map::new(
        |key: Seq<char>| exists|at: int| stands_at(entries, key, at),
        |key: Seq<char>| entries[choose|at: int| stands_at(entries, key, at)].1,
    )
}

impl<V> View for Table<V> {
    type V = Map<Seq<char>, V>;

    closed spec fn view(&self) -> Map<Seq<char>, V> {
        entries_map(self.entries@)
    }
}

proof fn lemma_entry<V>(entries: Seq<(String, V)>, at: int)
    requires
        distinct(entries),
        0 <= at < entries.len(),
    ensures
        entries_map(entries).contains_key(entries[at].0@),
        entries_map(entries)[entries[at].0@] == entries[at].1,
{
    let key = entries[at].0@;
    assert(stands_at(entries, key, at));
    let chosen = choose|i: int| stands_at(entries, key, i);
    assert(stands_at(entries, key, chosen));
}

proof fn lemma_without<V>(entries: Seq<(String, V)>, at: int)
    requires
        distinct(entries),
        0 <= at < entries.len(),
    ensures
        distinct(entries.remove(at)),
        entries_map(entries.remove(at)) == entries_map(entries).remove(entries[at].0@),
{
    let after = entries.remove(at);
    let target = entries_map(entries).remove(entries[at].0@);
    assert forall|i: int| 0 <= i < after.len() implies #[trigger] after[i] == entries[if i < at {
        i
    } else {
        i + 1
    }] by {}
    assert forall|i: int, j: int|
        0 <= i < after.len() && 0 <= j < after.len() && #[trigger] after[i].0@ == #[trigger] after[j].0@ implies i
        == j by {
        let a = if i < at {
            i
        } else {
            i + 1
        };
        let b = if j < at {
            j
        } else {
            j + 1
        };
        assert(entries[a].0@ == entries[b].0@);
    }
    assert forall|key: Seq<char>| entries_map(after).contains_key(key) == target.contains_key(key) by {
        if entries_map(after).contains_key(key) {
            let i = choose|i: int| stands_at(after, key, i);
            let a = if i < at {
                i
            } else {
                i + 1
            };
            assert(after[i] == entries[a]);
            assert(stands_at(entries, key, a));
            assert(entries[a].0@ != entries[at].0@);
        }
        if target.contains_key(key) {
            let a = choose|a: int| stands_at(entries, key, a);
            let i = if a < at {
                a
            } else {
                a - 1
            };
            assert(after[i] == entries[a]);
            assert(stands_at(after, key, i));
        }
    }
    assert forall|key: Seq<char>| entries_map(after).contains_key(key) implies entries_map(after)[key]
        == target[key] by {
        let i = choose|i: int| stands_at(after, key, i);
        let a = if i < at {
            i
        } else {
            i + 1
        };
        assert(after[i] == entries[a]);
        lemma_entry(entries, a);
    }
    assert(entries_map(after) =~= target);
}

proof fn lemma_with<V>(entries: Seq<(String, V)>, entry: (String, V))
    requires
        distinct(entries),
        !entries_map(entries).contains_key(entry.0@),
    ensures
        distinct(entries.push(entry)),
        entries_map(entries.push(entry)) == entries_map(entries).insert(entry.0@, entry.1),
{
    let after = entries.push(entry);
    let last = entries.len() as int;
    let target = entries_map(entries).insert(entry.0@, entry.1);
    assert forall|i: int| 0 <= i < last implies #[trigger] entries[i].0@ != entry.0@ by {
        lemma_entry(entries, i);
    }
    assert forall|i: int, j: int|
        0 <= i < after.len() && 0 <= j < after.len() && #[trigger] after[i].0@ == #[trigger] after[j].0@ implies i
        == j by {
        if i < last {
            assert(after[i] == entries[i]);
        }
        if j < last {
            assert(after[j] == entries[j]);
        }
    }
    assert forall|key: Seq<char>| entries_map(after).contains_key(key) == target.contains_key(key) by {
        if entries_map(after).contains_key(key) {
            let i = choose|i: int| stands_at(after, key, i);
            if i < last {
                assert(stands_at(entries, key, i));
            }
        }
        if target.contains_key(key) {
            if key == entry.0@ {
                assert(stands_at(after, key, last));
            } else {
                let i = choose|i: int| stands_at(entries, key, i);
                assert(stands_at(after, key, i));
            }
        }
    }
    assert forall|key: Seq<char>| entries_map(after).contains_key(key) implies entries_map(after)[key]
        == target[key] by {
        let i = choose|i: int| stands_at(after, key, i);
        if i < last {
            lemma_entry(entries, i);
        }
    }
    assert(entries_map(after) =~= target);
}

impl<V> Table<V> {
    #[verifier::type_invariant]
    spec fn well_formed(self) -> bool {
        distinct(self.entries@)
    }

    /// The keys, in some order.
    pub closed spec fn keys(self) -> Seq<Seq<char>> {
        self.entries@.map_values(|entry: (String, V)| entry.0@)
    }

    /// A table without entries.
    pub fn new() -> (table: Table<V>)
        ensures
            table@ == Map::<Seq<char>, V>::empty(),
    {
        let table = Table { entries: Vec::new() };
        assert(table@ =~= Map::<Seq<char>, V>::empty());
        table
    }

    /// The number of entries.
    pub fn len(&self) -> (count: usize)
        ensures
            count == self.keys().len(),
            forall|key: Seq<char>| self@.contains_key(key) <==> #[trigger] self.keys().contains(key),
    {
        proof {
            use_type_invariant(self);
            let keys = self.keys();
            assert forall|key: Seq<char>| self@.contains_key(key) <==> #[trigger] keys.contains(key) by {
                if self@.contains_key(key) {
                    let at = choose|at: int| stands_at(self.entries@, key, at);
                    assert(keys[at] == key);
                }
                if keys.contains(key) {
                    let at = choose|at: int| 0 <= at < keys.len() && keys[at] == key;
                    lemma_entry(self.entries@, at);
                }
            }
        }
        self.entries.len()
    }

    /// Whether the table has no entries.
    pub fn is_empty(&self) -> (empty: bool)
        ensures
            empty == (self@ == Map::<Seq<char>, V>::empty()),
    {
        proof {
            use_type_invariant(self);
            if self.entries@.len() == 0 {
                assert(self@ =~= Map::<Seq<char>, V>::empty());
            } else {
                lemma_entry(self.entries@, 0);
            }
        }
        self.entries.len() == 0
    }

    /// The entry with the number `at`.
    pub fn entry(&self, at: usize) -> (entry: (&String, &V))
        requires
            at < self.keys().len(),
        ensures
            entry.0@ == self.keys()[at as int],
            self@.contains_key(entry.0@),
            *entry.1 == self@[entry.0@],
    {
        proof {
            use_type_invariant(self);
            lemma_entry(self.entries@, at as int);
        }
        (&self.entries[at].0, &self.entries[at].1)
    }

    /// The position of `key`.
    fn position(&self, key: &str) -> (position: Option<usize>)
        ensures
            position is Some <==> self@.contains_key(key@),
            position matches Some(at) ==> at < self.entries@.len() && self.entries@[at as int].0@ == key@,
            position matches Some(at) ==> self@[key@] == self.entries@[at as int].1,
    {
        proof {
            use_type_invariant(self);
        }
        let mut at: usize = 0;
        while at < self.entries.len()
            invariant
                at <= self.entries.len(),
                distinct(self.entries@),
                forall|i: int| 0 <= i < at ==> #[trigger] self.entries@[i].0@ != key@,
            decreases self.entries.len() - at,
        {
            if same_text(self.entries[at].0.as_str(), key) {
                proof {
                    lemma_entry(self.entries@, at as int);
                }
                return Some(at);
            }
            at = at + 1;
        }
        None
    }

    /// The value of `key`.
    pub fn get(&self, key: &str) -> (value: Option<&V>)
        ensures
            value is Some <==> self@.contains_key(key@),
            value matches Some(value) ==> *value == self@[key@],
    {
        match self.position(key) {
            Some(at) => Some(&self.entries[at].1),
            None => None,
        }
    }

    /// Takes `key` out of the table.
    pub fn remove(&mut self, key: &str) -> (value: Option<V>)
        ensures
            final(self)@ == old(self)@.remove(key@),
            value is Some <==> old(self)@.contains_key(key@),
            value matches Some(value) ==> value == old(self)@[key@],
    {
        match self.position(key) {
            Some(at) => {
                proof {
                    use_type_invariant(&*self);
                    lemma_without(self.entries@, at as int);
                }
                let mut entries: Vec<(String, V)> = Vec::new();
                std::mem::swap(&mut entries, &mut self.entries);
                let (_, value) = entries.remove(at);
                self.entries = entries;
                Some(value)
            },
            None => {
                assert(self@.remove(key@) =~= self@);
                None
            },
        }
    }

    /// Gives `key` a value, in place of an earlier one.
    pub fn insert(&mut self, key: String, value: V)
        ensures
            final(self)@ == old(self)@.insert(key@, value),
    {
        let _ = self.remove(key.as_str());
        proof {
            use_type_invariant(&*self);
            lemma_with(self.entries@, (key, value));
            assert(old(self)@.remove(key@).insert(key@, value) =~= old(self)@.insert(key@, value));
        }
        let mut entries: Vec<(String, V)> = Vec::new();
        std::mem::swap(&mut entries, &mut self.entries);
        entries.push((key, value));
        self.entries = entries;
    }
}

} // verus!
