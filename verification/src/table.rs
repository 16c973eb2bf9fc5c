//! Small tables with text keys.
use crate::single::Single;
use crate::text::same_text;
use vstd::prelude::*;

verus! {

/// The value of the first entry with the given key.
spec fn first_value<V>(entries: Seq<(String, V)>, key: Seq<char>) -> Option<V>
    decreases entries.len(),
{
    if entries.len() == 0 {
        None
    } else if entries[0].0@ == key {
        Some(entries[0].1)
    } else {
        first_value(entries.skip(1), key)
    }
}

/// The value that a map has for a key.
pub open spec fn value_in<V>(m: Map<Seq<char>, V>, key: Seq<char>) -> Option<V> {
    if m.dom().contains(key) {
        Some(m[key])
    } else {
        None
    }
}

/// A table from texts to small values.
#[derive(Debug)]
pub struct Table<V> {
    entries: Vec<(String, V)>,
}

impl<V> View for Table<V> {
    type V = Map<Seq<char>, V>;

    closed spec fn view(&self) -> Map<Seq<char>, V> {
        Map::new(
            |key: Seq<char>| first_value(self.entries@, key) is Some,
            |key: Seq<char>| first_value(self.entries@, key)->0,
        )
    }
}

/// An entry put in place of one with the same key changes the value of that
/// key alone.
proof fn lemma_replaced<V>(entries: Seq<(String, V)>, i: int, new: (String, V), key: Seq<char>)
    requires
        0 <= i < entries.len(),
        entries[i].0@ == new.0@,
        forall|j: int| 0 <= j < i ==> (#[trigger] entries[j]).0@ != new.0@,
    ensures
        first_value(entries.update(i, new), key) == if key == new.0@ {
            Some(new.1)
        } else {
            first_value(entries, key)
        },
    decreases entries.len(),
{
    let after = entries.update(i, new);
    if i == 0 {
        assert(after.skip(1) =~= entries.skip(1));
    } else {
        let rest = entries.skip(1);
        assert(after.skip(1) =~= rest.update(i - 1, new));
        assert forall|j: int| 0 <= j < i - 1 implies (#[trigger] rest[j]).0@ != new.0@ by {
            assert(rest[j] == entries[j + 1]);
        }
        assert(entries[0].0@ != new.0@);
        lemma_replaced(rest, i - 1, new, key);
    }
}

/// An entry with a new key put at the end gives that key its value.
proof fn lemma_added<V>(entries: Seq<(String, V)>, new: (String, V), key: Seq<char>)
    requires
        forall|j: int| 0 <= j < entries.len() ==> (#[trigger] entries[j]).0@ != new.0@,
    ensures
        first_value(entries.push(new), key) == if key == new.0@ {
            Some(new.1)
        } else {
            first_value(entries, key)
        },
    decreases entries.len(),
{
    let after = entries.push(new);
    if entries.len() == 0 {
        assert(after.skip(1) =~= Seq::empty());
        assert(first_value(after.skip(1), key) is None);
    } else {
        let rest = entries.skip(1);
        assert(after.skip(1) =~= rest.push(new));
        assert forall|j: int| 0 <= j < rest.len() implies (#[trigger] rest[j]).0@ != new.0@ by {
            assert(rest[j] == entries[j + 1]);
        }
        assert(entries[0].0@ != new.0@);
        lemma_added(rest, new, key);
    }
}

/// A key with a value is the key of some entry.
proof fn lemma_key_present<V>(entries: Seq<(String, V)>, key: Seq<char>) -> (i: int)
    requires
        first_value(entries, key) is Some,
    ensures
        0 <= i < entries.len(),
        entries[i].0@ == key,
    decreases entries.len(),
{
    if entries[0].0@ == key {
        0
    } else {
        let i = lemma_key_present(entries.skip(1), key);
        i + 1
    }
}

impl<V: Copy> Table<V> {
    /// A table without entries.
    pub fn new() -> (r: Self)
        ensures
            r@ == Map::<Seq<char>, V>::empty(),
    {
        let r = Table { entries: Vec::new() };
        assert(r@ =~= Map::<Seq<char>, V>::empty());
        r
    }

    /// Whether the table has no entries.
    pub fn is_empty(&self) -> (r: bool)
        ensures
            r == (self@ == Map::<Seq<char>, V>::empty()),
    {
        proof {
            if self.entries.len() > 0 {
                assert(self@.dom().contains(self.entries@[0].0@));
            } else {
                assert(self@ =~= Map::<Seq<char>, V>::empty());
            }
        }
        self.entries.len() == 0
    }

    /// The value for a key, where the table has one.
    pub fn get(&self, key: &str) -> (r: Option<V>)
        ensures
            r == value_in(self@, key@),
    {
        let mut i: usize = 0;
        assert(self.entries@.skip(0) =~= self.entries@);
        while i < self.entries.len()
            invariant
                i <= self.entries@.len(),
                first_value(self.entries@.skip(i as int), key@) == first_value(self.entries@, key@),
            decreases self.entries@.len() - i,
        {
            assert(self.entries@.skip(i as int).skip(1) =~= self.entries@.skip(i + 1));
            if same_text(self.entries[i].0.as_str(), key) {
                return Some(self.entries[i].1);
            }
            i = i + 1;
        }
        None
    }

    /// Give a key a value, in place of the one that it has.
    pub fn insert(&mut self, key: String, value: V)
        ensures
            final(self)@ == old(self)@.insert(key@, value),
    {
        let ghost before = self.entries@;
        let ghost k = key@;
        let mut i: usize = 0;
        while i < self.entries.len() && !same_text(self.entries[i].0.as_str(), key.as_str())
            invariant
                i <= self.entries@.len(),
                self.entries@ == before,
                before == old(self).entries@,
                forall|j: int| 0 <= j < i ==> (#[trigger] before[j]).0@ != key@,
            decreases self.entries@.len() - i,
        {
            i = i + 1;
        }
        let entry = (key, value);
        if i < self.entries.len() {
            self.entries[i] = entry;
            assert forall|other: Seq<char>|
                first_value(self.entries@, other) == #[trigger] first_value(before, other)
                    || other == k by {
                lemma_replaced(before, i as int, entry, other);
            }
            proof {
                lemma_replaced(before, i as int, entry, k);
            }
        } else {
            self.entries.push(entry);
            assert forall|other: Seq<char>|
                first_value(self.entries@, other) == #[trigger] first_value(before, other)
                    || other == k by {
                lemma_added(before, entry, other);
            }
            proof {
                lemma_added(before, entry, k);
            }
        }
        assert(self@ =~= old(self)@.insert(k, value));
    }

    /// A copy of the table.
    pub fn copy(&self) -> (r: Self)
        ensures
            r@ == self@,
    {
        let mut entries: Vec<(String, V)> = Vec::new();
        let mut i: usize = 0;
        while i < self.entries.len()
            invariant
                i <= self.entries@.len(),
                entries@.len() == i,
                forall|j: int|
                    0 <= j < i ==> (#[trigger] entries@[j]).0@ == self.entries@[j].0@
                        && entries@[j].1 == self.entries@[j].1,
            decreases self.entries@.len() - i,
        {
            entries.push((self.entries[i].0.clone(), self.entries[i].1));
            i = i + 1;
        }
        let r = Table { entries };
        assert forall|key: Seq<char>|
            #[trigger] first_value(r.entries@, key) == first_value(self.entries@, key) by {
            lemma_same_entries(r.entries@, self.entries@, key);
        }
        assert(r@ =~= self@);
        r
    }
}

proof fn lemma_same_entries<V>(a: Seq<(String, V)>, b: Seq<(String, V)>, key: Seq<char>)
    requires
        a.len() == b.len(),
        forall|j: int| 0 <= j < a.len() ==> (#[trigger] a[j]).0@ == b[j].0@ && a[j].1 == b[j].1,
    ensures
        first_value(a, key) == first_value(b, key),
    decreases a.len(),
{
    if a.len() > 0 {
        assert(a[0].0@ == b[0].0@);
        assert forall|j: int| 0 <= j < a.skip(1).len() implies (#[trigger] a.skip(1)[j]).0@
            == b.skip(1)[j].0@ && a.skip(1)[j].1 == b.skip(1)[j].1 by {
            assert(a.skip(1)[j] == a[j + 1]);
            assert(b.skip(1)[j] == b[j + 1]);
        }
        lemma_same_entries(a.skip(1), b.skip(1), key);
    }
}

/// Whether each key of the first map has the same number in the second.
pub open spec fn numbers_within(a: Map<Seq<char>, Single>, b: Map<Seq<char>, Single>) -> bool {
    forall|key: Seq<char>| #[trigger]
        a.dom().contains(key) ==> b.dom().contains(key) && a[key].equals(b[key])
}

/// Whether the two maps have the same numbers for the same keys.
pub open spec fn same_numbers(a: Map<Seq<char>, Single>, b: Map<Seq<char>, Single>) -> bool {
    numbers_within(a, b) && numbers_within(b, a)
}

impl Table<Single> {
    /// Whether each key of this table has the same number in the other.
    fn within(&self, other: &Table<Single>) -> (r: bool)
        ensures
            r == numbers_within(self@, other@),
    {
        let mut i: usize = 0;
        while i < self.entries.len()
            invariant
                i <= self.entries@.len(),
                forall|j: int|
                    0 <= j < i ==> other@.dom().contains((#[trigger] self.entries@[j]).0@)
                        && self@[self.entries@[j].0@].equals(other@[self.entries@[j].0@]),
            decreases self.entries@.len() - i,
        {
            let key = self.entries[i].0.as_str();
            let here = self.get(key);
            let there = other.get(key);
            proof {
                assert(self@.dom().contains(key@)) by {
                    lemma_entry_has_value(self.entries@, i as int);
                }
            }
            let agree = match (here, there) {
                (Some(a), Some(b)) => a.same(b),
                _ => false,
            };
            if !agree {
                assert(self@.dom().contains(key@));
                return false;
            }
            i = i + 1;
        }
        assert forall|key: Seq<char>| #[trigger] self@.dom().contains(key) implies other@.dom().contains(
            key,
        ) && self@[key].equals(other@[key]) by {
            let j = lemma_key_present(self.entries@, key);
            assert(other@.dom().contains(self.entries@[j].0@));
        }
        true
    }

    /// Whether the two tables have the same numbers for the same keys.
    pub fn same(&self, other: &Table<Single>) -> (r: bool)
        ensures
            r == same_numbers(self@, other@),
    {
        self.within(other) && other.within(self)
    }
}

proof fn lemma_entry_has_value<V>(entries: Seq<(String, V)>, i: int)
    requires
        0 <= i < entries.len(),
    ensures
        first_value(entries, entries[i].0@) is Some,
    decreases entries.len(),
{
    if entries[0].0@ != entries[i].0@ {
        assert(entries.skip(1)[i - 1] == entries[i]);
        lemma_entry_has_value(entries.skip(1), i - 1);
    }
}

} // verus!
