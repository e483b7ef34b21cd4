//! A finite map keyed by names.

use vstd::prelude::*;

verus! {

/// A finite map from names to values, kept as a list of entries. Where a name
/// occurs in several entries, the last of them counts; `insert` never adds a
/// second entry for a name.
#[derive(Debug)]
pub struct NameTable<V> {
    pub entries: Vec<(String, V)>,
}

impl<V: Clone> Clone for NameTable<V> {
    fn clone(&self) -> (copy: Self) {
        NameTable { entries: self.entries.clone() }
    }
}

/// The position of the last entry for `name` among the first `upto` entries.
pub open spec fn position_of<V>(entries: Seq<(String, V)>, name: Seq<char>, upto: int) -> Option<
    int,
>
    decreases upto,
{
    if upto <= 0 {
        None
    } else if entries[upto - 1].0@ == name {
        Some(upto - 1)
    } else {
        position_of(entries, name, upto - 1)
    }
}

/// `position_of` finds an entry with the name asked for, and finds one
/// whenever there is one.
pub proof fn lemma_position_of<V>(entries: Seq<(String, V)>, name: Seq<char>, upto: int)
    requires
        0 <= upto <= entries.len(),
    ensures
        match position_of(entries, name, upto) {
            Some(i) => 0 <= i < upto && entries[i].0@ == name,
            None => forall|i: int| 0 <= i < upto ==> (#[trigger] entries[i]).0@ != name,
        },
    decreases upto,
{
    if upto > 0 && entries[upto - 1].0@ != name {
        lemma_position_of(entries, name, upto - 1);
    }
}

/// Two lists with the same names in the same places hold each name at the
/// same position.
pub proof fn lemma_same_names_same_positions<V, W>(
    a: Seq<(String, V)>,
    b: Seq<(String, W)>,
    name: Seq<char>,
    upto: int,
)
    requires
        0 <= upto <= a.len(),
        upto <= b.len(),
        forall|i: int| 0 <= i < upto ==> (#[trigger] a[i]).0@ == b[i].0@,
    ensures
        position_of(a, name, upto) == position_of(b, name, upto),
    decreases upto,
{
    if upto > 0 {
        assert(a[upto - 1].0@ == b[upto - 1].0@);
        lemma_same_names_same_positions(a, b, name, upto - 1);
    }
}

impl<V> NameTable<V> {
    /// Whether `name` is in the table.
    pub open spec fn contains(&self, name: Seq<char>) -> bool {
        position_of(self.entries@, name, self.entries@.len() as int) is Some
    }

    /// The value stored under `name`, which must be in the table.
    pub open spec fn value(&self, name: Seq<char>) -> V
        recommends
            self.contains(name),
    {
        self.entries@[position_of(self.entries@, name, self.entries@.len() as int).unwrap()].1
    }

    /// The table as a map from names to values.
    pub open spec fn as_map(&self) -> Map<Seq<char>, V> {
        Map::new(|name: Seq<char>| self.contains(name), |name: Seq<char>| self.value(name))
    }

    /// An empty table.
    pub fn new() -> (table: Self)
        ensures
            table.entries@.len() == 0,
            table.as_map() == Map::<Seq<char>, V>::empty(),
    {
        let table = NameTable { entries: Vec::new() };
        assert(table.as_map() =~= Map::<Seq<char>, V>::empty());
        table
    }

    /// The position of the entry that counts for `name`.
    fn find(&self, name: &String) -> (found: Option<usize>)
        ensures
            found is Some ==> found.unwrap() < self.entries@.len(),
            position_of(self.entries@, name@, self.entries@.len() as int) == match found {
                Some(i) => Some(i as int),
                None => None,
            },
    {
        let mut i: usize = self.entries.len();
        while i > 0
            invariant
                i <= self.entries@.len(),
                position_of(self.entries@, name@, self.entries@.len() as int) == position_of(
                    self.entries@,
                    name@,
                    i as int,
                ),
            decreases i,
        {
            i = i - 1;
            if self.entries[i].0 == *name {
                return Some(i);
            }
        }
        None
    }

    /// The value stored under `name`, if there is one.
    pub fn get(&self, name: &str) -> (found: Option<&V>)
        ensures
            match found {
                Some(value) => self.contains(name@) && *value == self.value(name@),
                None => !self.contains(name@),
            },
    {
        let key = name.to_owned();
        match self.find(&key) {
            Some(i) => Some(&self.entries[i].1),
            None => None,
        }
    }

    /// Stores `value` under `name`, in place of any value that was there:
    /// the entry that counts for the name is overwritten, and a new name
    /// gets a new entry behind the others.
    pub fn insert(&mut self, name: String, value: V)
        ensures
            final(self).as_map() == old(self).as_map().insert(name@, value),
            final(self).entries@ == match position_of(
                old(self).entries@,
                name@,
                old(self).entries@.len() as int,
            ) {
                Some(position) => old(self).entries@.update(position, (name, value)),
                None => old(self).entries@.push((name, value)),
            },
            forall|other: Seq<char>|
                final(self).contains(other) <==> (other == name@ || old(self).contains(other)),
            final(self).value(name@) == value,
            forall|other: Seq<char>|
                other != name@ && old(self).contains(other) ==> final(self).value(other) == old(
                    self,
                ).value(other),
    {
        let ghost before = self.entries@;
        let ghost key = name@;
        let ghost n = before.len() as int;
        match self.find(&name) {
            Some(i) => {
                self.entries.set(i, (name, value));
            },
            None => {
                self.entries.push((name, value));
            },
        }
        proof {
            let after = self.entries@;
            lemma_position_of(before, key, n);
            assert forall|k: int| 0 <= k < n implies (#[trigger] before[k]).0@ == after[k].0@ by {}
            assert forall|other: Seq<char>|
                position_of(after, other, n) == #[trigger] position_of(before, other, n) by {
                lemma_same_names_same_positions(before, after, other, n);
            }
            assert forall|other: Seq<char>|
                other != key && old(self).contains(other) implies self.value(other) == old(
                    self,
                ).value(other) by {
                lemma_position_of(before, other, n);
            }
            assert(self.as_map() =~= old(self).as_map().insert(key, value));
        }
    }
}

} // verus!
