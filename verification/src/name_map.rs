//! Maps from names to values, kept in the order in which the names came.

use vstd::prelude::*;

verus! {

/// A map from names to values. Each name has one value, the last one it was
/// given, and the names keep the order in which they were first given one.
#[derive(Debug)]
pub struct NameMap<V> {
    entries: Vec<(String, V)>,
}

/// The trace variables of one frame. A value is carried as the 32-bit
/// pattern it was traced with and is never computed with.
pub type Variables = NameMap<u32>;

/// Names to values, later entries winning over earlier ones of the same name.
pub open spec fn to_map<V>(entries: Seq<(String, V)>) -> Map<Seq<char>, V>
    decreases entries.len(),
{
    if entries.len() == 0 {
        Map::empty()
    } else {
        to_map(entries.drop_last()).insert(entries.last().0@, entries.last().1)
    }
}

/// No name occurs twice.
pub open spec fn distinct_names<V>(entries: Seq<(String, V)>) -> bool {
    forall|i: int, j: int|
        0 <= i < j < entries.len() ==> (#[trigger] entries[i]).0@ != (#[trigger] entries[j]).0@
}

/// `std`'s equality of string slices: true exactly when the two hold the
/// same characters.
#[verifier::external_body]
pub(crate) fn str_eq(a: &str, b: &str) -> (same: bool)
    ensures
        same == (a@ == b@),
{
    a == b
}

/// A name is in the map exactly when some entry has it.
proof fn lemma_to_map_dom<V>(entries: Seq<(String, V)>, name: Seq<char>)
    ensures
        to_map(entries).contains_key(name) <==> exists|i: int|
            0 <= i < entries.len() && (#[trigger] entries[i]).0@ == name,
    decreases entries.len(),
{
    if entries.len() > 0 {
        let earlier = entries.drop_last();
        lemma_to_map_dom(earlier, name);
        if to_map(entries).contains_key(name) {
            if entries.last().0@ == name {
                assert(entries[entries.len() - 1].0@ == name);
            } else {
                let i = choose|i: int| 0 <= i < earlier.len() && (#[trigger] earlier[i]).0@ == name;
                assert(entries[i].0@ == name);
            }
        }
        if exists|i: int| 0 <= i < entries.len() && (#[trigger] entries[i]).0@ == name {
            let i = choose|i: int| 0 <= i < entries.len() && (#[trigger] entries[i]).0@ == name;
            if i < earlier.len() {
                assert(earlier[i].0@ == name);
            }
        }
    }
}

/// Where no name occurs twice, the map gives each entry's own value, and
/// holds as many names as there are entries.
proof fn lemma_to_map_entry<V>(entries: Seq<(String, V)>, i: int)
    requires
        distinct_names(entries),
        0 <= i < entries.len(),
    ensures
        to_map(entries).contains_key(entries[i].0@),
        to_map(entries)[entries[i].0@] == entries[i].1,
    decreases entries.len(),
{
    let earlier = entries.drop_last();
    if i < entries.len() - 1 {
        assert(earlier[i] == entries[i]);
        assert(entries[i].0@ != entries[entries.len() - 1].0@);
        assert(distinct_names(earlier)) by {
            assert forall|a: int, b: int| 0 <= a < b < earlier.len() implies (#[trigger] earlier[a]).0@
                != (#[trigger] earlier[b]).0@ by {
                assert(entries[a] == earlier[a] && entries[b] == earlier[b]);
            }
        }
        lemma_to_map_entry(earlier, i);
    }
}

proof fn lemma_to_map_len<V>(entries: Seq<(String, V)>)
    requires
        distinct_names(entries),
    ensures
        to_map(entries).dom().finite(),
        to_map(entries).len() == entries.len(),
    decreases entries.len(),
{
    if entries.len() > 0 {
        let earlier = entries.drop_last();
        assert(distinct_names(earlier)) by {
            assert forall|a: int, b: int| 0 <= a < b < earlier.len() implies (#[trigger] earlier[a]).0@
                != (#[trigger] earlier[b]).0@ by {
                assert(entries[a] == earlier[a] && entries[b] == earlier[b]);
            }
        }
        lemma_to_map_len(earlier);
        lemma_to_map_dom(earlier, entries.last().0@);
        assert(!to_map(earlier).contains_key(entries.last().0@)) by {
            if exists|i: int| 0 <= i < earlier.len() && (#[trigger] earlier[i]).0@ == entries.last().0@ {
                let i = choose|i: int|
                    0 <= i < earlier.len() && (#[trigger] earlier[i]).0@ == entries.last().0@;
                assert(entries[i] == earlier[i]);
                assert(entries[i].0@ != entries[entries.len() - 1].0@);
            }
        }
    }
}

/// Giving an entry a new value under its own name is an insert on the map.
proof fn lemma_to_map_update<V>(entries: Seq<(String, V)>, i: int, entry: (String, V))
    requires
        distinct_names(entries),
        0 <= i < entries.len(),
        entry.0@ == entries[i].0@,
    ensures
        to_map(entries.update(i, entry)) == to_map(entries).insert(entry.0@, entry.1),
        distinct_names(entries.update(i, entry)),
    decreases entries.len(),
{
    let after = entries.update(i, entry);
    let earlier = entries.drop_last();
    assert(distinct_names(after)) by {
        assert forall|a: int, b: int| 0 <= a < b < after.len() implies (#[trigger] after[a]).0@
            != (#[trigger] after[b]).0@ by {
            assert(entries[a].0@ != entries[b].0@);
        }
    }
    if i == entries.len() - 1 {
        assert(after.drop_last() =~= earlier);
        assert(to_map(after) =~= to_map(entries).insert(entry.0@, entry.1));
    } else {
        assert(distinct_names(earlier)) by {
            assert forall|a: int, b: int| 0 <= a < b < earlier.len() implies (#[trigger] earlier[a]).0@
                != (#[trigger] earlier[b]).0@ by {
                assert(entries[a] == earlier[a] && entries[b] == earlier[b]);
            }
        }
        assert(earlier[i] == entries[i]);
        lemma_to_map_update(earlier, i, entry);
        assert(after.drop_last() =~= earlier.update(i, entry));
        assert(after.last() == entries.last());
        assert(entries[i].0@ != entries[entries.len() - 1].0@);
        assert(to_map(after) =~= to_map(entries).insert(entry.0@, entry.1));
    }
}

impl<V> View for NameMap<V> {
    type V = Map<Seq<char>, V>;

    /// The value of each name that has one.
    closed spec fn view(&self) -> Map<Seq<char>, V> {
        to_map(self.entries@)
    }
}

impl<V> NameMap<V> {
    #[verifier::type_invariant]
    spec fn inv(self) -> bool {
        distinct_names(self.entries@)
    }

    /// The names in the order in which they were first set, each with its
    /// value.
    pub closed spec fn entries(&self) -> Seq<(String, V)> {
        self.entries@
    }

    /// The entries are the map, one entry for each name.
    pub proof fn lemma_entries(&self)
        requires
            distinct_names(self.entries()),
        ensures
            self@.dom().finite(),
            self@.len() == self.entries().len(),
            forall|i: int|
                0 <= i < self.entries().len() ==> self@.contains_key(
                    (#[trigger] self.entries()[i]).0@,
                ) && self@[self.entries()[i].0@] == self.entries()[i].1,
            forall|name: Seq<char>| #[trigger]
                self@.contains_key(name) ==> exists|i: int|
                    0 <= i < self.entries().len() && (#[trigger] self.entries()[i]).0@ == name,
    {
        lemma_to_map_len(self.entries@);
        assert forall|i: int| 0 <= i < self.entries().len() implies self@.contains_key(
            (#[trigger] self.entries()[i]).0@,
        ) && self@[self.entries()[i].0@] == self.entries()[i].1 by {
            lemma_to_map_entry(self.entries@, i);
        }
        assert forall|name: Seq<char>| #[trigger] self@.contains_key(name) implies exists|i: int|
            0 <= i < self.entries().len() && (#[trigger] self.entries()[i]).0@ == name by {
            lemma_to_map_dom(self.entries@, name);
        }
    }

    /// A map without names.
    pub fn new() -> (map: NameMap<V>)
        ensures
            map@ == Map::<Seq<char>, V>::empty(),
            map.entries().len() == 0,
    {
        NameMap { entries: Vec::new() }
    }

    /// The number of names that have a value.
    pub fn len(&self) -> (n: usize)
        ensures
            n == self@.len(),
            n == self.entries().len(),
            distinct_names(self.entries()),
    {
        proof {
            use_type_invariant(self);
            lemma_to_map_len(self.entries@);
        }
        self.entries.len()
    }

    /// The `i`-th name, in the order in which the names came.
    pub fn name(&self, i: usize) -> (name: &String)
        requires
            i < self.entries().len(),
        ensures
            *name == self.entries()[i as int].0,
            self@.contains_key(name@),
    {
        proof {
            use_type_invariant(self);
            lemma_to_map_entry(self.entries@, i as int);
        }
        &self.entries[i].0
    }

    /// The value of the `i`-th name, in the order in which the names came.
    pub fn value(&self, i: usize) -> (value: &V)
        requires
            i < self.entries().len(),
        ensures
            *value == self.entries()[i as int].1,
            *value == self@[self.entries()[i as int].0@],
    {
        proof {
            use_type_invariant(self);
            lemma_to_map_entry(self.entries@, i as int);
        }
        &self.entries[i].1
    }

    /// Where `name` stands among the names, if it has a value.
    pub fn index_of(&self, name: &str) -> (index: Option<usize>)
        ensures
            match index {
                Some(i) => i < self.entries().len() && self.entries()[i as int].0@ == name@
                    && self@.contains_key(name@),
                None => !self@.contains_key(name@),
            },
    {
        proof {
            use_type_invariant(self);
        }
        let mut i: usize = 0;
        while i < self.entries.len()
            invariant
                i <= self.entries.len(),
                distinct_names(self.entries@),
                forall|j: int| 0 <= j < i ==> (#[trigger] self.entries@[j]).0@ != name@,
            decreases self.entries.len() - i,
        {
            if str_eq(self.entries[i].0.as_str(), name) {
                proof {
                    lemma_to_map_entry(self.entries@, i as int);
                }
                return Some(i);
            }
            i += 1;
        }
        proof {
            lemma_to_map_dom(self.entries@, name@);
        }
        None
    }

    /// The value of `name`, if it has one.
    pub fn get(&self, name: &str) -> (value: Option<&V>)
        ensures
            match value {
                Some(v) => self@.contains_key(name@) && *v == self@[name@],
                None => !self@.contains_key(name@),
            },
    {
        match self.index_of(name) {
            Some(i) => {
                proof {
                    use_type_invariant(self);
                    lemma_to_map_entry(self.entries@, i as int);
                }
                Some(&self.entries[i].1)
            },
            None => None,
        }
    }

    /// Gives `name` the value `value`, in place of any value it had.
    pub fn insert(&mut self, name: String, value: V)
        ensures
            final(self)@ == old(self)@.insert(name@, value),
            ({
                let before = old(self).entries();
                let after = final(self).entries();
                if old(self)@.contains_key(name@) {
                    &&& after.len() == before.len()
                    &&& forall|i: int|
                        0 <= i < before.len() ==> (#[trigger] after[i]) == if before[i].0@ == name@ {
                            (name, value)
                        } else {
                            before[i]
                        }
                } else {
                    after == before.push((name, value))
                }
            }),
    {
        proof {
            use_type_invariant(&*self);
        }
        let found = self.index_of(name.as_str());
        let mut entries: Vec<(String, V)> = Vec::new();
        core::mem::swap(&mut entries, &mut self.entries);
        match found {
            Some(i) => {
                proof {
                    lemma_to_map_update(entries@, i as int, (name, value));
                }
                entries[i] = (name, value);
            },
            None => {
                proof {
                    lemma_to_map_dom(entries@, name@);
                }
                entries.push((name, value));
                assert(entries@.drop_last() =~= old(self).entries@);
                assert(distinct_names(entries@));
            },
        }
        core::mem::swap(&mut entries, &mut self.entries);
    }

    /// Puts `value` in the place of the `i`-th name's value, and hands the
    /// old value out.
    pub fn replace(&mut self, i: usize, value: V) -> (was: V)
        requires
            i < old(self).entries().len(),
        ensures
            was == old(self).entries()[i as int].1,
            old(self)@.contains_key(old(self).entries()[i as int].0@),
            was == old(self)@[old(self).entries()[i as int].0@],
            final(self)@ == old(self)@.insert(old(self).entries()[i as int].0@, value),
            final(self).entries() == old(self).entries().update(
                i as int,
                (old(self).entries()[i as int].0, value),
            ),
    {
        proof {
            use_type_invariant(&*self);
        }
        let mut entries: Vec<(String, V)> = Vec::new();
        core::mem::swap(&mut entries, &mut self.entries);
        let (name, was) = entries.remove(i);
        proof {
            lemma_to_map_update(old(self).entries@, i as int, (name, value));
            lemma_to_map_entry(old(self).entries@, i as int);
        }
        entries.insert(i, (name, value));
        assert(entries@ =~= old(self).entries@.update(i as int, (name, value)));
        core::mem::swap(&mut entries, &mut self.entries);
        was
    }

    /// Forgets every name.
    pub fn clear(&mut self)
        ensures
            final(self)@ == Map::<Seq<char>, V>::empty(),
            final(self).entries().len() == 0,
    {
        let mut entries: Vec<(String, V)> = Vec::new();
        core::mem::swap(&mut entries, &mut self.entries);
    }
}

impl NameMap<u32> {
    /// A copy of the map as it is now.
    pub fn snapshot(&self) -> (copy: NameMap<u32>)
        ensures
            copy@ == self@,
            copy.entries() == self.entries(),
    {
        proof {
            use_type_invariant(self);
        }
        let mut entries: Vec<(String, u32)> = Vec::new();
        let mut i: usize = 0;
        while i < self.entries.len()
            invariant
                i <= self.entries.len(),
                entries@ == self.entries@.take(i as int),
            decreases self.entries.len() - i,
        {
            entries.push((self.entries[i].0.clone(), self.entries[i].1));
            assert(entries@ =~= self.entries@.take(i + 1));
            i += 1;
        }
        assert(entries@ =~= self.entries@);
        NameMap { entries }
    }
}

impl Clone for NameMap<u32> {
    fn clone(&self) -> (copy: NameMap<u32>)
        ensures
            copy@ == self@,
            copy.entries() == self.entries(),
    {
        self.snapshot()
    }
}

} // verus!
