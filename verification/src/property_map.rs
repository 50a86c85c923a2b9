//! Properties by name.

use vstd::prelude::*;

use crate::text::{same_text, Text};

verus! {

/// A map from text to text, which holds no name twice.
#[derive(Debug, Eq)]
pub struct PropertyMap {
    entries: Vec<(String, String)>,
}

/// The map that entries describe; of two entries for one name, the later counts.
pub closed spec fn entries_map(entries: Seq<(String, String)>) -> Map<Seq<char>, Seq<char>>
    decreases entries.len(),
{
    if entries.len() == 0 {
        Map::empty()
    } else {
        entries_map(entries.drop_last()).insert(entries.last().0@, entries.last().1@)
    }
}

/// Whether no name has two entries.
pub open spec fn distinct_entries(entries: Seq<(String, String)>) -> bool {
    forall|i: int, j: int|
        0 <= i < j < entries.len() ==> (#[trigger] entries[i]).0@ != (#[trigger] entries[j]).0@
}

impl View for PropertyMap {
    type V = Map<Seq<char>, Seq<char>>;

    closed spec fn view(&self) -> Map<Seq<char>, Seq<char>> {
        entries_map(self.entries@)
    }
}

proof fn lemma_last_entry(entries: Seq<(String, String)>, i: int, key: Seq<char>)
    requires
        0 <= i < entries.len(),
        entries[i].0@ == key,
        forall|j: int| i < j < entries.len() ==> (#[trigger] entries[j]).0@ != key,
    ensures
        entries_map(entries).dom().contains(key),
        entries_map(entries)[key] == entries[i].1@,
    decreases entries.len(),
{
    if i < entries.len() - 1 {
        assert(entries[entries.len() - 1].0@ != key);
        lemma_last_entry(entries.drop_last(), i, key);
    }
}

proof fn lemma_no_entry(entries: Seq<(String, String)>, key: Seq<char>)
    requires
        forall|j: int| 0 <= j < entries.len() ==> (#[trigger] entries[j]).0@ != key,
    ensures
        !entries_map(entries).dom().contains(key),
    decreases entries.len(),
{
    if entries.len() > 0 {
        assert(entries[entries.len() - 1].0@ != key);
        lemma_no_entry(entries.drop_last(), key);
    }
}

proof fn lemma_replace(entries: Seq<(String, String)>, i: int, entry: (String, String))
    requires
        0 <= i < entries.len(),
        entries[i].0@ == entry.0@,
        forall|j: int| i < j < entries.len() ==> (#[trigger] entries[j]).0@ != entry.0@,
    ensures
        entries_map(entries.update(i, entry)) == entries_map(entries).insert(entry.0@, entry.1@),
    decreases entries.len(),
{
    let out = entries.update(i, entry);
    if i < entries.len() - 1 {
        assert(entries[entries.len() - 1].0@ != entry.0@);
        lemma_replace(entries.drop_last(), i, entry);
        assert(out.drop_last() =~= entries.drop_last().update(i, entry));
        assert(entries_map(out) =~= entries_map(entries).insert(entry.0@, entry.1@));
    } else {
        assert(out.drop_last() =~= entries.drop_last());
        assert(entries_map(out) =~= entries_map(entries).insert(entry.0@, entry.1@));
    }
}

proof fn lemma_same_entries(a: Seq<(String, String)>, b: Seq<(String, String)>)
    requires
        a.len() == b.len(),
        forall|i: int|
            0 <= i < a.len() ==> (#[trigger] a[i]).0@ == b[i].0@ && a[i].1@ == b[i].1@,
    ensures
        entries_map(a) == entries_map(b),
    decreases a.len(),
{
    if a.len() > 0 {
        assert(a[a.len() - 1].0@ == b[b.len() - 1].0@);
        lemma_same_entries(a.drop_last(), b.drop_last());
    }
}

proof fn lemma_has_entry(entries: Seq<(String, String)>, key: Seq<char>)
    requires
        entries_map(entries).dom().contains(key),
    ensures
        exists|i: int| 0 <= i < entries.len() && (#[trigger] entries[i]).0@ == key,
    decreases entries.len(),
{
    if entries.last().0@ == key {
        assert(entries[entries.len() - 1].0@ == key);
    } else {
        lemma_has_entry(entries.drop_last(), key);
        let i = choose|i: int|
            0 <= i < entries.drop_last().len() && (#[trigger] entries.drop_last()[i]).0@ == key;
        assert(entries[i].0@ == key);
    }
}

impl PropertyMap {
    #[verifier::type_invariant]
    spec fn no_name_twice(self) -> bool {
        distinct_entries(self.entries@)
    }

    pub fn new() -> (r: Self)
        ensures
            r@ == Map::<Seq<char>, Seq<char>>::empty(),
    {
        PropertyMap { entries: Vec::new() }
    }

    /// The value under a name.
    pub fn get(&self, key: &str) -> (r: Option<&String>)
        ensures
            match r {
                Some(v) => self@.dom().contains(key@) && self@[key@] == v@,
                None => !self@.dom().contains(key@),
            },
    {
        match self.find(key) {
            Some(i) => {
                proof {
                    lemma_last_entry(self.entries@, i as int, key@);
                }
                Some(&self.entries[i].1)
            },
            None => {
                proof {
                    lemma_no_entry(self.entries@, key@);
                }
                None
            },
        }
    }

    /// The place of the last entry for a name.
    fn find(&self, key: &str) -> (r: Option<usize>)
        ensures
            match r {
                Some(i) => i < self.entries@.len() && self.entries@[i as int].0@ == key@
                    && forall|j: int|
                    i < j < self.entries@.len() ==> (#[trigger] self.entries@[j]).0@ != key@,
                None => forall|j: int|
                    0 <= j < self.entries@.len() ==> (#[trigger] self.entries@[j]).0@ != key@,
            },
    {
        let mut i: usize = self.entries.len();
        while i > 0
            invariant
                i <= self.entries@.len(),
                forall|j: int|
                    i <= j < self.entries@.len() ==> (#[trigger] self.entries@[j]).0@ != key@,
            decreases i,
        {
            i = i - 1;
            if same_text(self.entries[i].0.as_str(), key) {
                return Some(i);
            }
        }
        None
    }

    /// Puts a value under a name, in place of one that is there.
    pub fn insert<K: Text, V: Text>(&mut self, key: K, value: V)
        ensures
            final(self)@ == old(self)@.insert(key.text(), value.text()),
    {
        let key = key.into_text();
        let value = value.into_text();
        proof {
            use_type_invariant(&*self);
        }
        let ghost before = self.entries@;
        let place = self.find(key.as_str());
        let mut entries: Vec<(String, String)> = Vec::new();
        std::mem::swap(&mut entries, &mut self.entries);
        match place {
            Some(i) => {
                proof {
                    lemma_replace(before, i as int, (key, value));
                }
                entries.set(i, (key, value));
            },
            None => {
                entries.push((key, value));
                assert(entries@.drop_last() =~= before);
            },
        }
        self.entries = entries;
    }

    /// Puts all properties of another map into this one.
    pub fn insert_all(&mut self, other: &PropertyMap)
        ensures
            final(self)@ == old(self)@.union_prefer_right(other@),
    {
        let ghost start = self@;
        let ghost all = other.entries@;
        let mut i: usize = 0;
        assert(all.take(0) =~= Seq::<(String, String)>::empty());
        assert(self@ =~= start.union_prefer_right(entries_map(all.take(0))));
        while i < other.entries.len()
            invariant
                i <= other.entries@.len(),
                all == other.entries@,
                self@ == start.union_prefer_right(entries_map(all.take(i as int))),
            decreases other.entries@.len() - i,
        {
            let entry = &other.entries[i];
            self.insert(&entry.0, &entry.1);
            assert(all.take(i + 1).drop_last() =~= all.take(i as int));
            assert(all.take(i + 1).last() == all[i as int]);
            assert(self@ =~= start.union_prefer_right(entries_map(all.take(i + 1))));
            i = i + 1;
        }
        assert(all.take(i as int) =~= all);
    }

    /// The properties one by one, each name once.
    pub fn pairs(&self) -> (r: &Vec<(String, String)>)
        ensures
            entries_map(r@) == self@,
            distinct_entries(r@),
    {
        proof {
            use_type_invariant(self);
        }
        &self.entries
    }

    /// Whether every property of this map stands in another.
    fn included_in(&self, other: &PropertyMap) -> (r: bool)
        ensures
            r == forall|k: Seq<char>| #[trigger]
                self@.dom().contains(k) ==> other@.dom().contains(k) && other@[k] == self@[k],
    {
        let mut i: usize = 0;
        while i < self.entries.len()
            invariant
                i <= self.entries@.len(),
                forall|j: int|
                    #![trigger self.entries@[j]]
                    0 <= j < i ==> other@.dom().contains(self.entries@[j].0@)
                        && self@.dom().contains(self.entries@[j].0@)
                        && other@[self.entries@[j].0@] == self@[self.entries@[j].0@],
            decreases self.entries@.len() - i,
        {
            let key = self.entries[i].0.as_str();
            match (self.get(key), other.get(key)) {
                (Some(a), Some(b)) => {
                    if !same_text(a.as_str(), b.as_str()) {
                        assert(self@.dom().contains(key@));
                        return false;
                    }
                },
                (Some(_), None) => {
                    assert(self@.dom().contains(key@));
                    return false;
                },
                (None, _) => {
                    proof {
                        lemma_entry_is_there(self.entries@, i as int);
                    }
                },
            }
            i = i + 1;
        }
        assert forall|k: Seq<char>| #[trigger] self@.dom().contains(k) implies other@.dom().contains(
            k,
        ) && other@[k] == self@[k] by {
            lemma_has_entry(self.entries@, k);
            let j = choose|j: int|
                0 <= j < self.entries@.len() && (#[trigger] self.entries@[j]).0@ == k;
            assert(self.entries@[j].0@ == k);
        }
        true
    }
}

proof fn lemma_entry_is_there(entries: Seq<(String, String)>, i: int)
    requires
        0 <= i < entries.len(),
    ensures
        entries_map(entries).dom().contains(entries[i].0@),
    decreases entries.len(),
{
    if i < entries.len() - 1 {
        lemma_entry_is_there(entries.drop_last(), i);
    }
}

impl Default for PropertyMap {
    fn default() -> (r: Self)
        ensures
            r@ == Map::<Seq<char>, Seq<char>>::empty(),
    {
        PropertyMap::new()
    }
}

impl Clone for PropertyMap {
    fn clone(&self) -> (r: Self)
        ensures
            r@ == self@,
    {
        let mut entries: Vec<(String, String)> = Vec::new();
        let mut i: usize = 0;
        while i < self.entries.len()
            invariant
                i <= self.entries@.len(),
                entries@.len() == i,
                forall|j: int|
                    0 <= j < i ==> (#[trigger] entries@[j]).0@ == self.entries@[j].0@
                        && entries@[j].1@ == self.entries@[j].1@,
            decreases self.entries@.len() - i,
        {
            let entry = &self.entries[i];
            entries.push((entry.0.clone(), entry.1.clone()));
            i = i + 1;
        }
        proof {
            use_type_invariant(self);
            lemma_same_entries(entries@, self.entries@);
        }
        PropertyMap { entries }
    }
}

impl PartialEq for PropertyMap {
    fn eq(&self, other: &PropertyMap) -> (r: bool) {
        let r = self.included_in(other) && other.included_in(self);
        assert(r ==> self@ =~= other@);
        r
    }
}

impl vstd::std_specs::cmp::PartialEqSpecImpl for PropertyMap {
    open spec fn obeys_eq_spec() -> bool {
        true
    }

    open spec fn eq_spec(&self, other: &PropertyMap) -> bool {
        self@ == other@
    }
}

} // verus!
