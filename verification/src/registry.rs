//! Values kept under names, in the order in which the names came.

use crate::text::same_text;
use vstd::prelude::*;

verus! {

/// A list of names and values as a map; of entries with one name the last counts.
pub open spec fn entry_map<T>(entries: Seq<(Seq<char>, T)>) -> Map<Seq<char>, T>
    decreases entries.len(),
{
    if entries.len() == 0 {
        Map::empty()
    } else {
        entry_map(entries.drop_last()).insert(entries.last().0, entries.last().1)
    }
}

/// No two entries have one name.
pub open spec fn distinct_keys<T>(entries: Seq<(Seq<char>, T)>) -> bool {
    forall|i: int, j: int|
        0 <= i < j < entries.len() ==> (#[trigger] entries[i]).0 != (#[trigger] entries[j]).0
}

/// The entries with `value` under `key`: in the place of the entry that has the name, or at the
/// end.
pub open spec fn put<T>(entries: Seq<(Seq<char>, T)>, key: Seq<char>, value: T) -> Seq<
    (Seq<char>, T),
> {
    if entry_map(entries).dom().contains(key) {
        entries.map_values(
            |e: (Seq<char>, T)|
                if e.0 == key {
                    (key, value)
                } else {
                    e
                },
        )
    } else {
        entries.push((key, value))
    }
}

/// The value under `key`.
pub open spec fn lookup<T>(entries: Seq<(Seq<char>, T)>, key: Seq<char>) -> Option<T> {
    if entry_map(entries).dom().contains(key) {
        Some(entry_map(entries)[key])
    } else {
        None
    }
}

/// The entries but for the one named `key`.
pub open spec fn without<T>(entries: Seq<(Seq<char>, T)>, key: Seq<char>) -> Seq<(Seq<char>, T)> {
    entries.filter(|e: (Seq<char>, T)| e.0 != key)
}

/// A name is in the map exactly where an entry has it.
pub proof fn lemma_entry_names<T>(entries: Seq<(Seq<char>, T)>, key: Seq<char>)
    ensures
        entry_map(entries).dom().contains(key) <==> exists|i: int|
            0 <= i < entries.len() && (#[trigger] entries[i]).0 == key,
    decreases entries.len(),
{
    if entries.len() > 0 {
        let rest = entries.drop_last();
        lemma_entry_names(rest, key);
        if entries.last().0 == key {
            assert(entries[entries.len() - 1].0 == key);
        } else if entry_map(rest).dom().contains(key) {
            let i = choose|i: int| 0 <= i < rest.len() && (#[trigger] rest[i]).0 == key;
            assert(entries[i].0 == key);
        } else if exists|i: int| 0 <= i < entries.len() && (#[trigger] entries[i]).0 == key {
            let i = choose|i: int| 0 <= i < entries.len() && (#[trigger] entries[i]).0 == key;
            assert(rest[i].0 == key);
        }
    }
}

/// The value of each entry is in the map, where no two have one name.
pub proof fn lemma_entry_at<T>(entries: Seq<(Seq<char>, T)>, i: int)
    requires
        distinct_keys(entries),
        0 <= i < entries.len(),
    ensures
        entry_map(entries).dom().contains(entries[i].0),
        entry_map(entries)[entries[i].0] == entries[i].1,
    decreases entries.len(),
{
    if i < entries.len() - 1 {
        assert(entries[i].0 != entries[entries.len() - 1].0);
        lemma_entry_at(entries.drop_last(), i);
    }
}

/// Putting a value under a name sets it in the map, and keeps the names distinct.
pub proof fn lemma_put<T>(entries: Seq<(Seq<char>, T)>, key: Seq<char>, value: T)
    requires
        distinct_keys(entries),
    ensures
        distinct_keys(put(entries, key, value)),
        entry_map(put(entries, key, value)) == entry_map(entries).insert(key, value),
{
    let after = put(entries, key, value);
    lemma_entry_names(entries, key);
    assert forall|i: int, j: int| 0 <= i < j < after.len() implies (#[trigger] after[i]).0 != (
    #[trigger] after[j]).0 by {
        if j < entries.len() {
            assert(entries[i].0 != entries[j].0);
        } else {
            assert(entries[i].0 != key);
        }
    }
    let left = entry_map(after);
    let right = entry_map(entries).insert(key, value);
    assert forall|k: Seq<char>| left.dom().contains(k) == right.dom().contains(k) by {
        lemma_entry_names(after, k);
        lemma_entry_names(entries, k);
        if left.dom().contains(k) {
            let i = choose|i: int| 0 <= i < after.len() && (#[trigger] after[i]).0 == k;
            if i < entries.len() {
                assert(entries[i].0 == k);
            }
        }
        if right.dom().contains(k) {
            if k == key && !entry_map(entries).dom().contains(key) {
                assert(after[entries.len() as int].0 == k);
            } else {
                let i = choose|i: int| 0 <= i < entries.len() && (#[trigger] entries[i]).0 == k;
                assert(after[i].0 == k);
            }
        }
    }
    assert forall|k: Seq<char>| left.dom().contains(k) implies left[k] == right[k] by {
        lemma_entry_names(after, k);
        let i = choose|i: int| 0 <= i < after.len() && (#[trigger] after[i]).0 == k;
        lemma_entry_at(after, i);
        if k != key {
            assert(entries[i] == after[i]);
            lemma_entry_at(entries, i);
        }
    }
    assert(left =~= right);
}

/// Taking the entry named `key` out takes the name out of the map, and keeps the rest distinct.
pub proof fn lemma_without<T>(entries: Seq<(Seq<char>, T)>, key: Seq<char>)
    requires
        distinct_keys(entries),
    ensures
        distinct_keys(without(entries, key)),
        entry_map(without(entries, key)) == entry_map(entries).remove(key),
    decreases entries.len(),
{
    reveal(Seq::filter);
    if entries.len() > 0 {
        let rest = entries.drop_last();
        lemma_without(rest, key);
        let after = without(entries, key);
        if entries.last().0 == key {
            assert(after == without(rest, key));
            lemma_entry_names(rest, key);
            assert(!entry_map(rest).dom().contains(key)) by {
                if entry_map(rest).dom().contains(key) {
                    let i = choose|i: int| 0 <= i < rest.len() && (#[trigger] rest[i]).0 == key;
                    assert(entries[i].0 != entries[entries.len() - 1].0);
                }
            }
            assert(entry_map(after) =~= entry_map(entries).remove(key));
        } else {
            assert(after == without(rest, key).push(entries.last()));
            assert(after.drop_last() =~= without(rest, key));
            assert(entry_map(after) =~= entry_map(entries).remove(key));
            assert forall|i: int, j: int| 0 <= i < j < after.len() implies (#[trigger] after[i]).0
                != (#[trigger] after[j]).0 by {
                if j < after.len() - 1 {
                    assert(without(rest, key)[i].0 != without(rest, key)[j].0);
                } else {
                    lemma_entry_names(without(rest, key), after[i].0);
                    assert(without(rest, key)[i].0 == after[i].0);
                    lemma_entry_names(rest, after[i].0);
                    let p = choose|p: int|
                        0 <= p < rest.len() && (#[trigger] rest[p]).0 == after[i].0;
                    assert(entries[p].0 != entries[entries.len() - 1].0);
                }
            }
        }
    }
}

/// Values under names.
pub struct Registry<V> {
    pub list: Vec<(String, V)>,
}

impl<V: View> Registry<V> {
    /// The names and values in order.
    pub open spec fn entries(&self) -> Seq<(Seq<char>, V::V)> {
        self.list@.map_values(|e: (String, V)| (e.0@, e.1@))
    }

    /// No two entries have one name.
    pub open spec fn wf(&self) -> bool {
        distinct_keys(self.entries())
    }

    /// The registry without entries.
    pub fn new() -> (registry: Registry<V>)
        ensures
            registry.wf(),
            registry.entries() == Seq::<(Seq<char>, V::V)>::empty(),
            registry@ == Map::<Seq<char>, V::V>::empty(),
    {
        let registry = Registry { list: Vec::new() };
        assert(registry.entries() =~= Seq::<(Seq<char>, V::V)>::empty());
        registry
    }

    /// The number of entries.
    pub fn len(&self) -> (count: usize)
        ensures
            count == self.entries().len(),
    {
        self.list.len()
    }

    /// The place of the entry named `key`.
    fn find(&self, key: &str) -> (place: Option<usize>)
        requires
            self.wf(),
        ensures
            match place {
                Some(i) => i < self.list.len() && self.entries()[i as int].0 == key@
                    && self@.dom().contains(key@) && self@[key@] == self.list@[i as int].1@,
                None => !self@.dom().contains(key@),
            },
    {
        let mut i: usize = 0;
        while i < self.list.len()
            invariant
                self.wf(),
                i <= self.list.len(),
                forall|j: int| 0 <= j < i ==> (#[trigger] self.entries()[j]).0 != key@,
            decreases self.list.len() - i,
        {
            assert(self.entries()[i as int].0 == self.list@[i as int].0@);
            if same_text(self.list[i].0.as_str(), key) {
                proof {
                    lemma_entry_at(self.entries(), i as int);
                }
                return Some(i);
            }
            i = i + 1;
        }
        proof {
            lemma_entry_names(self.entries(), key@);
        }
        None
    }

    /// The value under `key`.
    pub fn get(&self, key: &str) -> (value: Option<&V>)
        requires
            self.wf(),
        ensures
            match value {
                Some(v) => self@.dom().contains(key@) && v@ == self@[key@],
                None => !self@.dom().contains(key@),
            },
    {
        match self.find(key) {
            Some(i) => Some(&self.list[i].1),
            None => None,
        }
    }

    /// Tells whether there is a value under `key`.
    pub fn contains_key(&self, key: &str) -> (found: bool)
        requires
            self.wf(),
        ensures
            found == self@.dom().contains(key@),
    {
        match self.find(key) {
            Some(_) => true,
            None => false,
        }
    }

    /// Puts `value` under `key`, in place of the value that was there.
    pub fn insert(&mut self, key: &str, value: V)
        requires
            old(self).wf(),
        ensures
            final(self).wf(),
            final(self).entries() == put(old(self).entries(), key@, value@),
            final(self)@ == old(self)@.insert(key@, value@),
    {
        let ghost before = self.entries();
        proof {
            lemma_put(before, key@, value@);
        }
        match self.find(key) {
            Some(i) => {
                self.list[i] = (key.to_owned(), value);
                proof {
                    let after = put(before, key@, value@);
                    assert forall|j: int| 0 <= j < after.len() implies self.entries()[j]
                        == after[j] by {
                        if j != i {
                            assert(before[j].0 != before[i as int].0);
                        }
                    }
                    assert(self.entries() =~= after);
                }
            },
            None => {
                self.list.push((key.to_owned(), value));
                assert(self.entries() =~= before.push((key@, value@)));
            },
        }
    }

    /// Takes the value under `key` out.
    pub fn remove(&mut self, key: &str) -> (value: Option<V>)
        requires
            old(self).wf(),
        ensures
            final(self).wf(),
            final(self).entries() == without(old(self).entries(), key@),
            final(self)@ == old(self)@.remove(key@),
            match value {
                Some(v) => old(self)@.dom().contains(key@) && v@ == old(self)@[key@],
                None => !old(self)@.dom().contains(key@),
            },
    {
        let ghost before = self.entries();
        proof {
            lemma_without(before, key@);
        }
        match self.find(key) {
            Some(i) => {
                let (_, value) = self.list.remove(i);
                proof {
                    assert(self.entries() =~= before.remove(i as int));
                    lemma_filter_one(before, key@, i as int);
                }
                Some(value)
            },
            None => {
                proof {
                    lemma_entry_names(before, key@);
                    lemma_filter_none(before, key@);
                    assert(entry_map(before).remove(key@) =~= entry_map(before));
                }
                None
            },
        }
    }
}

/// Where no entry has the name, taking it out changes nothing.
proof fn lemma_filter_none<T>(entries: Seq<(Seq<char>, T)>, key: Seq<char>)
    requires
        forall|i: int| 0 <= i < entries.len() ==> (#[trigger] entries[i]).0 != key,
    ensures
        without(entries, key) == entries,
    decreases entries.len(),
{
    reveal(Seq::filter);
    if entries.len() > 0 {
        assert forall|i: int| 0 <= i < entries.drop_last().len() implies (
        #[trigger] entries.drop_last()[i]).0 != key by {
            assert(entries[i].0 != key);
        }
        lemma_filter_none(entries.drop_last(), key);
        assert(entries[entries.len() - 1].0 != key);
        assert(without(entries, key) =~= entries);
    }
}

/// Where the entry at `at` has the name, taking the name out takes that entry out.
proof fn lemma_filter_one<T>(entries: Seq<(Seq<char>, T)>, key: Seq<char>, at: int)
    requires
        distinct_keys(entries),
        0 <= at < entries.len(),
        entries[at].0 == key,
    ensures
        without(entries, key) == entries.remove(at),
    decreases entries.len(),
{
    reveal(Seq::filter);
    let rest = entries.drop_last();
    if at == entries.len() - 1 {
        assert forall|i: int| 0 <= i < rest.len() implies (#[trigger] rest[i]).0 != key by {
            assert(entries[i].0 != entries[at].0);
        }
        lemma_filter_none(rest, key);
        assert(without(entries, key) =~= entries.remove(at));
    } else {
        lemma_filter_one(rest, key, at);
        assert(entries[at].0 != entries[entries.len() - 1].0);
        assert(without(entries, key) =~= entries.remove(at));
    }
}

impl<V: View> View for Registry<V> {
    type V = Map<Seq<char>, V::V>;

    open spec fn view(&self) -> Map<Seq<char>, V::V> {
        entry_map(self.entries())
    }
}

} // verus!
