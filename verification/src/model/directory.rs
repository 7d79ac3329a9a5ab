//! Values by name: a list of entries in which no name occurs twice, seen
//! from outside as a finite map.
use vstd::prelude::*;

use crate::text::str_eq;

verus! {

struct Entry<V> {
    name: String,
    value: V,
}

/// A map from names to values.
pub struct Directory<V> {
    entries: Vec<Entry<V>>,
}

spec fn holds<V>(entries: Seq<Entry<V>>, k: Seq<char>) -> bool {
    exists|i: int| 0 <= i < entries.len() && (#[trigger] entries[i]).name@ == k
}

spec fn index_of<V>(entries: Seq<Entry<V>>, k: Seq<char>) -> int {
    choose|i: int| 0 <= i < entries.len() && (#[trigger] entries[i]).name@ == k
}

spec fn distinct<V>(entries: Seq<Entry<V>>) -> bool {
    forall|i: int, j: int|
        0 <= i < j < entries.len() ==> (#[trigger] entries[i]).name@ != (#[trigger] entries[j]).name@
}

spec fn as_map<V>(entries: Seq<Entry<V>>) -> Map<Seq<char>, V> {
    Map::new(|k: Seq<char>| holds(entries, k), |k: Seq<char>| entries[index_of(entries, k)].value)
}

proof fn lemma_index<V>(entries: Seq<Entry<V>>, i: int)
    requires
        distinct(entries),
        0 <= i < entries.len(),
    ensures
        holds(entries, entries[i].name@),
        index_of(entries, entries[i].name@) == i,
{
    let k = entries[i].name@;
    let j = index_of(entries, k);
    if j < i {
        assert(entries[j].name@ != entries[i].name@);
    } else if i < j {
        assert(entries[i].name@ != entries[j].name@);
    }
}

impl<V> View for Directory<V> {
    type V = Map<Seq<char>, V>;

    closed spec fn view(&self) -> Map<Seq<char>, V> {
        as_map(self.entries@)
    }
}

impl<V> Directory<V> {
    #[verifier::type_invariant]
    spec fn names_distinct(&self) -> bool {
        distinct(self.entries@)
    }

    /// The empty directory.
    pub fn new() -> (d: Directory<V>)
        ensures
            d@ == Map::<Seq<char>, V>::empty(),
    {
        let d = Directory { entries: Vec::new() };
        assert(d@ =~= Map::<Seq<char>, V>::empty());
        d
    }

    /// Takes every name out.
    pub fn clear(&mut self)
        ensures
            final(self)@ == Map::<Seq<char>, V>::empty(),
    {
        self.entries = Vec::new();
        assert(self@ =~= Map::<Seq<char>, V>::empty());
    }

    fn position(&self, name: &str) -> (r: Option<usize>)
        ensures
            match r {
                Some(i) => i < self.entries@.len() && self.entries@[i as int].name@ == name@,
                None => !holds(self.entries@, name@),
            },
    {
        let mut i: usize = 0;
        while i < self.entries.len()
            invariant
                i <= self.entries@.len(),
                forall|j: int| 0 <= j < i ==> (#[trigger] self.entries@[j]).name@ != name@,
            decreases self.entries@.len() - i,
        {
            if str_eq(self.entries[i].name.as_str(), name) {
                return Some(i);
            }
            i += 1;
        }
        None
    }

    /// The value that `name` stands for, if any.
    pub fn get(&self, name: &str) -> (r: Option<&V>)
        ensures
            match r {
                Some(v) => self@.contains_key(name@) && self@[name@] == *v,
                None => !self@.contains_key(name@),
            },
    {
        proof {
            use_type_invariant(self);
        }
        match self.position(name) {
            Some(i) => {
                proof {
                    lemma_index(self.entries@, i as int);
                }
                Some(&self.entries[i].value)
            },
            None => None,
        }
    }

    /// Lets `name` stand for `value` and hands back the value that it
    /// stood for before, if any.
    pub fn insert(&mut self, name: String, value: V) -> (r: Option<V>)
        ensures
            final(self)@ == old(self)@.insert(name@, value),
            match r {
                Some(v) => old(self)@.contains_key(name@) && old(self)@[name@] == v,
                None => !old(self)@.contains_key(name@),
            },
    {
        proof {
            use_type_invariant(&*self);
        }
        let ghost before = self.entries@;
        let found = self.position(name.as_str());
        let mut entries: Vec<Entry<V>> = Vec::new();
        core::mem::swap(&mut self.entries, &mut entries);
        match found {
            Some(i) => {
                proof {
                    lemma_index(before, i as int);
                }
                let mut previous = value;
                core::mem::swap(&mut entries[i].value, &mut previous);
                proof {
                    let after = entries@;
                    assert(forall|j: int| 0 <= j < after.len() ==> (#[trigger] after[j]).name@
                        == before[j].name@);
                    assert(distinct(after)) by {
                        assert forall|a: int, b: int| 0 <= a < b < after.len() implies (
                        #[trigger] after[a]).name@ != (#[trigger] after[b]).name@ by {
                            assert(before[a].name@ != before[b].name@);
                        }
                    }
                    assert forall|k: Seq<char>| holds(after, k) == holds(before, k) by {
                        if holds(before, k) {
                            let j = index_of(before, k);
                            assert(after[j].name@ == k);
                        }
                        if holds(after, k) {
                            let j = index_of(after, k);
                            assert(before[j].name@ == k);
                        }
                    }
                    assert forall|k: Seq<char>| holds(after, k) implies as_map(after)[k] == (if k
                        == name@ {
                        value
                    } else {
                        as_map(before)[k]
                    }) by {
                        let j = index_of(after, k);
                        lemma_index(after, j);
                        assert(before[j].name@ == k);
                        lemma_index(before, j);
                    }
                }
                self.entries = entries;
                assert(self@ =~= old(self)@.insert(name@, value));
                Some(previous)
            },
            None => {
                entries.push(Entry { name, value });
                proof {
                    let after = entries@;
                    let n = before.len() as int;
                    assert(after[n].name@ == name@);
                    assert(distinct(after)) by {
                        assert forall|a: int, b: int| 0 <= a < b < after.len() implies (
                        #[trigger] after[a]).name@ != (#[trigger] after[b]).name@ by {
                            if b == n {
                                assert(before[a].name@ != name@);
                            } else {
                                assert(before[a].name@ != before[b].name@);
                            }
                        }
                    }
                    assert forall|k: Seq<char>| holds(after, k) == (holds(before, k) || k == name@) by {
                        if holds(before, k) {
                            let j = index_of(before, k);
                            assert(after[j].name@ == k);
                        }
                        if holds(after, k) {
                            let j = index_of(after, k);
                            if j < n {
                                assert(before[j].name@ == k);
                            }
                        }
                    }
                    assert forall|k: Seq<char>| holds(after, k) implies as_map(after)[k] == (if k
                        == name@ {
                        value
                    } else {
                        as_map(before)[k]
                    }) by {
                        let j = index_of(after, k);
                        lemma_index(after, j);
                        if j < n {
                            assert(before[j].name@ == k);
                            lemma_index(before, j);
                        }
                    }
                }
                self.entries = entries;
                assert(self@ =~= old(self)@.insert(name@, value));
                None
            },
        }
    }

    /// Takes `name` out and hands back the value that it stood for, if
    /// any.
    pub fn remove(&mut self, name: &str) -> (r: Option<V>)
        ensures
            final(self)@ == old(self)@.remove(name@),
            match r {
                Some(v) => old(self)@.contains_key(name@) && old(self)@[name@] == v,
                None => !old(self)@.contains_key(name@),
            },
    {
        proof {
            use_type_invariant(&*self);
        }
        let ghost before = self.entries@;
        match self.position(name) {
            Some(i) => {
                proof {
                    lemma_index(before, i as int);
                }
                let mut entries: Vec<Entry<V>> = Vec::new();
                core::mem::swap(&mut self.entries, &mut entries);
                let e = entries.remove(i);
                proof {
                    let after = entries@;
                    assert(after =~= before.remove(i as int));
                    assert(distinct(after)) by {
                        assert forall|a: int, b: int| 0 <= a < b < after.len() implies (
                        #[trigger] after[a]).name@ != (#[trigger] after[b]).name@ by {
                            let pa = if a < i { a } else { a + 1 };
                            let pb = if b < i { b } else { b + 1 };
                            assert(before[pa].name@ != before[pb].name@);
                        }
                    }
                    assert forall|k: Seq<char>| holds(after, k) == (holds(before, k) && k != name@) by {
                        if holds(before, k) && k != name@ {
                            let j = index_of(before, k);
                            let q = if j < i { j } else { j - 1 };
                            assert(after[q].name@ == k);
                        }
                        if holds(after, k) {
                            let j = index_of(after, k);
                            let pj = if j < i { j } else { j + 1 };
                            assert(before[pj].name@ == k);
                            if k == name@ {
                                lemma_index(before, pj);
                            }
                        }
                    }
                    assert forall|k: Seq<char>| holds(after, k) implies as_map(after)[k] == as_map(
                        before,
                    )[k] by {
                        let j = index_of(after, k);
                        let pj = if j < i { j } else { j + 1 };
                        assert(before[pj].name@ == k);
                        lemma_index(before, pj);
                    }
                }
                self.entries = entries;
                assert(self@ =~= old(self)@.remove(name@));
                Some(e.value)
            },
            None => {
                assert(self@ =~= old(self)@.remove(name@));
                None
            },
        }
    }
}

} // verus!
