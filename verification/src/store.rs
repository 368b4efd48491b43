//! A store of values keyed by name, each name held at most once; storing
//! under a name already present replaces its value.

use vstd::prelude::*;
use vstd::pervasive::VecAdditionalExecFns;

verus! {

/// The map that a list of (name, value) pairs stands for; a later pair
/// for the same name replaces an earlier one.
pub open spec fn keyed_map<V>(e: Seq<(String, V)>) -> Map<Seq<char>, V>
    decreases e.len(),
{
    if e.len() == 0 {
        Map::empty()
    } else {
        keyed_map(e.drop_last()).insert(e.last().0@, e.last().1)
    }
}

/// No name occurs twice in the list.
pub open spec fn distinct_keys<V>(e: Seq<(String, V)>) -> bool {
    forall|i: int, j: int| 0 <= i < j < e.len() ==> (#[trigger] e[i]).0@ != (#[trigger] e[j]).0@
}

/// Values keyed by name.
pub struct KeyedStore<V> {
    entries: Vec<(String, V)>,
}

impl<V> View for KeyedStore<V> {
    type V = Map<Seq<char>, V>;

    closed spec fn view(&self) -> Map<Seq<char>, V> {
        keyed_map(self.entries@)
    }
}

proof fn lemma_keyed_map_update<V>(e: Seq<(String, V)>, i: int, k: String, v: V)
    requires
        distinct_keys(e),
        0 <= i < e.len(),
        e[i].0@ == k@,
    ensures
        keyed_map(e.update(i, (k, v))) == keyed_map(e).insert(k@, v),
    decreases e.len(),
{
    let u = e.update(i, (k, v));
    if i == e.len() - 1 {
        assert(u.drop_last() =~= e.drop_last());
        assert(keyed_map(u) =~= keyed_map(e).insert(k@, v));
    } else {
        let d = e.drop_last();
        assert(u.drop_last() =~= d.update(i, (k, v)));
        assert forall|a: int, b: int| 0 <= a < b < d.len() implies (#[trigger] d[a]).0@
            != (#[trigger] d[b]).0@ by {
            assert(d[a] == e[a] && d[b] == e[b]);
        }
        lemma_keyed_map_update(d, i, k, v);
        assert(e[e.len() - 1].0@ != k@);
        assert(keyed_map(u) =~= keyed_map(e).insert(k@, v));
    }
}

proof fn lemma_keyed_map_absent<V>(e: Seq<(String, V)>, k: Seq<char>)
    requires
        forall|i: int| 0 <= i < e.len() ==> (#[trigger] e[i]).0@ != k,
    ensures
        !keyed_map(e).contains_key(k),
    decreases e.len(),
{
    if e.len() > 0 {
        let d = e.drop_last();
        assert forall|i: int| 0 <= i < d.len() implies (#[trigger] d[i]).0@ != k by {
            assert(d[i] == e[i]);
        }
        lemma_keyed_map_absent(d, k);
        assert(e[e.len() - 1].0@ != k);
    }
}

proof fn lemma_keyed_map_at<V>(e: Seq<(String, V)>, i: int)
    requires
        distinct_keys(e),
        0 <= i < e.len(),
    ensures
        keyed_map(e).contains_key(e[i].0@),
        keyed_map(e)[e[i].0@] == e[i].1,
    decreases e.len(),
{
    let d = e.drop_last();
    if i < e.len() - 1 {
        assert forall|a: int, b: int| 0 <= a < b < d.len() implies (#[trigger] d[a]).0@
            != (#[trigger] d[b]).0@ by {
            assert(d[a] == e[a] && d[b] == e[b]);
        }
        assert(d[i] == e[i]);
        lemma_keyed_map_at(d, i);
        assert(e[e.len() - 1].0@ != e[i].0@);
    }
}

impl<V> KeyedStore<V> {
    #[verifier::type_invariant]
    spec fn wf(self) -> bool {
        distinct_keys(self.entries@)
    }

    /// An empty store.
    pub fn new() -> (s: KeyedStore<V>)
        ensures
            s@ == Map::<Seq<char>, V>::empty(),
    {
        KeyedStore { entries: Vec::new() }
    }

    fn find(&self, key: &String) -> (r: Option<usize>)
        ensures
            match r {
                Some(i) => i < self.entries@.len() && self.entries@[i as int].0@ == key@,
                None => forall|j: int|
                    0 <= j < self.entries@.len() ==> (#[trigger] self.entries@[j]).0@ != key@,
            },
    {
        let n = self.entries.len();
        let mut i: usize = 0;
        while i < n
            invariant
                n == self.entries@.len(),
                i <= n,
                forall|j: int| 0 <= j < i ==> (#[trigger] self.entries@[j]).0@ != key@,
            decreases n - i,
        {
            if self.entries[i].0 == *key {
                return Some(i);
            }
            i = i + 1;
        }
        None
    }

    /// The value stored under `key`.
    pub fn get(&self, key: &String) -> (r: Option<&V>)
        ensures
            match r {
                Some(v) => self@.contains_key(key@) && self@[key@] == *v,
                None => !self@.contains_key(key@),
            },
    {
        proof {
            use_type_invariant(self);
        }
        match self.find(key) {
            Some(i) => {
                proof {
                    lemma_keyed_map_at(self.entries@, i as int);
                }
                Some(&self.entries[i].1)
            },
            None => {
                proof {
                    lemma_keyed_map_absent(self.entries@, key@);
                }
                None
            },
        }
    }

    /// Stores `value` under `key`, replacing any value stored under it.
    pub fn insert(&mut self, key: String, value: V)
        ensures
            final(self)@ == old(self)@.insert(key@, value),
    {
        proof {
            use_type_invariant(&*self);
        }
        let found = self.find(&key);
        let mut entries: Vec<(String, V)> = Vec::new();
        std::mem::swap(&mut entries, &mut self.entries);
        let ghost e = entries@;
        match found {
            Some(i) => {
                entries.set(i, (key, value));
                proof {
                    lemma_keyed_map_update(e, i as int, key, value);
                    assert forall|a: int, b: int| 0 <= a < b < entries@.len() implies (
                    #[trigger] entries@[a]).0@ != (#[trigger] entries@[b]).0@ by {
                        if a != i && b != i {
                            assert(entries@[a] == e[a] && entries@[b] == e[b]);
                        } else if a == i {
                            assert(entries@[b] == e[b]);
                        } else {
                            assert(entries@[a] == e[a]);
                        }
                    }
                }
            },
            None => {
                entries.push((key, value));
                proof {
                    assert(entries@.drop_last() =~= e);
                    assert forall|a: int, b: int| 0 <= a < b < entries@.len() implies (
                    #[trigger] entries@[a]).0@ != (#[trigger] entries@[b]).0@ by {
                        if b < e.len() {
                            assert(entries@[a] == e[a] && entries@[b] == e[b]);
                        } else {
                            assert(entries@[a] == e[a]);
                        }
                    }
                }
            },
        }
        self.entries = entries;
    }

    /// Removes everything.
    pub fn clear(&mut self)
        ensures
            final(self)@ == Map::<Seq<char>, V>::empty(),
    {
        self.entries = Vec::new();
    }

    /// The stored (name, value) pairs, each name once, in the order in
    /// which the names were first stored.
    pub fn entries(&self) -> (e: &Vec<(String, V)>)
        ensures
            distinct_keys(e@),
            keyed_map(e@) == self@,
    {
        proof {
            use_type_invariant(self);
        }
        &self.entries
    }

    /// The number of names stored.
    pub fn len(&self) -> (n: usize)
        ensures
            n == self@.len(),
    {
        proof {
            use_type_invariant(self);
            lemma_keyed_map_len(self.entries@);
        }
        self.entries.len()
    }
}

proof fn lemma_keyed_map_len<V>(e: Seq<(String, V)>)
    requires
        distinct_keys(e),
    ensures
        keyed_map(e).dom().finite(),
        keyed_map(e).len() == e.len(),
    decreases e.len(),
{
    if e.len() > 0 {
        let d = e.drop_last();
        assert forall|a: int, b: int| 0 <= a < b < d.len() implies (#[trigger] d[a]).0@
            != (#[trigger] d[b]).0@ by {
            assert(d[a] == e[a] && d[b] == e[b]);
        }
        lemma_keyed_map_len(d);
        assert forall|i: int| 0 <= i < d.len() implies (#[trigger] d[i]).0@ != e.last().0@ by {
            assert(d[i] == e[i]);
        }
        lemma_keyed_map_absent(d, e.last().0@);
    }
}

} // verus!
