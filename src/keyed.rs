use vstd::prelude::*;

verus! {

/// The value that the last entry with key `k` holds, if any.
pub open spec fn lookup_entries<V>(s: Seq<(String, V)>, k: Seq<char>) -> Option<V>
    decreases s.len(),
{
    if s.len() == 0 {
        None
    } else if s.last().0@ == k {
        Some(s.last().1)
    } else {
        lookup_entries(s.drop_last(), k)
    }
}

proof fn lemma_lookup_prefix<V>(s: Seq<(String, V)>, k: Seq<char>, i: int)
    requires
        0 <= i <= s.len(),
        forall|j: int| i <= j < s.len() ==> s[j].0@ != k,
    ensures
        lookup_entries(s, k) == lookup_entries(s.subrange(0, i), k),
    decreases s.len(),
{
    if i < s.len() {
        assert(s.drop_last().subrange(0, i) =~= s.subrange(0, i));
        lemma_lookup_prefix(s.drop_last(), k, i);
    } else {
        assert(s.subrange(0, i) =~= s);
    }
}

proof fn lemma_lookup_update<V>(s: Seq<(String, V)>, i: int, e: (String, V))
    requires
        0 <= i < s.len(),
        s[i].0@ == e.0@,
        forall|j: int| i < j < s.len() ==> s[j].0@ != e.0@,
    ensures
        forall|k: Seq<char>|
            #[trigger] lookup_entries(s.update(i, e), k) == if k == e.0@ {
                Some(e.1)
            } else {
                lookup_entries(s, k)
            },
    decreases s.len(),
{
    let t = s.update(i, e);
    assert(t.len() == s.len());
    if i == s.len() - 1 {
        assert(t.drop_last() =~= s.drop_last());
        assert(t.last() == e);
        assert forall|k: Seq<char>| #[trigger]
            lookup_entries(t, k) == if k == e.0@ {
                Some(e.1)
            } else {
                lookup_entries(s, k)
            } by {}
    } else {
        assert(t.drop_last() =~= s.drop_last().update(i, e));
        assert(t.last() == s.last());
        lemma_lookup_update(s.drop_last(), i, e);
        assert forall|k: Seq<char>| #[trigger]
            lookup_entries(t, k) == if k == e.0@ {
                Some(e.1)
            } else {
                lookup_entries(s, k)
            } by {
            assert(lookup_entries(t.drop_last(), k) == lookup_entries(
                s.drop_last().update(i, e),
                k,
            ));
        }
    }
}

proof fn lemma_lookup_push<V>(s: Seq<(String, V)>, e: (String, V))
    ensures
        forall|k: Seq<char>|
            #[trigger] lookup_entries(s.push(e), k) == if k == e.0@ {
                Some(e.1)
            } else {
                lookup_entries(s, k)
            },
{
    assert(s.push(e).drop_last() =~= s);
}

/// A small table from string keys to values; a later insert under a key replaces
/// the earlier value.
#[derive(Debug, Clone)]
pub struct KeyedTable<V> {
    entries: Vec<(String, V)>,
}

impl<V> View for KeyedTable<V> {
    type V = Map<Seq<char>, V>;

    closed spec fn view(&self) -> Map<Seq<char>, V> {
        Map::new(
            |k: Seq<char>| lookup_entries(self.entries@, k) is Some,
            |k: Seq<char>| lookup_entries(self.entries@, k)->0,
        )
    }
}

impl<V: Copy> KeyedTable<V> {
    /// The value under `k`, if any.
    pub closed spec fn lookup(&self, k: Seq<char>) -> Option<V> {
        lookup_entries(self.entries@, k)
    }

    pub broadcast proof fn lemma_view_lookup(&self, k: Seq<char>)
        ensures
            #[trigger] self@.dom().contains(k) == self.lookup(k) is Some,
            self.lookup(k) is Some ==> self@[k] == self.lookup(k)->0,
    {
    }

    pub fn new() -> (r: KeyedTable<V>)
        ensures
            forall|k: Seq<char>| #[trigger] r.lookup(k) is None,
            r@ == Map::<Seq<char>, V>::empty(),
    {
        let r = KeyedTable { entries: Vec::new() };
        assert(r@ =~= Map::<Seq<char>, V>::empty());
        r
    }

    /// Index of the last entry with key `k`, if any.
    fn find(&self, k: &String) -> (r: Option<usize>)
        ensures
            match r {
                Some(i) => {
                    &&& i < self.entries@.len()
                    &&& self.entries@[i as int].0@ == k@
                    &&& forall|j: int| i < j < self.entries@.len() ==> self.entries@[j].0@ != k@
                },
                None => forall|j: int| 0 <= j < self.entries@.len() ==> self.entries@[j].0@ != k@,
            },
    {
        let mut i: usize = self.entries.len();
        while i > 0
            invariant
                i <= self.entries@.len(),
                forall|j: int| i <= j < self.entries@.len() ==> self.entries@[j].0@ != k@,
            decreases i,
        {
            if self.entries[i - 1].0 == *k {
                return Some(i - 1);
            }
            i = i - 1;
        }
        None
    }

    /// The value under `key`, if any.
    pub fn get(&self, key: &str) -> (r: Option<V>)
        ensures
            r == self.lookup(key@),
            r == (if self@.dom().contains(key@) {
                Some(self@[key@])
            } else {
                None
            }),
    {
        let k = key.to_owned();
        match self.find(&k) {
            Some(i) => {
                proof {
                    lemma_lookup_prefix(self.entries@, key@, i + 1);
                    assert(self.entries@.subrange(0, i + 1).drop_last() =~= self.entries@.subrange(
                        0,
                        i as int,
                    ));
                }
                Some(self.entries[i].1)
            },
            None => {
                proof {
                    lemma_lookup_prefix(self.entries@, key@, 0);
                }
                None
            },
        }
    }

    /// Whether a value is stored under `key`.
    pub fn contains_key(&self, key: &str) -> (r: bool)
        ensures
            r == self.lookup(key@) is Some,
    {
        self.get(key).is_some()
    }

    /// Stores `value` under `key`, replacing any earlier value.
    pub fn insert(&mut self, key: &str, value: V)
        ensures
            forall|k: Seq<char>|
                #[trigger] final(self).lookup(k) == if k == key@ {
                    Some(value)
                } else {
                    old(self).lookup(k)
                },
            final(self)@ == old(self)@.insert(key@, value),
    {
        let k = key.to_owned();
        match self.find(&k) {
            Some(i) => {
                proof {
                    lemma_lookup_update(self.entries@, i as int, (k, value));
                }
                self.entries.set(i, (k, value));
                assert(self@ =~= old(self)@.insert(key@, value));
            },
            None => {
                proof {
                    lemma_lookup_push(self.entries@, (k, value));
                }
                self.entries.push((k, value));
                assert(self@ =~= old(self)@.insert(key@, value));
            },
        }
    }
}

} // verus!
