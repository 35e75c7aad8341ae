//! A small association table with string keys, the shared backbone of the
//! process registry (service id to pid) and the proxy route table (hostname
//! to port).  The table is modelled as a `Map<Seq<char>, V>`; the entries are
//! kept with pairwise distinct keys.

use vstd::prelude::*;

verus! {

/// One key/value pair of a [`Table`].
pub struct Entry<V> {
    pub key: String,
    pub val: V,
}

/// The map described by a sequence of entries; a later entry wins over an
/// earlier one with the same key.
pub open spec fn table_map<V>(s: Seq<Entry<V>>) -> Map<Seq<char>, V>
    decreases s.len(),
{
    if s.len() == 0 {
        Map::empty()
    } else {
        table_map(s.drop_last()).insert(s.last().key@, s.last().val)
    }
}

/// Pairwise distinct keys.
pub open spec fn distinct_keys<V>(s: Seq<Entry<V>>) -> bool {
    forall|i: int, j: int|
        #![trigger s[i], s[j]]
        0 <= i < j < s.len() ==> s[i].key@ != s[j].key@
}

/// In-memory association table from string keys to values.
pub struct Table<V> {
    entries: Vec<Entry<V>>,
}

impl<V> View for Table<V> {
    type V = Map<Seq<char>, V>;

    closed spec fn view(&self) -> Map<Seq<char>, V> {
        table_map(self.entries@)
    }
}

/// A key is in the map exactly when some entry carries it.
pub proof fn lemma_table_map_contains<V>(s: Seq<Entry<V>>, k: Seq<char>)
    ensures
        table_map(s).contains_key(k) <==> exists|i: int| 0 <= i < s.len() && s[i].key@ == k,
    decreases s.len(),
{
    if s.len() > 0 {
        lemma_table_map_contains(s.drop_last(), k);
        if s.last().key@ == k {
            assert(s[s.len() - 1].key@ == k);
        } else if table_map(s).contains_key(k) {
            let i = choose|i: int| 0 <= i < s.drop_last().len() && s.drop_last()[i].key@ == k;
            assert(s[i].key@ == k);
        } else {
            assert forall|i: int| 0 <= i < s.len() implies s[i].key@ != k by {
                if i < s.len() - 1 {
                    assert(s.drop_last()[i] == s[i]);
                }
            }
        }
    }
}

/// With distinct keys, the entry holding a key gives its value in the map.
pub proof fn lemma_table_map_get<V>(s: Seq<Entry<V>>, i: int)
    requires
        distinct_keys(s),
        0 <= i < s.len(),
    ensures
        table_map(s).contains_key(s[i].key@),
        table_map(s)[s[i].key@] == s[i].val,
    decreases s.len(),
{
    if i == s.len() - 1 {
        assert(table_map(s) == table_map(s.drop_last()).insert(s.last().key@, s.last().val));
    } else {
        assert(s.drop_last()[i] == s[i]);
        lemma_table_map_get(s.drop_last(), i);
        assert(s[i].key@ != s.last().key@);
    }
}

/// Appending an entry inserts its binding.
pub proof fn lemma_table_map_push<V>(s: Seq<Entry<V>>, e: Entry<V>)
    ensures
        table_map(s.push(e)) == table_map(s).insert(e.key@, e.val),
{
    assert(s.push(e).drop_last() =~= s);
    assert(s.push(e).last() == e);
}

/// Removing the entry that holds a key removes its binding.
pub proof fn lemma_table_map_remove<V>(s: Seq<Entry<V>>, i: int)
    requires
        distinct_keys(s),
        0 <= i < s.len(),
    ensures
        table_map(s.remove(i)) == table_map(s).remove(s[i].key@),
    decreases s.len(),
{
    let k = s[i].key@;
    if i == s.len() - 1 {
        assert(s.remove(i) =~= s.drop_last());
        lemma_table_map_contains(s.drop_last(), k);
        assert forall|j: int| 0 <= j < s.drop_last().len() implies s.drop_last()[j].key@ != k by {
            assert(s.drop_last()[j] == s[j]);
        }
        assert(!table_map(s.drop_last()).contains_key(k));
        assert(table_map(s.drop_last()).remove(k) =~= table_map(s.drop_last()));
        assert(table_map(s).remove(k) =~= table_map(s.drop_last()));
    } else {
        let t = s.remove(i);
        assert(t.len() == s.len() - 1);
        assert(t.last() == s[s.len() - 1]);
        assert(t.drop_last() =~= s.drop_last().remove(i));
        assert forall|a: int, b: int|
            #![trigger s.drop_last()[a], s.drop_last()[b]]
            0 <= a < b < s.drop_last().len() implies s.drop_last()[a].key@
            != s.drop_last()[b].key@ by {
            assert(s.drop_last()[a] == s[a]);
            assert(s.drop_last()[b] == s[b]);
        }
        lemma_table_map_remove(s.drop_last(), i);
        assert(s.drop_last()[i] == s[i]);
        assert(s.last().key@ != k);
        assert(table_map(t) == table_map(s.drop_last()).remove(k).insert(
            s.last().key@,
            s.last().val,
        ));
        assert(table_map(s.drop_last()).remove(k).insert(s.last().key@, s.last().val)
            =~= table_map(s.drop_last()).insert(s.last().key@, s.last().val).remove(k));
    }
}

impl<V> Table<V> {
    /// The entries carry pairwise distinct keys.
    pub closed spec fn wf(&self) -> bool {
        distinct_keys(self.entries@)
    }

    /// An empty table.
    pub fn new() -> (t: Table<V>)
        ensures
            t.wf(),
            t@ == Map::<Seq<char>, V>::empty(),
    {
        Table { entries: Vec::new() }
    }

    /// Index of the first entry holding `k`, if any.
    fn index_of(&self, k: &String) -> (r: Option<usize>)
        ensures
            match r {
                Some(i) => i < self.entries@.len() && self.entries@[i as int].key@ == k@,
                None => forall|i: int|
                    #![trigger self.entries@[i]]
                    0 <= i < self.entries@.len() ==> self.entries@[i].key@ != k@,
            },
    {
        let n = self.entries.len();
        let mut i: usize = 0;
        while i < n
            invariant
                n == self.entries@.len(),
                i <= n,
                forall|j: int| #![trigger self.entries@[j]] 0 <= j < i ==> self.entries@[j].key@ != k@,
            decreases n - i,
        {
            if self.entries[i].key == *k {
                return Some(i);
            }
            i = i + 1;
        }
        None
    }

    /// Whether the table holds a binding for `k`.
    pub fn contains_key(&self, k: &String) -> (b: bool)
        ensures
            b == self@.contains_key(k@),
    {
        proof {
            lemma_table_map_contains(self.entries@, k@);
        }
        self.index_of(k).is_some()
    }

    /// Insert or overwrite the binding for `k`.
    pub fn insert(&mut self, k: String, v: V)
        requires
            old(self).wf(),
        ensures
            final(self).wf(),
            final(self)@ == old(self)@.insert(k@, v),
    {
        let ghost s0 = self.entries@;
        let existing = self.index_of(&k);
        match existing {
            Some(i) => {
                proof {
                    lemma_table_map_remove(s0, i as int);
                }
                self.entries.remove(i);
                proof {
                    assert forall|a: int, b: int|
                        #![trigger self.entries@[a], self.entries@[b]]
                        0 <= a < b < self.entries@.len() implies self.entries@[a].key@
                        != self.entries@[b].key@ by {
                        if b < i {
                            assert(self.entries@[a] == s0[a]);
                            assert(self.entries@[b] == s0[b]);
                        } else if a < i {
                            assert(self.entries@[a] == s0[a]);
                            assert(self.entries@[b] == s0[b + 1]);
                        } else {
                            assert(self.entries@[a] == s0[a + 1]);
                            assert(self.entries@[b] == s0[b + 1]);
                        }
                    }
                    lemma_table_map_contains(self.entries@, k@);
                }
            },
            None => {
                proof {
                    lemma_table_map_contains(s0, k@);
                    assert(old(self)@.remove(k@) =~= old(self)@);
                }
            },
        }
        let ghost s1 = self.entries@;
        proof {
            assert(!table_map(s1).contains_key(k@)) by {
                lemma_table_map_contains(s1, k@);
            }
        }
        let entry = Entry { key: k, val: v };
        proof {
            lemma_table_map_push(s1, entry);
        }
        self.entries.push(entry);
        proof {
            assert forall|a: int, b: int|
                #![trigger self.entries@[a], self.entries@[b]]
                0 <= a < b < self.entries@.len() implies self.entries@[a].key@
                != self.entries@[b].key@ by {
                if b < self.entries@.len() - 1 {
                    assert(self.entries@[a] == s1[a]);
                    assert(self.entries@[b] == s1[b]);
                } else {
                    assert(self.entries@[a] == s1[a]);
                    lemma_table_map_contains(s1, s1[a].key@);
                }
            }
            assert(table_map(s1).insert(k@, v) =~= old(self)@.insert(k@, v));
        }
    }

    /// Remove the binding for `k`; returns nothing when `k` is absent.
    pub fn remove(&mut self, k: &String) -> (r: Option<V>)
        where
            V: Copy,
        requires
            old(self).wf(),
        ensures
            final(self).wf(),
            old(self)@.contains_key(k@) ==> r == Some(old(self)@[k@]) && final(self)@ == old(
                self,
            )@.remove(k@),
            !old(self)@.contains_key(k@) ==> r == None::<V> && final(self)@ == old(self)@,
    {
        let ghost s0 = self.entries@;
        proof {
            lemma_table_map_contains(s0, k@);
        }
        match self.index_of(k) {
            Some(i) => {
                let v = self.entries[i].val;
                proof {
                    lemma_table_map_get(s0, i as int);
                    lemma_table_map_remove(s0, i as int);
                }
                self.entries.remove(i);
                proof {
                    assert forall|a: int, b: int|
                        #![trigger self.entries@[a], self.entries@[b]]
                        0 <= a < b < self.entries@.len() implies self.entries@[a].key@
                        != self.entries@[b].key@ by {
                        if b < i {
                            assert(self.entries@[a] == s0[a]);
                            assert(self.entries@[b] == s0[b]);
                        } else if a < i {
                            assert(self.entries@[a] == s0[a]);
                            assert(self.entries@[b] == s0[b + 1]);
                        } else {
                            assert(self.entries@[a] == s0[a + 1]);
                            assert(self.entries@[b] == s0[b + 1]);
                        }
                    }
                }
                Some(v)
            },
            None => None,
        }
    }

    /// Value bound to `k`, if any.
    pub fn get(&self, k: &String) -> (r: Option<V>)
        where
            V: Copy,
        requires
            self.wf(),
        ensures
            self@.contains_key(k@) ==> r == Some(self@[k@]),
            !self@.contains_key(k@) ==> r == None::<V>,
    {
        proof {
            lemma_table_map_contains(self.entries@, k@);
        }
        match self.index_of(k) {
            Some(i) => {
                proof {
                    lemma_table_map_get(self.entries@, i as int);
                }
                Some(self.entries[i].val)
            },
            None => None,
        }
    }

    /// Empty the table, handing every entry out.
    pub fn drain(&mut self) -> (out: Vec<Entry<V>>)
        requires
            old(self).wf(),
        ensures
            final(self).wf(),
            final(self)@ == Map::<Seq<char>, V>::empty(),
            distinct_keys(out@),
            table_map(out@) == old(self)@,
    {
        let mut out: Vec<Entry<V>> = Vec::new();
        core::mem::swap(&mut out, &mut self.entries);
        out
    }
}

} // verus!
