use vstd::prelude::*;

use crate::types::{AccountId, CurrencyId, DataSourceEnum};

verus! {

/// Keys of a [`Table`]: values whose executable equality is spec equality.
pub trait TableKey: Sized {
    fn same(&self, other: &Self) -> (r: bool)
        ensures
            r == (*self == *other),
    ;
}

impl TableKey for CurrencyId {
    fn same(&self, other: &Self) -> (r: bool) {
        *self == *other
    }
}

impl TableKey for (CurrencyId, DataSourceEnum) {
    fn same(&self, other: &Self) -> (r: bool) {
        self.0 == other.0 && self.1 == other.1
    }
}

impl TableKey for (AccountId, DataSourceEnum, CurrencyId) {
    fn same(&self, other: &Self) -> (r: bool) {
        self.0 == other.0 && self.1 == other.1 && self.2 == other.2
    }
}

/// A finite map from keys to values, kept as a list of entries with distinct keys.
pub struct Table<K, V> {
    entries: Vec<(K, V)>,
}

/// The map that a list of entries denotes; a later entry for a key wins.
pub open spec fn entries_map<K, V: View>(s: Seq<(K, V)>) -> Map<K, V::V>
    decreases s.len(),
{
    if s.len() == 0 {
        Map::empty()
    } else {
        entries_map(s.drop_last()).insert(s.last().0, s.last().1@)
    }
}

/// No key occurs twice among the entries.
pub open spec fn keys_distinct<K, V>(s: Seq<(K, V)>) -> bool {
    forall|i: int, j: int| 0 <= i < j < s.len() ==> s[i].0 != s[j].0
}

proof fn lemma_entries_map_dom<K, V: View>(s: Seq<(K, V)>, k: K)
    ensures
        entries_map(s).dom().contains(k) <==> exists|i: int| 0 <= i < s.len() && s[i].0 == k,
    decreases s.len(),
{
    if s.len() > 0 {
        lemma_entries_map_dom(s.drop_last(), k);
        if entries_map(s.drop_last()).dom().contains(k) {
            let i = choose|i: int| 0 <= i < s.drop_last().len() && s.drop_last()[i].0 == k;
            assert(s[i].0 == k);
        }
        if exists|i: int| 0 <= i < s.len() && s[i].0 == k {
            let i = choose|i: int| 0 <= i < s.len() && s[i].0 == k;
            if i < s.len() - 1 {
                assert(s.drop_last()[i].0 == k);
            }
        }
    }
}

proof fn lemma_entries_map_index<K, V: View>(s: Seq<(K, V)>, i: int)
    requires
        keys_distinct(s),
        0 <= i < s.len(),
    ensures
        entries_map(s).dom().contains(s[i].0),
        entries_map(s)[s[i].0] == s[i].1@,
    decreases s.len(),
{
    if i < s.len() - 1 {
        lemma_entries_map_index(s.drop_last(), i);
        assert(s.drop_last()[i] == s[i]);
        assert(s.last().0 != s[i].0);
    }
}

proof fn lemma_entries_map_update<K, V: View>(s: Seq<(K, V)>, i: int, v: V)
    requires
        keys_distinct(s),
        0 <= i < s.len(),
    ensures
        keys_distinct(s.update(i, (s[i].0, v))),
        entries_map(s.update(i, (s[i].0, v))) == entries_map(s).insert(s[i].0, v@),
    decreases s.len(),
{
    let t = s.update(i, (s[i].0, v));
    assert forall|a: int, b: int| 0 <= a < b < t.len() implies t[a].0 != t[b].0 by {
        assert(t[a].0 == s[a].0);
        assert(t[b].0 == s[b].0);
    }
    if i == s.len() - 1 {
        assert(t.drop_last() == s.drop_last());
    } else {
        let d = s.drop_last();
        lemma_entries_map_update(d, i, v);
        assert(t.drop_last() == d.update(i, (d[i].0, v)));
        lemma_entries_map_dom(d, s.last().0);
        assert(s.last().0 != s[i].0);
        assert(entries_map(t) == entries_map(s).insert(s[i].0, v@));
    }
}

proof fn lemma_entries_map_remove<K, V: View>(s: Seq<(K, V)>, i: int)
    requires
        keys_distinct(s),
        0 <= i < s.len(),
    ensures
        keys_distinct(s.remove(i)),
        entries_map(s.remove(i)) == entries_map(s).remove(s[i].0),
    decreases s.len(),
{
    let t = s.remove(i);
    assert forall|a: int, b: int| 0 <= a < b < t.len() implies t[a].0 != t[b].0 by {
        if a < i {
            assert(t[a] == s[a]);
        } else {
            assert(t[a] == s[a + 1]);
        }
        if b < i {
            assert(t[b] == s[b]);
        } else {
            assert(t[b] == s[b + 1]);
        }
    }
    let d = s.drop_last();
    if i == s.len() - 1 {
        assert(t == d);
        lemma_entries_map_dom(d, s[i].0);
        assert(entries_map(t) == entries_map(s).remove(s[i].0));
    } else {
        lemma_entries_map_remove(d, i);
        assert(t.drop_last() == d.remove(i));
        assert(t.last() == s.last());
        assert(s.last().0 != s[i].0);
        assert(entries_map(t) == entries_map(s).remove(s[i].0));
    }
}

impl<K, V: View> View for Table<K, V> {
    type V = Map<K, V::V>;

    closed spec fn view(&self) -> Map<K, V::V> {
        entries_map(self.entries@)
    }
}

impl<K, V> Table<K, V> {
    /// The entries have distinct keys.
    #[verifier::type_invariant]
    closed spec fn wf(&self) -> bool {
        keys_distinct(self.entries@)
    }
}

impl<K: TableKey, V: View> Table<K, V> {

    /// The empty table.
    pub fn new() -> (t: Self)
        ensures
            t@ == Map::<K, V::V>::empty(),
    {
        Table { entries: Vec::new() }
    }

    fn find(&self, k: &K) -> (r: Option<usize>)
        ensures
            match r {
                Some(i) => i < self.entries@.len() && self.entries@[i as int].0 == *k,
                None => !self@.dom().contains(*k),
            },
    {
        proof {
            use_type_invariant(self);
        }
        let mut i: usize = 0;
        while i < self.entries.len()
            invariant
                i <= self.entries@.len(),
                forall|j: int| 0 <= j < i ==> self.entries@[j].0 != *k,
            decreases self.entries@.len() - i,
        {
            if self.entries[i].0.same(k) {
                return Some(i);
            }
            i = i + 1;
        }
        proof {
            lemma_entries_map_dom(self.entries@, *k);
        }
        None
    }

    /// The value stored under `k`, if any.
    pub fn get(&self, k: &K) -> (r: Option<&V>)
        ensures
            match r {
                Some(v) => self@.dom().contains(*k) && v@ == self@[*k],
                None => !self@.dom().contains(*k),
            },
    {
        proof {
            use_type_invariant(self);
        }
        match self.find(k) {
            Some(i) => {
                proof {
                    lemma_entries_map_index(self.entries@, i as int);
                }
                Some(&self.entries[i].1)
            },
            None => None,
        }
    }

    /// Stores `v` under `k`, replacing any earlier value.
    pub fn insert(&mut self, k: K, v: V)
        ensures
            final(self)@ == old(self)@.insert(k, v@),
    {
        proof {
            use_type_invariant(&*self);
        }
        let found = self.find(&k);
        let mut entries: Vec<(K, V)> = Vec::new();
        std::mem::swap(&mut entries, &mut self.entries);
        let ghost s = entries@;
        match found {
            Some(i) => {
                proof {
                    lemma_entries_map_update(s, i as int, v);
                }
                entries.set(i, (k, v));
            },
            None => {
                proof {
                    lemma_entries_map_dom(s, k);
                }
                entries.push((k, v));
                proof {
                    let t = entries@;
                    assert(t.drop_last() == s);
                    assert forall|a: int, b: int| 0 <= a < b < t.len() implies t[a].0 != t[b].0 by {
                        if b == t.len() - 1 {
                            assert(s[a].0 == t[a].0);
                        }
                    }
                }
            },
        }
        self.entries = entries;
    }

    /// Removes the value stored under `k` and hands it back.
    pub fn remove(&mut self, k: &K) -> (r: Option<V>)
        ensures
            final(self)@ == old(self)@.remove(*k),
            match r {
                Some(v) => old(self)@.dom().contains(*k) && v@ == old(self)@[*k],
                None => !old(self)@.dom().contains(*k),
            },
    {
        proof {
            use_type_invariant(&*self);
        }
        match self.find(k) {
            Some(i) => {
                let mut entries: Vec<(K, V)> = Vec::new();
                std::mem::swap(&mut entries, &mut self.entries);
                proof {
                    lemma_entries_map_index(entries@, i as int);
                    lemma_entries_map_remove(entries@, i as int);
                }
                let (_, v) = entries.remove(i);
                self.entries = entries;
                Some(v)
            },
            None => {
                assert(old(self)@.remove(*k) == old(self)@);
                None
            },
        }
    }
}

} // verus!
