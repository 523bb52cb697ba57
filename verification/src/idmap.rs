//! A small association map from `u64` identifiers to values, with a
//! mathematical `Map` view. Identifiers in this crate are opaque and unique
//! within a session, so a flat list with unique keys models every registry
//! the controller owns.

use vstd::prelude::*;

verus! {

broadcast use vstd::seq::group_seq_axioms, vstd::std_specs::vec::group_vec_axioms;

/// The map denoted by an association list; later entries win, though a
/// well-formed list never repeats a key.
pub open spec fn map_of<V>(s: Seq<(u64, V)>) -> Map<u64, V>
    decreases s,
{
    if s.len() == 0 {
        Map::empty()
    } else {
        map_of(s.drop_last()).insert(s.last().0, s.last().1)
    }
}

/// No key occurs twice.
pub open spec fn keys_unique<V>(s: Seq<(u64, V)>) -> bool {
    forall|i: int, j: int| 0 <= i < j < s.len() ==> (#[trigger] s[i]).0 != (#[trigger] s[j]).0
}

proof fn lemma_map_of_dom<V>(s: Seq<(u64, V)>, k: u64)
    ensures
        map_of(s).dom().contains(k) <==> exists|i: int| 0 <= i < s.len() && (#[trigger] s[i]).0 == k,
    decreases s,
{
    if s.len() > 0 {
        lemma_map_of_dom(s.drop_last(), k);
        if map_of(s).dom().contains(k) && s.last().0 != k {
            let i = choose|i: int| 0 <= i < s.drop_last().len() && (#[trigger] s.drop_last()[i]).0 == k;
            assert(s[i].0 == k);
        }
        if exists|i: int| 0 <= i < s.len() && (#[trigger] s[i]).0 == k {
            let i = choose|i: int| 0 <= i < s.len() && (#[trigger] s[i]).0 == k;
            if i < s.len() - 1 {
                assert(s.drop_last()[i].0 == k);
            }
        }
    }
}

proof fn lemma_map_of_at<V>(s: Seq<(u64, V)>, i: int)
    requires
        keys_unique(s),
        0 <= i < s.len(),
    ensures
        map_of(s).dom().contains(s[i].0),
        map_of(s)[s[i].0] == s[i].1,
    decreases s,
{
    if i == s.len() - 1 {
        lemma_map_of_dom(s, s[i].0);
    } else {
        lemma_map_of_at(s.drop_last(), i);
        assert(s.drop_last()[i] == s[i]);
        assert(s.last().0 != s[i].0);
    }
}

/// A registry keyed by opaque identifiers.
#[derive(Debug)]
pub struct IdMap<V> {
    entries: Vec<(u64, V)>,
}

impl<V> View for IdMap<V> {
    type V = Map<u64, V>;

    closed spec fn view(&self) -> Map<u64, V> {
        map_of(self.entries@)
    }
}

impl<V> IdMap<V> {
    pub closed spec fn wf(&self) -> bool {
        keys_unique(self.entries@)
    }

    /// The entries in insertion order; the same association as the map view.
    pub closed spec fn entries_spec(&self) -> Seq<(u64, V)> {
        self.entries@
    }

    pub proof fn lemma_entries_view(&self)
        requires
            self.wf(),
        ensures
            forall|i: int|
                0 <= i < self.entries_spec().len() ==> self@.dom().contains(
                    (#[trigger] self.entries_spec()[i]).0,
                ) && self@[self.entries_spec()[i].0] == self.entries_spec()[i].1,
            forall|k: u64|
                self@.dom().contains(k) ==> exists|i: int|
                    0 <= i < self.entries_spec().len() && (#[trigger] self.entries_spec()[i]).0
                        == k,
    {
        assert forall|i: int| 0 <= i < self.entries_spec().len() implies self@.dom().contains(
            (#[trigger] self.entries_spec()[i]).0,
        ) && self@[self.entries_spec()[i].0] == self.entries_spec()[i].1 by {
            lemma_map_of_at(self.entries@, i);
        }
        assert forall|k: u64| self@.dom().contains(k) implies exists|i: int|
            0 <= i < self.entries_spec().len() && (#[trigger] self.entries_spec()[i]).0 == k by {
            lemma_map_of_dom(self.entries@, k);
            let i = choose|i: int| 0 <= i < self.entries@.len() && (#[trigger] self.entries@[i]).0
                == k;
            assert((self.entries_spec()[i]).0 == k);
        }
    }

    pub fn new() -> (m: IdMap<V>)
        ensures
            m.wf(),
            m@ == Map::<u64, V>::empty(),
            m.entries_spec().len() == 0,
    {
        IdMap { entries: Vec::new() }
    }

    /// How many entries the registry holds.
    pub fn len(&self) -> (n: usize)
        ensures
            n == self.entries_spec().len(),
            self.wf() ==> (n == 0 <==> self@ == Map::<u64, V>::empty()),
    {
        proof {
            if self.entries@.len() > 0 {
                lemma_map_of_dom(self.entries@, self.entries@[0].0);
                assert(self@.dom().contains(self.entries@[0].0));
                assert(self@ != Map::<u64, V>::empty());
            } else {
                assert(self@ =~= Map::<u64, V>::empty());
            }
        }
        self.entries.len()
    }

    /// The key of the entry at a position.
    pub fn key_at(&self, i: usize) -> (k: u64)
        requires
            self.wf(),
            i < self.entries_spec().len(),
        ensures
            k == self.entries_spec()[i as int].0,
            self@.dom().contains(k),
            self@[k] == self.entries_spec()[i as int].1,
    {
        proof {
            lemma_map_of_at(self.entries@, i as int);
        }
        self.entries[i].0
    }

    /// The value of the entry at a position.
    pub fn value_at(&self, i: usize) -> (v: &V)
        requires
            self.wf(),
            i < self.entries_spec().len(),
        ensures
            *v == self.entries_spec()[i as int].1,
            *v == self@[self.entries_spec()[i as int].0],
    {
        proof {
            lemma_map_of_at(self.entries@, i as int);
        }
        &self.entries[i].1
    }

    fn find(&self, k: u64) -> (r: Option<usize>)
        requires
            self.wf(),
        ensures
            match r {
                Option::Some(i) => i < self.entries_spec().len() && self.entries_spec()[
                    i as int
                ].0 == k && self@.dom().contains(k) && self@[k] == self.entries_spec()[i as int].1,
                Option::None => !self@.dom().contains(k),
            },
    {
        let n = self.entries.len();
        let mut i: usize = 0;
        while i < n
            invariant
                self.wf(),
                n == self.entries@.len(),
                i <= n,
                forall|j: int| 0 <= j < i ==> (#[trigger] self.entries@[j]).0 != k,
            decreases n - i,
        {
            if self.entries[i].0 == k {
                proof {
                    lemma_map_of_at(self.entries@, i as int);
                }
                return Option::Some(i);
            }
            i += 1;
        }
        proof {
            lemma_map_of_dom(self.entries@, k);
        }
        Option::None
    }

    pub fn contains_key(&self, k: u64) -> (b: bool)
        requires
            self.wf(),
        ensures
            b == self@.dom().contains(k),
    {
        match self.find(k) {
            Option::Some(_) => true,
            Option::None => false,
        }
    }

    pub fn get(&self, k: u64) -> (r: Option<&V>)
        requires
            self.wf(),
        ensures
            match r {
                Option::Some(v) => self@.dom().contains(k) && *v == self@[k],
                Option::None => !self@.dom().contains(k),
            },
    {
        match self.find(k) {
            Option::Some(i) => Option::Some(&self.entries[i].1),
            Option::None => Option::None,
        }
    }

    /// A mutable borrow of the value under a key that is present.
    pub fn get_mut(&mut self, k: u64) -> (v: &mut V)
        requires
            old(self).wf(),
            old(self)@.dom().contains(k),
        ensures
            *v == old(self)@[k],
            final(self).wf(),
            final(self)@ == old(self)@.insert(k, *final(v)),
            final(self).entries_spec().len() == old(self).entries_spec().len(),
    {
        let i = match self.find(k) {
            Option::Some(i) => i,
            Option::None => {
                proof {
                    assert(false);
                }
                0
            },
        };
        let ghost old_entries = self.entries@;
        let entry = &mut self.entries[i].1;
        proof {
            let fin = old_entries.update(i as int, (k, *final(entry)));
            assert(keys_unique(fin));
            lemma_map_of_update(old_entries, i as int, *final(entry));
        }
        entry
    }

    /// Inserts or replaces the value under a key.
    pub fn insert(&mut self, k: u64, v: V)
        requires
            old(self).wf(),
        ensures
            final(self).wf(),
            final(self)@ == old(self)@.insert(k, v),
    {
        match self.find(k) {
            Option::Some(i) => {
                let ghost old_entries = self.entries@;
                self.entries.remove(i);
                self.entries.insert(i, (k, v));
                proof {
                    assert(self.entries@ =~= old_entries.update(i as int, (k, v)));
                    lemma_map_of_update(old_entries, i as int, v);
                }
            },
            Option::None => {
                proof {
                    lemma_map_of_dom(self.entries@, k);
                }
                self.entries.push((k, v));
                proof {
                    assert(self.entries@.drop_last() =~= old(self).entries_spec());
                    assert(forall|j: int|
                        0 <= j < old(self).entries_spec().len() ==> (#[trigger] old(
                            self,
                        ).entries_spec()[j]).0 != k);
                }
            },
        }
    }

    /// Removes the entry under a key, if present.
    pub fn remove(&mut self, k: u64)
        requires
            old(self).wf(),
        ensures
            final(self).wf(),
            final(self)@ == old(self)@.remove(k),
    {
        match self.find(k) {
            Option::Some(i) => {
                let ghost old_entries = self.entries@;
                self.entries.remove(i);
                proof {
                    lemma_map_of_remove(old_entries, i as int);
                    assert(self.entries@ =~= old_entries.remove(i as int));
                }
            },
            Option::None => {
                proof {
                    assert(old(self)@.remove(k) =~= old(self)@);
                }
            },
        }
    }
}

proof fn lemma_map_of_update<V>(s: Seq<(u64, V)>, i: int, v: V)
    requires
        keys_unique(s),
        0 <= i < s.len(),
    ensures
        keys_unique(s.update(i, (s[i].0, v))),
        map_of(s.update(i, (s[i].0, v))) == map_of(s).insert(s[i].0, v),
    decreases s,
{
    let k = s[i].0;
    let t = s.update(i, (k, v));
    assert(keys_unique(t));
    if i == s.len() - 1 {
        assert(t.drop_last() =~= s.drop_last());
        assert(t.last() == (k, v));
        assert(map_of(t) =~= map_of(s).insert(k, v));
    } else {
        lemma_map_of_update(s.drop_last(), i, v);
        assert(t.drop_last() =~= s.drop_last().update(i, (k, v)));
        assert(t.last() == s.last());
        assert(map_of(t) == map_of(s.drop_last()).insert(k, v).insert(s.last().0, s.last().1));
        assert(s.last().0 != k);
        assert(map_of(s.drop_last()).insert(k, v).insert(s.last().0, s.last().1) =~= map_of(
            s.drop_last(),
        ).insert(s.last().0, s.last().1).insert(k, v));
    }
}

proof fn lemma_map_of_remove<V>(s: Seq<(u64, V)>, i: int)
    requires
        keys_unique(s),
        0 <= i < s.len(),
    ensures
        keys_unique(s.remove(i)),
        map_of(s.remove(i)) == map_of(s).remove(s[i].0),
    decreases s,
{
    let k = s[i].0;
    let t = s.remove(i);
    assert(keys_unique(t)) by {
        assert(forall|j: int| 0 <= j < i ==> t[j] == s[j]);
        assert(forall|j: int| i <= j < t.len() ==> t[j] == s[j + 1]);
    }
    if i == s.len() - 1 {
        assert(t =~= s.drop_last());
        lemma_map_of_dom(s.drop_last(), k);
        assert(!map_of(s.drop_last()).dom().contains(k));
        assert(map_of(t) =~= map_of(s).remove(k));
    } else {
        lemma_map_of_remove(s.drop_last(), i);
        assert(t.drop_last() =~= s.drop_last().remove(i));
        assert(t.last() == s.last());
        assert(map_of(t) == map_of(s.drop_last()).remove(k).insert(s.last().0, s.last().1));
        assert(s.last().0 != k);
        assert(map_of(s.drop_last()).remove(k).insert(s.last().0, s.last().1) =~= map_of(
            s.drop_last(),
        ).insert(s.last().0, s.last().1).remove(k));
    }
}

} // verus!
