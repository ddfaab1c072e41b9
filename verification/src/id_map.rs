//! An insertion-ordered map keyed by widget identifiers.
//!
//! Each identifier occurs at most once; an entry that is overwritten keeps its
//! place, a new entry goes last, and removing an entry keeps the order of the
//! others.
use vstd::prelude::*;

use crate::WidgetId;

verus! {

/// Insertion-ordered map from widget identifiers to values.
pub struct IdMap<V> {
    entries: Vec<(WidgetId, V)>,
}

/// The identifier of an entry, by its text.
pub open spec fn entry_id<V>(e: (WidgetId, V)) -> Seq<char> {
    e.0@
}

/// `s` without every occurrence of `k`.
pub open spec fn without(s: Seq<Seq<char>>, k: Seq<char>) -> Seq<Seq<char>> {
    s.filter(|x: Seq<char>| x != k)
}

/// Removing an element that does not occur leaves a sequence unchanged.
pub proof fn lemma_without_absent(s: Seq<Seq<char>>, k: Seq<char>)
    requires
        !s.contains(k),
    ensures
        without(s, k) == s,
    decreases s.len(),
{
    reveal(Seq::filter);
    if s.len() > 0 {
        assert(!s.drop_last().contains(k)) by {
            if s.drop_last().contains(k) {
                let i = choose|i: int| 0 <= i < s.drop_last().len() && s.drop_last()[i] == k;
                assert(s[i] == k);
            }
        }
        lemma_without_absent(s.drop_last(), k);
        assert(s.last() != k) by {
            assert(s[s.len() - 1] == s.last());
        }
        assert(s.drop_last().push(s.last()) =~= s);
    }
}

/// In a sequence without duplicates, removing the element at `j` is removing
/// every occurrence of that element.
pub proof fn lemma_without_at(s: Seq<Seq<char>>, j: int)
    requires
        s.no_duplicates(),
        0 <= j < s.len(),
    ensures
        without(s, s[j]) == s.remove(j),
    decreases s.len(),
{
    reveal(Seq::filter);
    let k = s[j];
    let d = s.drop_last();
    if j == s.len() - 1 {
        assert(!d.contains(k)) by {
            if d.contains(k) {
                let i = choose|i: int| 0 <= i < d.len() && d[i] == k;
                assert(s[i] == s[j]);
            }
        }
        lemma_without_absent(d, k);
        assert(s.remove(j) =~= d);
    } else {
        assert(d.no_duplicates());
        assert(d[j] == k);
        lemma_without_at(d, j);
        assert(s.last() != k) by {
            assert(s[s.len() - 1] == s.last());
        }
        assert(s.remove(j) =~= d.remove(j).push(s.last()));
    }
}

impl<V> IdMap<V> {
    /// The entries, in insertion order.
    pub closed spec fn entries(&self) -> Seq<(WidgetId, V)> {
        self.entries@
    }

    /// The identifiers, in insertion order.
    pub open spec fn ids(&self) -> Seq<Seq<char>> {
        self.entries().map_values(|e: (WidgetId, V)| entry_id(e))
    }

    /// No identifier occurs twice.
    pub open spec fn wf(&self) -> bool {
        self.ids().no_duplicates()
    }

    /// The position of identifier `k`.
    pub open spec fn index_of(&self, k: Seq<char>) -> int {
        self.ids().index_of(k)
    }

    /// The map from identifiers to values.
    pub open spec fn map(&self) -> Map<Seq<char>, V> {
        Map::new(|k: Seq<char>| self.ids().contains(k), |k: Seq<char>| self.entries()[self.index_of(k)].1)
    }

    /// The entry at position `i` is the one that the map gives for its identifier.
    pub proof fn lemma_index(&self, i: int)
        requires
            self.wf(),
            0 <= i < self.entries().len(),
        ensures
            self.ids()[i] == self.entries()[i].0@,
            self.index_of(self.ids()[i]) == i,
            self.map().contains_key(self.ids()[i]),
            self.map()[self.ids()[i]] == self.entries()[i].1,
    {
        let k = self.ids()[i];
        assert(self.ids().contains(k));
        let j = self.index_of(k);
        assert(0 <= j < self.ids().len() && self.ids()[j] == k);
    }

    /// An empty map.
    pub fn new() -> (m: Self)
        ensures
            m.wf(),
            m.ids() == Seq::<Seq<char>>::empty(),
            m.map() == Map::<Seq<char>, V>::empty(),
    {
        let m = IdMap { entries: Vec::new() };
        assert(m.ids() =~= Seq::<Seq<char>>::empty());
        assert(m.map() =~= Map::<Seq<char>, V>::empty());
        m
    }

    /// The entry at position `i`.
    pub fn entry(&self, i: usize) -> (r: &(WidgetId, V))
        requires
            i < self.entries().len(),
        ensures
            *r == self.entries()[i as int],
    {
        &self.entries[i]
    }

    /// Number of entries.
    pub fn len(&self) -> (n: usize)
        ensures
            n == self.entries().len(),
            n == self.ids().len(),
    {
        self.entries.len()
    }

    /// The position of `id`, if it is present.
    pub fn find(&self, id: WidgetId) -> (r: Option<usize>)
        requires
            self.wf(),
        ensures
            r is None <==> !self.ids().contains(id@),
            r matches Some(i) ==> i < self.ids().len() && self.ids()[i as int] == id@
                && self.index_of(id@) == i,
    {
        let mut i: usize = 0;
        while i < self.entries.len()
            invariant
                i <= self.entries@.len(),
                self.wf(),
                forall|j: int| 0 <= j < i ==> self.ids()[j] != id@,
            decreases self.entries@.len() - i,
        {
            if self.entries[i].0 == id {
                proof {
                    self.lemma_index(i as int);
                }
                return Some(i);
            }
            i += 1;
        }
        None
    }

    /// Whether `id` is present.
    pub fn contains(&self, id: WidgetId) -> (r: bool)
        requires
            self.wf(),
        ensures
            r == self.map().contains_key(id@),
    {
        self.find(id).is_some()
    }

    /// The value stored for `id`.
    pub fn get(&self, id: WidgetId) -> (r: Option<&V>)
        requires
            self.wf(),
        ensures
            r is None <==> !self.map().contains_key(id@),
            r matches Some(v) ==> *v == self.map()[id@],
    {
        match self.find(id) {
            Some(i) => {
                proof {
                    self.lemma_index(i as int);
                }
                Some(&self.entries[i].1)
            },
            None => None,
        }
    }

    /// Stores `v` for `id`. An identifier already present keeps its place;
    /// a new one goes last.
    pub fn insert(&mut self, id: WidgetId, v: V)
        requires
            old(self).wf(),
        ensures
            final(self).wf(),
            final(self).ids() == (if old(self).ids().contains(id@) {
                old(self).ids()
            } else {
                old(self).ids().push(id@)
            }),
            final(self).map() == old(self).map().insert(id@, v),
    {
        let ghost old_map = self.map();
        let ghost old_ids = self.ids();
        match self.find(id) {
            Some(i) => {
                let mut item = (id, v);
                self.entries.set_and_swap(i, &mut item);
                assert(self.ids() =~= old_ids);
                assert forall|k: Seq<char>| #[trigger] self.map().contains_key(k) implies
                    self.map()[k] == old_map.insert(id@, v)[k] by {
                    let j = self.index_of(k);
                    assert(0 <= j < self.ids().len() && self.ids()[j] == k);
                    self.lemma_index(j);
                    if k != id@ {
                        old(self).lemma_index(j);
                    }
                }
                assert(self.map() =~= old_map.insert(id@, v));
            },
            None => {
                self.entries.push((id, v));
                assert(self.ids() =~= old_ids.push(id@));
                assert(self.wf()) by {
                    assert forall|a: int, b: int|
                        0 <= a < self.ids().len() && 0 <= b < self.ids().len() && a != b implies
                        self.ids()[a] != self.ids()[b] by {
                        let n = old_ids.len() as int;
                        if a == n {
                            assert(self.ids()[a] == id@);
                            assert(self.ids()[b] == old_ids[b]);
                            assert(old_ids[b] != id@);
                        } else if b == n {
                            assert(self.ids()[b] == id@);
                            assert(self.ids()[a] == old_ids[a]);
                            assert(old_ids[a] != id@);
                        } else {
                            assert(self.ids()[a] == old_ids[a]);
                            assert(self.ids()[b] == old_ids[b]);
                        }
                    }
                }
                assert forall|k: Seq<char>| #[trigger] self.map().contains_key(k) implies
                    self.map()[k] == old_map.insert(id@, v)[k] by {
                    let j = self.index_of(k);
                    assert(0 <= j < self.ids().len() && self.ids()[j] == k);
                    self.lemma_index(j);
                    if k != id@ {
                        old(self).lemma_index(j);
                    }
                }
                assert forall|k: Seq<char>| #[trigger] old_map.insert(id@, v).contains_key(k) implies
                    self.map().contains_key(k) by {
                    if k == id@ {
                        assert(self.ids()[old_ids.len() as int] == k);
                    } else {
                        let j = old(self).index_of(k);
                        assert(0 <= j < old_ids.len() && old_ids[j] == k);
                        assert(self.ids()[j] == k);
                    }
                }
                assert(self.map() =~= old_map.insert(id@, v));
            },
        }
    }

    /// Removes the entry for `id` and returns its value. The other entries keep their order.
    pub fn remove(&mut self, id: WidgetId) -> (r: Option<V>)
        requires
            old(self).wf(),
        ensures
            final(self).wf(),
            final(self).ids() == without(old(self).ids(), id@),
            final(self).map() == old(self).map().remove(id@),
            r == old(self).map().get(id@),
    {
        let ghost old_map = self.map();
        let ghost old_ids = self.ids();
        match self.find(id) {
            Some(i) => {
                proof {
                    self.lemma_index(i as int);
                    lemma_without_at(old_ids, i as int);
                }
                let e = self.entries.remove(i);
                assert(self.ids() =~= old_ids.remove(i as int));
                assert(self.wf()) by {
                    assert forall|a: int, b: int|
                        0 <= a < self.ids().len() && 0 <= b < self.ids().len() && a != b implies
                        self.ids()[a] != self.ids()[b] by {
                        let a2 = if a < i { a } else { a + 1 };
                        let b2 = if b < i { b } else { b + 1 };
                        assert(self.ids()[a] == old_ids[a2]);
                        assert(self.ids()[b] == old_ids[b2]);
                    }
                }
                assert forall|k: Seq<char>| #[trigger] self.map().contains_key(k) implies
                    old_map.remove(id@).contains_key(k) && self.map()[k] == old_map.remove(id@)[k] by {
                    let j = self.index_of(k);
                    assert(0 <= j < self.ids().len() && self.ids()[j] == k);
                    self.lemma_index(j);
                    let j2 = if j < i { j } else { j + 1 };
                    assert(old_ids[j2] == k);
                    old(self).lemma_index(j2);
                    assert(k != id@);
                }
                assert forall|k: Seq<char>| #[trigger] old_map.remove(id@).contains_key(k) implies
                    self.map().contains_key(k) by {
                    let j = old(self).index_of(k);
                    assert(0 <= j < old_ids.len() && old_ids[j] == k);
                    assert(j != i);
                    let j2 = if j < i { j } else { j - 1 };
                    assert(self.ids()[j2] == k);
                }
                assert(self.map() =~= old_map.remove(id@));
                Some(e.1)
            },
            None => {
                proof {
                    lemma_without_absent(old_ids, id@);
                }
                assert(old_map.remove(id@) =~= old_map);
                None
            },
        }
    }
}

} // verus!
