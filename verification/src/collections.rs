//! Small verified collections keyed by [`TilePos`]: a map and a set.
//!
//! Both keep their elements in a `Vec` with no repeated key; their views are
//! the mathematical `Map` and `Set` they stand for.

use crate::tile::{Entity, TilePos};
use vstd::prelude::*;

verus! {

/// No two entries of `s` share a key.
pub open spec fn keys_unique<V>(s: Seq<(TilePos, V)>) -> bool {
    forall|i: int, j: int| 0 <= i < s.len() && 0 <= j < s.len() && i != j ==> s[i].0 != s[j].0
}

/// Some entry of `s` has key `k`.
pub open spec fn has_key<V>(s: Seq<(TilePos, V)>, k: TilePos) -> bool {
    exists|i: int| 0 <= i < s.len() && s[i].0 == k
}

/// The map that an association list stands for.
pub open spec fn assoc_map<V>(s: Seq<(TilePos, V)>) -> Map<TilePos, V> {
    Map::new(
        |k: TilePos| has_key(s, k),
        |k: TilePos| s[choose|i: int| 0 <= i < s.len() && s[i].0 == k].1,
    )
}

/// In a list without repeated keys, the entry at `i` is what the map holds for its key.
pub proof fn lemma_assoc_map_at<V>(s: Seq<(TilePos, V)>, i: int)
    requires
        keys_unique(s),
        0 <= i < s.len(),
    ensures
        assoc_map(s).contains_key(s[i].0),
        assoc_map(s)[s[i].0] == s[i].1,
{
    let k = s[i].0;
    assert(has_key(s, k));
    let j = choose|j: int| 0 <= j < s.len() && s[j].0 == k;
    assert(j == i);
}

/// Replacing the value of entry `i` updates the map at its key.
pub proof fn lemma_assoc_map_update<V>(s: Seq<(TilePos, V)>, i: int, v: V)
    requires
        keys_unique(s),
        0 <= i < s.len(),
    ensures
        keys_unique(s.update(i, (s[i].0, v))),
        assoc_map(s.update(i, (s[i].0, v))) == assoc_map(s).insert(s[i].0, v),
{
    let t = s.update(i, (s[i].0, v));
    let k0 = s[i].0;
    assert(keys_unique(t));
    assert forall|k: TilePos| has_key(t, k) <==> has_key(s, k) || k == k0 by {
        if has_key(s, k) {
            let j = choose|j: int| 0 <= j < s.len() && s[j].0 == k;
            assert(t[j].0 == k);
        }
        if k == k0 {
            assert(t[i].0 == k);
        }
        if has_key(t, k) {
            let j = choose|j: int| 0 <= j < t.len() && t[j].0 == k;
            assert(s[j].0 == k);
        }
    }
    assert forall|k: TilePos| #[trigger] assoc_map(t).contains_key(k) implies assoc_map(t)[k] == assoc_map(
        s,
    ).insert(k0, v)[k] by {
        let j = choose|j: int| 0 <= j < t.len() && t[j].0 == k;
        lemma_assoc_map_at(t, j);
        if j != i {
            lemma_assoc_map_at(s, j);
        }
    }
    assert(assoc_map(t) =~= assoc_map(s).insert(k0, v));
}

/// Appending an entry with a fresh key inserts it into the map.
pub proof fn lemma_assoc_map_push<V>(s: Seq<(TilePos, V)>, k: TilePos, v: V)
    requires
        keys_unique(s),
        !has_key(s, k),
    ensures
        keys_unique(s.push((k, v))),
        assoc_map(s.push((k, v))) == assoc_map(s).insert(k, v),
{
    let t = s.push((k, v));
    assert(keys_unique(t)) by {
        assert forall|i: int, j: int| 0 <= i < t.len() && 0 <= j < t.len() && i != j implies t[i].0
            != t[j].0 by {
            if i == s.len() as int {
                assert(s[j].0 == t[j].0);
            } else if j == s.len() as int {
                assert(s[i].0 == t[i].0);
            }
        }
    }
    assert forall|q: TilePos| has_key(t, q) <==> has_key(s, q) || q == k by {
        if has_key(s, q) {
            let j = choose|j: int| 0 <= j < s.len() && s[j].0 == q;
            assert(t[j].0 == q);
        }
        if q == k {
            assert(t[s.len() as int].0 == q);
        }
        if has_key(t, q) {
            let j = choose|j: int| 0 <= j < t.len() && t[j].0 == q;
            if j < s.len() {
                assert(s[j].0 == q);
            }
        }
    }
    assert forall|q: TilePos| #[trigger] assoc_map(t).contains_key(q) implies assoc_map(t)[q]
        == assoc_map(s).insert(k, v)[q] by {
        let j = choose|j: int| 0 <= j < t.len() && t[j].0 == q;
        lemma_assoc_map_at(t, j);
        if j < s.len() {
            lemma_assoc_map_at(s, j);
        }
    }
    assert(assoc_map(t) =~= assoc_map(s).insert(k, v));
}

/// Removing entry `i` removes its key from the map.
pub proof fn lemma_assoc_map_remove<V>(s: Seq<(TilePos, V)>, i: int)
    requires
        keys_unique(s),
        0 <= i < s.len(),
    ensures
        keys_unique(s.remove(i)),
        assoc_map(s.remove(i)) == assoc_map(s).remove(s[i].0),
{
    let t = s.remove(i);
    let k0 = s[i].0;
    assert(keys_unique(t)) by {
        assert forall|a: int, b: int| 0 <= a < t.len() && 0 <= b < t.len() && a != b implies t[a].0
            != t[b].0 by {
            let a2 = if a < i {
                a
            } else {
                a + 1
            };
            let b2 = if b < i {
                b
            } else {
                b + 1
            };
            assert(t[a] == s[a2]);
            assert(t[b] == s[b2]);
        }
    }
    assert forall|q: TilePos| has_key(t, q) <==> has_key(s, q) && q != k0 by {
        if has_key(s, q) && q != k0 {
            let j = choose|j: int| 0 <= j < s.len() && s[j].0 == q;
            if j < i {
                assert(t[j].0 == q);
            } else {
                assert(j != i);
                assert(t[j - 1].0 == q);
            }
        }
        if has_key(t, q) {
            let j = choose|j: int| 0 <= j < t.len() && t[j].0 == q;
            let j2 = if j < i {
                j
            } else {
                j + 1
            };
            assert(s[j2].0 == q);
            assert(j2 != i);
        }
    }
    assert forall|q: TilePos| #[trigger] assoc_map(t).contains_key(q) implies assoc_map(t)[q]
        == assoc_map(s).remove(k0)[q] by {
        let j = choose|j: int| 0 <= j < t.len() && t[j].0 == q;
        lemma_assoc_map_at(t, j);
        let j2 = if j < i {
            j
        } else {
            j + 1
        };
        assert(s[j2] == t[j]);
        lemma_assoc_map_at(s, j2);
    }
    assert(assoc_map(t) =~= assoc_map(s).remove(k0));
}

/// A map from tile positions to values of type `V`.
#[derive(Debug)]
pub struct TileMap<V> {
    entries: Vec<(TilePos, V)>,
}

impl<V> View for TileMap<V> {
    type V = Map<TilePos, V>;

    closed spec fn view(&self) -> Map<TilePos, V> {
        assoc_map(self.entries@)
    }
}

impl<V> TileMap<V> {
    /// Internal consistency: no key occurs twice.
    pub closed spec fn wf(&self) -> bool {
        keys_unique(self.entries@)
    }

    /// An empty map.
    pub fn new() -> (m: Self)
        ensures
            m.wf(),
            m@ == Map::<TilePos, V>::empty(),
    {
        let m = TileMap { entries: Vec::new() };
        assert(m@ =~= Map::<TilePos, V>::empty());
        m
    }

    /// The number of entries.
    pub fn len(&self) -> (n: usize)
        requires
            self.wf(),
        ensures
            n == self@.dom().len(),
    {
        proof {
            self.lemma_len();
        }
        self.entries.len()
    }

    /// The number of keys equals the number of stored entries.
    proof fn lemma_len(&self)
        requires
            self.wf(),
        ensures
            self@.dom().len() == self.entries@.len(),
            self@.dom().finite(),
    {
        lemma_assoc_len(self.entries@);
    }

    /// Position of the entry with key `k`, if any.
    fn find(&self, k: &TilePos) -> (r: Option<usize>)
        requires
            self.wf(),
        ensures
            match r {
                Some(i) => i < self.entries@.len() && self.entries@[i as int].0 == *k,
                None => !has_key(self.entries@, *k),
            },
            r is Some <==> self@.contains_key(*k),
    {
        let mut i: usize = 0;
        while i < self.entries.len()
            invariant
                i <= self.entries@.len(),
                forall|j: int| 0 <= j < i ==> self.entries@[j].0 != *k,
            decreases self.entries@.len() - i,
        {
            if self.entries[i].0 == *k {
                return Some(i);
            }
            i = i + 1;
        }
        None
    }

    /// Is there an entry for `k`?
    pub fn contains_key(&self, k: &TilePos) -> (b: bool)
        requires
            self.wf(),
        ensures
            b == self@.contains_key(*k),
    {
        self.find(k).is_some()
    }

    /// The value stored at `k`, if any.
    pub fn get(&self, k: &TilePos) -> (r: Option<&V>)
        requires
            self.wf(),
        ensures
            r == (if self@.contains_key(*k) {
                Some(&self@[*k])
            } else {
                None
            }),
    {
        match self.find(k) {
            Some(i) => {
                proof {
                    lemma_assoc_map_at(self.entries@, i as int);
                }
                Some(&self.entries[i].1)
            },
            None => None,
        }
    }

    /// Mutable access to the value stored at `k`, if any.
    pub fn get_mut(&mut self, k: &TilePos) -> (r: Option<&mut V>)
        requires
            old(self).wf(),
        ensures
            final(self).wf(),
            match r {
                Some(v) => old(self)@.contains_key(*k) && *v == old(self)@[*k] && final(self)@
                    == old(self)@.insert(*k, *final(v)),
                None => !old(self)@.contains_key(*k) && final(self)@ == old(self)@,
            },
    {
        match self.find(k) {
            Some(i) => {
                proof {
                    lemma_assoc_map_at(self.entries@, i as int);
                }
                let ghost before = self.entries@;
                let entry: &mut (TilePos, V) = &mut self.entries[i];
                proof {
                    lemma_assoc_map_update(before, i as int, final(entry).1);
                }
                Some(&mut entry.1)
            },
            None => None,
        }
    }

    /// Sets the value at `k` to `v`, replacing any previous value.
    pub fn insert(&mut self, k: TilePos, v: V)
        requires
            old(self).wf(),
        ensures
            final(self).wf(),
            final(self)@ == old(self)@.insert(k, v),
    {
        match self.find(&k) {
            Some(i) => {
                proof {
                    lemma_assoc_map_update(self.entries@, i as int, v);
                }
                self.entries.set(i, (k, v));
            },
            None => {
                proof {
                    lemma_assoc_map_push(self.entries@, k, v);
                }
                self.entries.push((k, v));
            },
        }
    }

    /// Removes the entry at `k`, returning its value if there was one.
    pub fn remove(&mut self, k: &TilePos) -> (r: Option<V>)
        requires
            old(self).wf(),
        ensures
            final(self).wf(),
            final(self)@ == old(self)@.remove(*k),
            r == (if old(self)@.contains_key(*k) {
                Some(old(self)@[*k])
            } else {
                None
            }),
    {
        match self.find(k) {
            Some(i) => {
                proof {
                    lemma_assoc_map_at(self.entries@, i as int);
                    lemma_assoc_map_remove(self.entries@, i as int);
                }
                let (_, v) = self.entries.remove(i);
                Some(v)
            },
            None => {
                assert(self@.remove(*k) =~= self@);
                None
            },
        }
    }

    /// The keys in the order in which the entries are stored.
    pub closed spec fn key_seq(&self) -> Seq<TilePos> {
        self.entries@.map_values(|e: (TilePos, V)| e.0)
    }

    /// The keys of this map, each once.
    pub fn keys(&self) -> (ks: Vec<TilePos>)
        requires
            self.wf(),
        ensures
            ks@ == self.key_seq(),
            ks@.no_duplicates(),
            ks@.to_set() == self@.dom(),
            ks@.len() == self@.dom().len(),
    {
        let mut ks: Vec<TilePos> = Vec::new();
        let mut i: usize = 0;
        while i < self.entries.len()
            invariant
                i <= self.entries@.len(),
                keys_unique(self.entries@),
                ks@.len() == i,
                forall|j: int| 0 <= j < i ==> #[trigger] ks@[j] == self.entries@[j].0,
            decreases self.entries@.len() - i,
        {
            ks.push(self.entries[i].0);
            i = i + 1;
        }
        proof {
            assert(ks@ =~= self.key_seq());
            self.lemma_len();
            assert forall|k: TilePos| ks@.to_set().contains(k) <==> self@.dom().contains(k) by {
                if self@.dom().contains(k) {
                    let j = choose|j: int| 0 <= j < self.entries@.len() && self.entries@[j].0 == k;
                    assert(ks@[j] == k);
                }
                if ks@.contains(k) {
                    let j = choose|j: int| 0 <= j < ks@.len() && ks@[j] == k;
                    assert(self.entries@[j].0 == k);
                }
            }
            assert(ks@.to_set() =~= self@.dom());
        }
        ks
    }
}

/// The number of keys of an association list without repeated keys is its length.
pub proof fn lemma_assoc_len<V>(s: Seq<(TilePos, V)>)
    requires
        keys_unique(s),
    ensures
        assoc_map(s).dom().finite(),
        assoc_map(s).dom().len() == s.len(),
    decreases s.len(),
{
    if s.len() == 0 {
        assert(assoc_map(s).dom() =~= Set::empty());
    } else {
        let t = s.drop_last();
        let last = s.last();
        assert(keys_unique(t));
        assert(!has_key(t, last.0)) by {
            if has_key(t, last.0) {
                let j = choose|j: int| 0 <= j < t.len() && t[j].0 == last.0;
                assert(s[j].0 == s[s.len() - 1].0);
            }
        }
        lemma_assoc_len(t);
        lemma_assoc_map_push(t, last.0, last.1);
        assert(t.push(last) =~= s);
        assert(!assoc_map(t).dom().contains(last.0));
    }
}

/// A set of tile positions.
#[derive(Debug)]
pub struct TileSet {
    elements: Vec<TilePos>,
}

impl View for TileSet {
    type V = Set<TilePos>;

    closed spec fn view(&self) -> Set<TilePos> {
        self.elements@.to_set()
    }
}

impl TileSet {
    /// Internal consistency: no position occurs twice.
    pub closed spec fn wf(&self) -> bool {
        self.elements@.no_duplicates()
    }

    /// An empty set.
    pub fn new() -> (s: Self)
        ensures
            s.wf(),
            s@ == Set::<TilePos>::empty(),
    {
        let s = TileSet { elements: Vec::new() };
        assert(s@ =~= Set::<TilePos>::empty());
        s
    }

    /// The set of the positions in `v`; repeated positions count once.
    pub fn from_vec(v: Vec<TilePos>) -> (s: Self)
        ensures
            s.wf(),
            s@ == v@.to_set(),
    {
        let mut s = TileSet::new();
        let mut i: usize = 0;
        while i < v.len()
            invariant
                i <= v@.len(),
                s.wf(),
                s@ == v@.subrange(0, i as int).to_set(),
            decreases v@.len() - i,
        {
            s.insert(v[i]);
            assert(v@.subrange(0, i + 1) =~= v@.subrange(0, i as int).push(v@[i as int]));
            proof {
                v@.subrange(0, i as int).lemma_push_to_set_commute(v@[i as int]);
            }
            i = i + 1;
        }
        assert(v@.subrange(0, v@.len() as int) =~= v@);
        s
    }

    /// The number of positions in the set.
    pub fn len(&self) -> (n: usize)
        requires
            self.wf(),
        ensures
            n == self@.len(),
    {
        proof {
            self.elements@.unique_seq_to_set();
        }
        self.elements.len()
    }

    /// Does the set contain `p`?
    pub fn contains(&self, p: &TilePos) -> (b: bool)
        ensures
            b == self@.contains(*p),
    {
        let mut i: usize = 0;
        while i < self.elements.len()
            invariant
                i <= self.elements@.len(),
                forall|j: int| 0 <= j < i ==> self.elements@[j] != *p,
            decreases self.elements@.len() - i,
        {
            if self.elements[i] == *p {
                assert(self.elements@.contains(*p));
                return true;
            }
            i = i + 1;
        }
        false
    }

    /// Adds `p` to the set.
    pub fn insert(&mut self, p: TilePos)
        requires
            old(self).wf(),
        ensures
            final(self).wf(),
            final(self)@ == old(self)@.insert(p),
    {
        if !self.contains(&p) {
            proof {
                self.elements@.lemma_push_to_set_commute(p);
            }
            self.elements.push(p);
            assert(self.elements@.no_duplicates()) by {
                let s = self.elements@;
                assert forall|i: int, j: int| 0 <= i < s.len() && 0 <= j < s.len() && i != j implies s[i]
                    != s[j] by {
                    if i == s.len() - 1 {
                        assert(old(self).elements@.contains(s[j]));
                    } else if j == s.len() - 1 {
                        assert(old(self).elements@.contains(s[i]));
                    }
                }
            }
        } else {
            assert(self@.insert(p) =~= self@);
        }
    }

    /// Removes `p` from the set.
    pub fn remove(&mut self, p: &TilePos)
        requires
            old(self).wf(),
        ensures
            final(self).wf(),
            final(self)@ == old(self)@.remove(*p),
    {
        let mut i: usize = 0;
        while i < self.elements.len()
            invariant
                i <= self.elements@.len(),
                self.elements@ == old(self).elements@,
                self.elements@.no_duplicates(),
                forall|j: int| 0 <= j < i ==> self.elements@[j] != *p,
            decreases self.elements@.len() - i,
        {
            if self.elements[i] == *p {
                let ghost s = self.elements@;
                self.elements.remove(i);
                proof {
                    let t = self.elements@;
                    assert(t =~= s.remove(i as int));
                    assert(t.no_duplicates()) by {
                        assert forall|a: int, b: int| 0 <= a < t.len() && 0 <= b < t.len() && a != b implies t[a]
                            != t[b] by {
                            let a2 = if a < i { a } else { a + 1 };
                            let b2 = if b < i { b } else { b + 1 };
                            assert(t[a] == s[a2]);
                            assert(t[b] == s[b2]);
                        }
                    }
                    assert forall|q: TilePos| t.contains(q) <==> s.contains(q) && q != *p by {
                        if s.contains(q) && q != *p {
                            let j = choose|j: int| 0 <= j < s.len() && s[j] == q;
                            if j < i {
                                assert(t[j] == q);
                            } else {
                                assert(t[j - 1] == q);
                            }
                        }
                        if t.contains(q) {
                            let j = choose|j: int| 0 <= j < t.len() && t[j] == q;
                            let j2 = if j < i { j } else { j + 1 };
                            assert(s[j2] == q);
                        }
                    }
                    assert(t.to_set() =~= s.to_set().remove(*p));
                }
                return;
            }
            i = i + 1;
        }
        assert(self@.remove(*p) =~= self@);
    }

    /// Is every position of `self` also in `other`?
    pub fn is_subset_of(&self, other: &TileSet) -> (b: bool)
        ensures
            b == self@.subset_of(other@),
    {
        let mut i: usize = 0;
        while i < self.elements.len()
            invariant
                i <= self.elements@.len(),
                forall|j: int| 0 <= j < i ==> other@.contains(#[trigger] self.elements@[j]),
            decreases self.elements@.len() - i,
        {
            if !other.contains(&self.elements[i]) {
                assert(self@.contains(self.elements@[i as int]));
                return false;
            }
            i = i + 1;
        }
        assert forall|q: TilePos| self@.contains(q) implies other@.contains(q) by {
            let j = choose|j: int| 0 <= j < self.elements@.len() && self.elements@[j] == q;
        }
        true
    }

    /// Do `self` and `other` hold the same positions?
    pub fn same_elements(&self, other: &TileSet) -> (b: bool)
        ensures
            b == (self@ == other@),
    {
        let r = self.is_subset_of(other) && other.is_subset_of(self);
        proof {
            if r {
                assert(self@ =~= other@);
            }
        }
        r
    }

    /// The positions of the set, each once.
    pub fn to_vec(&self) -> (v: Vec<TilePos>)
        requires
            self.wf(),
        ensures
            v@.no_duplicates(),
            v@.to_set() == self@,
    {
        self.elements.clone()
    }
}

impl PartialEq for TileSet {
    fn eq(&self, other: &TileSet) -> (r: bool) {
        self.same_elements(other)
    }
}

impl vstd::std_specs::cmp::PartialEqSpecImpl for TileSet {
    open spec fn obeys_eq_spec() -> bool {
        true
    }

    open spec fn eq_spec(&self, other: &TileSet) -> bool {
        self@ == other@
    }
}

/// `m` without the entries whose value is `e`.
pub open spec fn without_value(m: Map<TilePos, Entity>, e: Entity) -> Map<TilePos, Entity> {
    Map::new(|k: TilePos| m.contains_key(k) && m[k] != e, |k: TilePos| m[k])
}

impl TileMap<Entity> {
    /// Removes every entry whose value is `e`.
    pub fn remove_value(&mut self, e: Entity)
        requires
            old(self).wf(),
        ensures
            final(self).wf(),
            final(self)@ == without_value(old(self)@, e),
    {
        let mut kept: Vec<(TilePos, Entity)> = Vec::new();
        let mut i: usize = 0;
        let ghost s = self.entries@;
        assert(assoc_map(s.subrange(0, 0)) =~= Map::<TilePos, Entity>::empty());
        assert(assoc_map(kept@) =~= Map::<TilePos, Entity>::empty());
        while i < self.entries.len()
            invariant
                s == self.entries@,
                keys_unique(s),
                i <= s.len(),
                keys_unique(kept@),
                forall|k: TilePos| has_key(kept@, k) ==> has_key(s.subrange(0, i as int), k),
                assoc_map(kept@) == without_value(assoc_map(s.subrange(0, i as int)), e),
            decreases s.len() - i,
        {
            let entry = self.entries[i];
            let ghost pre = s.subrange(0, i as int);
            assert(s.subrange(0, i + 1) =~= pre.push(entry));
            assert(keys_unique(pre));
            assert(!has_key(pre, entry.0)) by {
                if has_key(pre, entry.0) {
                    let j = choose|j: int| 0 <= j < pre.len() && pre[j].0 == entry.0;
                    assert(s[j].0 == s[i as int].0);
                }
            }
            proof {
                lemma_assoc_map_push(pre, entry.0, entry.1);
            }
            if entry.1 != e {
                let ghost kept_before = kept@;
                assert(!has_key(kept_before, entry.0));
                proof {
                    lemma_assoc_map_push(kept_before, entry.0, entry.1);
                }
                kept.push(entry);
                assert(assoc_map(kept@) =~= without_value(assoc_map(s.subrange(0, i + 1)), e));
                assert forall|k: TilePos| has_key(kept@, k) implies has_key(s.subrange(0, i + 1), k) by {
                    let j = choose|j: int| 0 <= j < kept@.len() && kept@[j].0 == k;
                    if j < kept_before.len() {
                        assert(kept_before[j].0 == k);
                        assert(has_key(kept_before, k));
                        assert(has_key(pre, k));
                        let j2 = choose|j2: int| 0 <= j2 < pre.len() && pre[j2].0 == k;
                        assert(s.subrange(0, i + 1)[j2].0 == k);
                    } else {
                        assert(s.subrange(0, i + 1)[i as int].0 == k);
                    }
                }
            } else {
                assert(assoc_map(kept@) =~= without_value(assoc_map(s.subrange(0, i + 1)), e));
                assert forall|k: TilePos| has_key(kept@, k) implies has_key(s.subrange(0, i + 1), k) by {
                    let j2 = choose|j2: int| 0 <= j2 < pre.len() && pre[j2].0 == k;
                    assert(s.subrange(0, i + 1)[j2].0 == k);
                }
            }
            i = i + 1;
        }
        assert(s.subrange(0, s.len() as int) =~= s);
        self.entries = kept;
    }
}

impl<V> TileMap<V> {
    /// References to the values of this map, in the order of [`TileMap::keys`].
    pub fn values(&self) -> (vs: Vec<&V>)
        requires
            self.wf(),
        ensures
            vs@.len() == self.key_seq().len(),
            forall|i: int|
                0 <= i < vs@.len() ==> self@.contains_key(#[trigger] self.key_seq()[i]) && *vs@[i]
                    == self@[self.key_seq()[i]],
    {
        let mut vs: Vec<&V> = Vec::new();
        let mut i: usize = 0;
        while i < self.entries.len()
            invariant
                i <= self.entries@.len(),
                keys_unique(self.entries@),
                vs@.len() == i,
                forall|j: int| 0 <= j < i ==> *vs@[j] == self.entries@[j].1,
            decreases self.entries@.len() - i,
        {
            vs.push(&self.entries[i].1);
            i = i + 1;
        }
        assert forall|j: int| 0 <= j < vs@.len() implies self@.contains_key(
            #[trigger] self.key_seq()[j],
        ) && *vs@[j] == self@[self.key_seq()[j]] by {
            lemma_assoc_map_at(self.entries@, j);
        }
        vs
    }
}

} // verus!
