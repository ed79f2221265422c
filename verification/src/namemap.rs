//! A map keyed by names, kept as an ordered list of entries with distinct keys.
use vstd::prelude::*;
use crate::text::str_eq;

verus! {

/// Value of the first entry whose key is `k`.
pub open spec fn seq_lookup<V>(s: Seq<(Seq<char>, V)>, k: Seq<char>) -> Option<V>
    decreases s.len(),
{
    if s.len() == 0 {
        None
    } else if s[0].0 == k {
        Some(s[0].1)
    } else {
        seq_lookup(s.drop_first(), k)
    }
}

/// No two entries share a key.
pub open spec fn keys_distinct<V>(s: Seq<(Seq<char>, V)>) -> bool {
    forall|i: int, j: int| 0 <= i < j < s.len() ==> #[trigger] s[i].0 != #[trigger] s[j].0
}

/// Some entry has key `k`.
pub open spec fn seq_has_key<V>(s: Seq<(Seq<char>, V)>, k: Seq<char>) -> bool {
    exists|i: int| 0 <= i < s.len() && #[trigger] s[i].0 == k
}

/// `seq_lookup` finds the value at the first index holding `k`.
pub proof fn lemma_lookup_index<V>(s: Seq<(Seq<char>, V)>, k: Seq<char>, i: int)
    requires
        0 <= i < s.len(),
        s[i].0 == k,
        forall|j: int| 0 <= j < i ==> s[j].0 != k,
    ensures
        seq_lookup(s, k) == Some(s[i].1),
    decreases i,
{
    if i > 0 {
        let t = s.drop_first();
        assert forall|j: int| 0 <= j < i - 1 implies t[j].0 != k by {
            assert(t[j] == s[j + 1]);
        }
        lemma_lookup_index(t, k, i - 1);
    }
}

/// `seq_lookup` is `None` exactly when no entry has key `k`.
pub proof fn lemma_lookup_none<V>(s: Seq<(Seq<char>, V)>, k: Seq<char>)
    ensures
        seq_lookup(s, k) is None <==> !seq_has_key(s, k),
    decreases s.len(),
{
    if s.len() > 0 {
        let t = s.drop_first();
        lemma_lookup_none(t, k);
        if s[0].0 != k {
            if seq_has_key(s, k) {
                let i = choose|i: int| 0 <= i < s.len() && #[trigger] s[i].0 == k;
                assert(t[i - 1].0 == k);
            }
            if seq_has_key(t, k) {
                let i = choose|i: int| 0 <= i < t.len() && #[trigger] t[i].0 == k;
                assert(s[i + 1].0 == k);
            }
        } else {
            assert(s[0].0 == k);
        }
    }
}

/// A found value comes from an entry with that key.
pub proof fn lemma_lookup_some<V>(s: Seq<(Seq<char>, V)>, k: Seq<char>) -> (j: int)
    requires
        seq_lookup(s, k) is Some,
    ensures
        0 <= j < s.len(),
        s[j].0 == k,
        seq_lookup(s, k) == Some(s[j].1),
    decreases s.len(),
{
    if s[0].0 == k {
        0
    } else {
        let j = lemma_lookup_some(s.drop_first(), k);
        assert(s[j + 1] == s.drop_first()[j]);
        j + 1
    }
}

/// With distinct keys, the entry at `i` is what `seq_lookup` finds for its key.
pub proof fn lemma_lookup_distinct<V>(s: Seq<(Seq<char>, V)>, i: int)
    requires
        0 <= i < s.len(),
        keys_distinct(s),
    ensures
        seq_lookup(s, s[i].0) == Some(s[i].1),
{
    assert forall|j: int| 0 <= j < i implies s[j].0 != s[i].0 by {}
    lemma_lookup_index(s, s[i].0, i);
}

/// Lookup after appending an entry.
pub proof fn lemma_lookup_push<V>(s: Seq<(Seq<char>, V)>, k: Seq<char>, v: V, q: Seq<char>)
    requires
        !seq_has_key(s, k),
    ensures
        q == k ==> seq_lookup(s.push((k, v)), q) == Some(v),
        q != k ==> seq_lookup(s.push((k, v)), q) == seq_lookup(s, q),
    decreases s.len(),
{
    let t = s.push((k, v));
    if s.len() == 0 {
        assert(t.drop_first() =~= Seq::<(Seq<char>, V)>::empty());
        assert(t[0] == (k, v));
        assert(seq_lookup(t.drop_first(), q) is None);
        assert(seq_lookup(s, q) is None);
    } else {
        assert(t.drop_first() =~= s.drop_first().push((k, v)));
        assert(!seq_has_key(s.drop_first(), k)) by {
            if seq_has_key(s.drop_first(), k) {
                let i = choose|i: int|
                    0 <= i < s.drop_first().len() && #[trigger] s.drop_first()[i].0 == k;
                assert(s[i + 1].0 == k);
            }
        }
        assert(s[0].0 != k);
        assert(t[0] == s[0]);
        lemma_lookup_push(s.drop_first(), k, v, q);
        if s[0].0 == q {
            assert(seq_lookup(t, q) == Some(s[0].1));
            assert(seq_lookup(s, q) == Some(s[0].1));
        } else {
            assert(seq_lookup(t, q) == seq_lookup(t.drop_first(), q));
            assert(seq_lookup(s, q) == seq_lookup(s.drop_first(), q));
        }
    }
}

/// Lookup after replacing the entry at `i` (which holds key `k`) by `(k, v)`.
pub proof fn lemma_lookup_update<V>(s: Seq<(Seq<char>, V)>, i: int, v: V, q: Seq<char>)
    requires
        0 <= i < s.len(),
        keys_distinct(s),
    ensures
        seq_lookup(s.update(i, (s[i].0, v)), q) == if q == s[i].0 {
            Some(v)
        } else {
            seq_lookup(s, q)
        },
{
    let k = s[i].0;
    let t = s.update(i, (k, v));
    if q == k {
        assert forall|j: int| 0 <= j < i implies t[j].0 != k by {}
        lemma_lookup_index(t, k, i);
    } else {
        lemma_lookup_none(s, q);
        lemma_lookup_none(t, q);
        if seq_has_key(s, q) {
            let j = choose|j: int| 0 <= j < s.len() && #[trigger] s[j].0 == q;
            assert forall|m: int| 0 <= m < j implies s[m].0 != q by {}
            lemma_lookup_index(s, q, j);
            assert forall|m: int| 0 <= m < j implies t[m].0 != q by {}
            lemma_lookup_index(t, q, j);
        } else {
            assert(!seq_has_key(t, q)) by {
                if seq_has_key(t, q) {
                    let j = choose|j: int| 0 <= j < t.len() && #[trigger] t[j].0 == q;
                    assert(s[j].0 == q);
                }
            }
        }
    }
}

/// Lookup after removing the entry at `i`.
pub proof fn lemma_lookup_remove<V>(s: Seq<(Seq<char>, V)>, i: int, q: Seq<char>)
    requires
        0 <= i < s.len(),
        keys_distinct(s),
    ensures
        seq_lookup(s.remove(i), q) == if q == s[i].0 {
            None
        } else {
            seq_lookup(s, q)
        },
        keys_distinct(s.remove(i)),
{
    let t = s.remove(i);
    assert forall|a: int, b: int| 0 <= a < b < t.len() implies #[trigger] t[a].0
        != #[trigger] t[b].0 by {
        let a2 = if a < i {
            a
        } else {
            a + 1
        };
        let b2 = if b < i {
            b
        } else {
            b + 1
        };
        assert(t[a] == s[a2]);
        assert(t[b] == s[b2]);
    }
    lemma_lookup_none(t, q);
    lemma_lookup_none(s, q);
    if q == s[i].0 {
        assert(!seq_has_key(t, q)) by {
            if seq_has_key(t, q) {
                let j = choose|j: int| 0 <= j < t.len() && #[trigger] t[j].0 == q;
                if j < i {
                    assert(t[j] == s[j]);
                } else {
                    assert(t[j] == s[j + 1]);
                }
            }
        }
    } else if seq_has_key(s, q) {
        let j = choose|j: int| 0 <= j < s.len() && #[trigger] s[j].0 == q;
        lemma_lookup_distinct(s, j);
        let j2 = if j < i {
            j
        } else {
            j - 1
        };
        assert(t[j2] == s[j]);
        lemma_lookup_distinct(t, j2);
    } else {
        assert(!seq_has_key(t, q)) by {
            if seq_has_key(t, q) {
                let j = choose|j: int| 0 <= j < t.len() && #[trigger] t[j].0 == q;
                if j < i {
                    assert(t[j] == s[j]);
                } else {
                    assert(t[j] == s[j + 1]);
                }
            }
        }
    }
}

/// A map from names to values; entries keep their insertion order and keys are distinct.
#[derive(Debug)]
pub struct NameMap<V> {
    entries: Vec<(String, V)>,
}

impl<V> View for NameMap<V> {
    type V = Map<Seq<char>, V>;

    /// The map from keys to the values stored under them.
    open spec fn view(&self) -> Map<Seq<char>, V> {
        Map::new(|k: Seq<char>| self.lookup(k) is Some, |k: Seq<char>| self.lookup(k)->0)
    }
}

impl<V> NameMap<V> {
    /// The entries, in order, keys taken as character sequences.
    pub closed spec fn pairs(&self) -> Seq<(Seq<char>, V)> {
        self.entries@.map_values(|e: (String, V)| (e.0@, e.1))
    }

    /// The value stored under `k`, if any.
    pub open spec fn lookup(&self, k: Seq<char>) -> Option<V> {
        seq_lookup(self.pairs(), k)
    }

    /// Whether some entry has key `k`.
    pub open spec fn has_key(&self, k: Seq<char>) -> bool {
        seq_has_key(self.pairs(), k)
    }

    /// The keys, in order.
    pub open spec fn key_seq(&self) -> Seq<Seq<char>> {
        self.pairs().map_values(|e: (Seq<char>, V)| e.0)
    }

    /// An entry holding key `k` and its value, for a key in the map.
    pub proof fn lemma_entry_of_key(&self, k: Seq<char>) -> (j: int)
        requires
            self@.contains_key(k),
        ensures
            0 <= j < self.pairs().len(),
            self.pairs()[j].0 == k,
            self.pairs()[j].1 == self@[k],
    {
        lemma_lookup_some(self.pairs(), k)
    }

    /// The entry at `i` is in the map, when keys are distinct.
    pub proof fn lemma_entry_in_map(&self, i: int)
        requires
            self.wf(),
            0 <= i < self.pairs().len(),
        ensures
            self@.contains_key(self.pairs()[i].0),
            self@[self.pairs()[i].0] == self.pairs()[i].1,
    {
        lemma_lookup_distinct(self.pairs(), i);
    }

    /// Keys are distinct.
    pub open spec fn wf(&self) -> bool {
        keys_distinct(self.pairs())
    }

    /// An empty map.
    pub fn new() -> (m: Self)
        ensures
            m.pairs() == Seq::<(Seq<char>, V)>::empty(),
            m.wf(),
    {
        let m = NameMap { entries: Vec::new() };
        assert(m.pairs() =~= Seq::<(Seq<char>, V)>::empty());
        m
    }

    /// Number of entries.
    pub fn len(&self) -> (n: usize)
        ensures
            n == self.pairs().len(),
    {
        self.entries.len()
    }

    /// Whether the map has no entries.
    pub fn is_empty(&self) -> (b: bool)
        ensures
            b == (self.pairs().len() == 0),
    {
        self.entries.len() == 0
    }

    /// The key of the `i`-th entry.
    pub fn key_at(&self, i: usize) -> (k: &String)
        requires
            i < self.pairs().len(),
        ensures
            k@ == self.pairs()[i as int].0,
    {
        &self.entries[i].0
    }

    /// The value of the `i`-th entry.
    pub fn value_at(&self, i: usize) -> (v: &V)
        requires
            i < self.pairs().len(),
        ensures
            *v == self.pairs()[i as int].1,
    {
        &self.entries[i].1
    }

    /// Position of the entry with key `k`, if any.
    pub fn find(&self, k: &str) -> (r: Option<usize>)
        ensures
            match r {
                Some(i) => i < self.pairs().len() && self.pairs()[i as int].0 == k@ && self.lookup(
                    k@,
                ) == Some(self.pairs()[i as int].1),
                None => !self.has_key(k@) && self.lookup(k@) is None,
            },
    {
        let mut i: usize = 0;
        while i < self.entries.len()
            invariant
                i <= self.entries.len(),
                forall|j: int| 0 <= j < i ==> self.pairs()[j].0 != k@,
            decreases self.entries.len() - i,
        {
            if str_eq(self.entries[i].0.as_str(), k) {
                proof {
                    lemma_lookup_index(self.pairs(), k@, i as int);
                }
                return Some(i);
            }
            i = i + 1;
        }
        proof {
            lemma_lookup_none(self.pairs(), k@);
            assert(!self.has_key(k@)) by {
                if self.has_key(k@) {
                    let j = choose|j: int|
                        0 <= j < self.pairs().len() && #[trigger] self.pairs()[j].0 == k@;
                }
            }
        }
        None
    }

    /// The value stored under `k`.
    pub fn get(&self, k: &str) -> (r: Option<&V>)
        ensures
            match r {
                Some(v) => self.lookup(k@) == Some(*v),
                None => self.lookup(k@) is None,
            },
    {
        match self.find(k) {
            Some(i) => Some(&self.entries[i].1),
            None => None,
        }
    }

    /// Whether some entry has key `k`.
    pub fn contains_key(&self, k: &str) -> (b: bool)
        ensures
            b == self.lookup(k@) is Some,
            b == self.has_key(k@),
    {
        proof {
            lemma_lookup_none(self.pairs(), k@);
        }
        self.find(k).is_some()
    }

    /// Stores `v` under `k`, replacing (and returning) a previous value.
    pub fn insert(&mut self, k: String, v: V) -> (old_v: Option<V>)
        requires
            old(self).wf(),
        ensures
            final(self).wf(),
            old_v == old(self).lookup(k@),
            forall|q: Seq<char>| #[trigger]
                final(self).lookup(q) == if q == k@ {
                    Some(v)
                } else {
                    old(self).lookup(q)
                },
            old(self).has_key(k@) ==> final(self).pairs().len() == old(self).pairs().len(),
            !old(self).has_key(k@) ==> final(self).pairs() == old(self).pairs().push((k@, v)),
            old(self).has_key(k@) ==> final(self).key_seq() == old(self).key_seq(),
            final(self)@ == old(self)@.insert(k@, v),
    {
        let ghost s = self.pairs();
        match self.find(k.as_str()) {
            Some(i) => {
                let ghost kk = k@;
                let (_, old_value) = self.entries.remove(i);
                self.entries.insert(i, (k, v));
                proof {
                    assert(self.pairs() =~= s.update(i as int, (kk, v)));
                    assert forall|q: Seq<char>| #[trigger]
                        self.lookup(q) == if q == kk {
                            Some(v)
                        } else {
                            seq_lookup(s, q)
                        } by {
                        lemma_lookup_update(s, i as int, v, q);
                    }
                    assert forall|a: int, b: int| 0 <= a < b < self.pairs().len() implies #[trigger] self.pairs()[a].0
                        != #[trigger] self.pairs()[b].0 by {
                        assert(s[a].0 != s[b].0);
                    }
                    assert(self.key_seq() =~= s.map_values(|e: (Seq<char>, V)| e.0));
                    assert(self@ =~= old(self)@.insert(kk, v));
                }
                Some(old_value)
            },
            None => {
                let ghost kk = k@;
                self.entries.push((k, v));
                proof {
                    assert(self.pairs() =~= s.push((kk, v)));
                    assert forall|q: Seq<char>| #[trigger]
                        self.lookup(q) == if q == kk {
                            Some(v)
                        } else {
                            seq_lookup(s, q)
                        } by {
                        lemma_lookup_push(s, kk, v, q);
                    }
                    assert forall|a: int, b: int| 0 <= a < b < self.pairs().len() implies #[trigger] self.pairs()[a].0
                        != #[trigger] self.pairs()[b].0 by {
                        if b == s.len() {
                            assert(s[a].0 != kk);
                        } else {
                            assert(s[a].0 != s[b].0);
                        }
                    }
                    assert(self@ =~= old(self)@.insert(kk, v));
                }
                None
            },
        }
    }

    /// A mutable reference to the value of the `i`-th entry.
    pub fn value_at_mut(&mut self, i: usize) -> (v: &mut V)
        requires
            i < old(self).pairs().len(),
        ensures
            *v == old(self).pairs()[i as int].1,
            final(self).pairs() == old(self).pairs().update(i as int, (old(self).pairs()[i as int].0, *final(v))),
    {
        &mut self.entries[i].1
    }

    /// A mutable reference to the value stored under `k`.
    pub fn get_mut(&mut self, k: &str) -> (r: Option<&mut V>)
        ensures
            match r {
                Some(v) => exists|i: int|
                    0 <= i < old(self).pairs().len() && old(self).pairs()[i].0 == k@ && old(self).lookup(
                        k@,
                    ) == Some(*v) && *v == old(self).pairs()[i].1 && final(self).pairs() == old(
                        self,
                    ).pairs().update(i, (k@, *final(v))),
                None => old(self).lookup(k@) is None && *final(self) == *old(self),
            },
    {
        match self.find(k) {
            Some(i) => Some(self.value_at_mut(i)),
            None => None,
        }
    }

    /// Removes and returns the first entry.
    pub fn take_first(&mut self) -> (e: (String, V))
        requires
            old(self).wf(),
            old(self).pairs().len() > 0,
        ensures
            final(self).wf(),
            (e.0@, e.1) == old(self).pairs()[0],
            final(self).pairs() == old(self).pairs().drop_first(),
            old(self)@.contains_key(e.0@),
            old(self)@[e.0@] == e.1,
            final(self)@ == old(self)@.remove(e.0@),
    {
        let ghost s = self.pairs();
        proof {
            lemma_lookup_distinct(s, 0);
        }
        let e = self.entries.remove(0);
        proof {
            assert(self.pairs() =~= s.remove(0));
            assert(s.remove(0) =~= s.drop_first());
            assert forall|q: Seq<char>| #[trigger] self.lookup(q) == if q == s[0].0 {
                None
            } else {
                seq_lookup(s, q)
            } by {
                lemma_lookup_remove(s, 0, q);
            }
            lemma_lookup_remove(s, 0, s[0].0);
            assert(self@ =~= old(self)@.remove(e.0@));
        }
        e
    }

    /// Removes (and returns) the value stored under `k`.
    pub fn remove(&mut self, k: &str) -> (old_v: Option<V>)
        requires
            old(self).wf(),
        ensures
            final(self).wf(),
            old_v == old(self).lookup(k@),
            forall|q: Seq<char>| #[trigger]
                final(self).lookup(q) == if q == k@ {
                    None
                } else {
                    old(self).lookup(q)
                },
            final(self)@ == old(self)@.remove(k@),
    {
        let ghost s = self.pairs();
        match self.find(k) {
            Some(i) => {
                let (_, old_value) = self.entries.remove(i);
                proof {
                    assert(self.pairs() =~= s.remove(i as int));
                    assert forall|q: Seq<char>| #[trigger]
                        self.lookup(q) == if q == k@ {
                            None
                        } else {
                            seq_lookup(s, q)
                        } by {
                        lemma_lookup_remove(s, i as int, q);
                    }
                    lemma_lookup_remove(s, i as int, k@);
                    assert(self@ =~= old(self)@.remove(k@));
                }
                Some(old_value)
            },
            None => {
                proof {
                    assert forall|q: Seq<char>| #[trigger]
                        self.lookup(q) == if q == k@ {
                            None
                        } else {
                            seq_lookup(s, q)
                        } by {}
                    assert(self@ =~= old(self)@.remove(k@));
                }
                None
            },
        }
    }
}


/// Maps with the same entries are the same map.
pub proof fn lemma_same_pairs_same_map<V>(a: &NameMap<V>, b: &NameMap<V>)
    requires
        a.pairs() == b.pairs(),
    ensures
        a@ == b@,
{
    assert(a@ =~= b@);
}

/// The map obtained by inserting the entries of `s` in order, later entries
/// overriding earlier ones with the same key.
pub open spec fn inserts_map<V>(s: Seq<(Seq<char>, V)>) -> Map<Seq<char>, V>
    decreases s.len(),
{
    if s.len() == 0 {
        Map::empty()
    } else {
        inserts_map(s.drop_last()).insert(s.last().0, s.last().1)
    }
}

/// Mapping values commutes with inserting.
pub proof fn lemma_map_values_insert<V, W>(m: Map<Seq<char>, V>, k: Seq<char>, v: V, f: spec_fn(V) -> W)
    ensures
        m.insert(k, v).map_values(f) == m.map_values(f).insert(k, f(v)),
{
    assert(m.insert(k, v).map_values(f) =~= m.map_values(f).insert(k, f(v)));
}

/// Mapping values of the empty map gives the empty map.
pub proof fn lemma_map_values_empty<V, W>(f: spec_fn(V) -> W)
    ensures
        Map::<Seq<char>, V>::empty().map_values(f) == Map::<Seq<char>, W>::empty(),
{
    assert(Map::<Seq<char>, V>::empty().map_values(f) =~= Map::<Seq<char>, W>::empty());
}

/// A new map's view is empty.
pub proof fn lemma_empty_view<V>(m: &NameMap<V>)
    requires
        m.pairs().len() == 0,
    ensures
        m@ == Map::<Seq<char>, V>::empty(),
{
    assert(m@ =~= Map::<Seq<char>, V>::empty());
}

/// A map with no entries is the empty map, and the other way round.
pub proof fn lemma_empty_iff<V>(m: &NameMap<V>)
    ensures
        (m.pairs().len() == 0) <==> (m@.dom() == Set::<Seq<char>>::empty()),
{
    if m.pairs().len() == 0 {
        assert(m@.dom() =~= Set::<Seq<char>>::empty());
    } else {
        let k = m.pairs()[0].0;
        assert(seq_lookup(m.pairs(), k) == Some(m.pairs()[0].1));
        assert(m@.dom().contains(k));
    }
}

/// Replacing the value of one entry stores it under that entry's key.
pub proof fn lemma_update_entry<V>(before: &NameMap<V>, after: &NameMap<V>, i: int, v: V)
    requires
        before.wf(),
        0 <= i < before.pairs().len(),
        after.pairs() == before.pairs().update(i, (before.pairs()[i].0, v)),
    ensures
        after.wf(),
        after@ == before@.insert(before.pairs()[i].0, v),
        after.key_seq() == before.key_seq(),
{
    let s = before.pairs();
    assert forall|q: Seq<char>| #[trigger] after.lookup(q) == if q == s[i].0 {
        Some(v)
    } else {
        seq_lookup(s, q)
    } by {
        lemma_lookup_update(s, i, v, q);
    }
    assert forall|a: int, b: int| 0 <= a < b < after.pairs().len() implies #[trigger] after.pairs()[a].0
        != #[trigger] after.pairs()[b].0 by {
        assert(s[a].0 != s[b].0);
    }
    assert(after@ =~= before@.insert(s[i].0, v));
    assert(after.key_seq() =~= before.key_seq());
}

/// `base` with the pairs of `s` inserted in order (a later pair wins).
pub open spec fn inserts_onto<V>(base: Map<Seq<char>, V>, s: Seq<(Seq<char>, V)>) -> Map<Seq<char>, V>
    decreases s.len(),
{
    if s.len() == 0 {
        base
    } else {
        inserts_onto(base, s.drop_last()).insert(s.last().0, s.last().1)
    }
}

/// Inserting pairs with distinct keys in order is a union that prefers them.
pub proof fn lemma_inserts_onto_distinct<V>(base: Map<Seq<char>, V>, s: Seq<(Seq<char>, V)>)
    requires
        keys_distinct(s),
    ensures
        inserts_onto(base, s) == base.union_prefer_right(Map::new(
            |k: Seq<char>| seq_lookup(s, k) is Some,
            |k: Seq<char>| seq_lookup(s, k)->0,
        )),
    decreases s.len(),
{
    let m = Map::new(|k: Seq<char>| seq_lookup(s, k) is Some, |k: Seq<char>| seq_lookup(s, k)->0);
    if s.len() == 0 {
        assert(base.union_prefer_right(m) =~= base);
    } else {
        let t = s.drop_last();
        assert(keys_distinct(t)) by {
            assert forall|i: int, j: int| 0 <= i < j < t.len() implies t[i].0 != t[j].0 by {
                assert(t[i] == s[i] && t[j] == s[j]);
            }
        }
        lemma_inserts_onto_distinct(base, t);
        let mt = Map::new(|k: Seq<char>| seq_lookup(t, k) is Some, |k: Seq<char>| seq_lookup(t, k)->0);
        let x = s.last();
        assert(!seq_has_key(t, x.0)) by {
            if seq_has_key(t, x.0) {
                let i = choose|i: int| 0 <= i < t.len() && #[trigger] t[i].0 == x.0;
                assert(s[i].0 == s[s.len() - 1].0);
            }
        }
        assert forall|k: Seq<char>| #![auto] seq_lookup(s, k) == if k == x.0 { Some(x.1) } else { seq_lookup(t, k) } by {
            lemma_lookup_push(t, x.0, x.1, k);
            assert(t.push(x) =~= s);
            if k == x.0 {
                lemma_lookup_distinct(s, s.len() - 1);
            }
        }
        assert(inserts_onto(base, s) =~= base.union_prefer_right(mt).insert(x.0, x.1));
        assert(base.union_prefer_right(mt).insert(x.0, x.1) =~= base.union_prefer_right(m));
    }
}


impl NameMap<String> {
    /// A copy of the map, entry for entry.
    pub fn copy(&self) -> (r: Self)
        ensures
            r.pairs() == self.pairs(),
            r@ == self@,
    {
        let mut entries: Vec<(String, String)> = Vec::new();
        let mut i: usize = 0;
        while i < self.entries.len()
            invariant
                i <= self.entries.len(),
                entries@.map_values(|e: (String, String)| (e.0@, e.1)) == self.pairs().take(i as int),
            decreases self.entries.len() - i,
        {
            let k = self.entries[i].0.clone();
            let v = self.entries[i].1.clone();
            let ghost before = entries@.map_values(|e: (String, String)| (e.0@, e.1));
            entries.push((k, v));
            proof {
                assert(entries@.map_values(|e: (String, String)| (e.0@, e.1)) =~= before.push((k@, v)));
                assert(self.pairs().take(i + 1) =~= self.pairs().take(i as int).push(self.pairs()[i as int]));
            }
            i = i + 1;
        }
        assert(self.pairs().take(self.entries.len() as int) =~= self.pairs());
        let r = NameMap { entries };
        assert(r.pairs() =~= self.pairs());
        assert(r@ =~= self@);
        r
    }
}


/// A key is among the keys exactly when the map holds it.
pub proof fn lemma_key_seq_contains<V>(m: &NameMap<V>, k: Seq<char>)
    ensures
        m.key_seq().contains(k) <==> m@.contains_key(k),
{
    lemma_lookup_none(m.pairs(), k);
    if m.key_seq().contains(k) {
        let i = choose|i: int| 0 <= i < m.key_seq().len() && m.key_seq()[i] == k;
        assert(m.pairs()[i].0 == k);
    }
    if seq_has_key(m.pairs(), k) {
        let i = choose|i: int| 0 <= i < m.pairs().len() && #[trigger] m.pairs()[i].0 == k;
        assert(m.key_seq()[i] == k);
    }
}

} // verus!
