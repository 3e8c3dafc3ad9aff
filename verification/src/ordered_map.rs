use vstd::prelude::*;

verus! {

/// How one key stands to another in the order of a map.
#[derive(Clone, Copy, Debug, PartialEq, Eq, Structural)]
pub enum KeyOrder {
    Before,
    Same,
    After,
}

/// A key type with a strict total order on its views.
pub trait OrderedKey: View + Sized {
    /// The strict order in which a map holds its keys.
    spec fn key_lt(a: Self::V, b: Self::V) -> bool;

    /// `key_lt` is irreflexive, transitive and total.
    proof fn lemma_strict_total_order(a: Self::V, b: Self::V, c: Self::V)
        ensures
            !Self::key_lt(a, a),
            Self::key_lt(a, b) && Self::key_lt(b, c) ==> Self::key_lt(a, c),
            a == b || Self::key_lt(a, b) || Self::key_lt(b, a),
    ;

    /// How `self` stands to `other`.
    fn compare(&self, other: &Self) -> (r: KeyOrder)
        ensures
            (r is Before) == Self::key_lt(self@, other@),
            (r is Same) == (self@ == other@),
            (r is After) == Self::key_lt(other@, self@),
    ;

    /// A key with the same view.
    fn duplicate(&self) -> (r: Self)
        ensures
            r@ == self@,
    ;
}

/// Every key of `s` stands before all that follow it.
pub open spec fn strictly_ascending<K: OrderedKey>(s: Seq<K::V>) -> bool {
    forall|i: int, j: int| 0 <= i < j < s.len() ==> K::key_lt(#[trigger] s[i], #[trigger] s[j])
}

/// No key occurs twice in an ascending sequence.
pub proof fn lemma_ascending_distinct<K: OrderedKey>(s: Seq<K::V>)
    requires
        strictly_ascending::<K>(s),
    ensures
        forall|i: int, j: int| 0 <= i < s.len() && 0 <= j < s.len() && s[i] == s[j] ==> i == j,
{
    assert forall|i: int, j: int| 0 <= i < s.len() && 0 <= j < s.len() && s[i] == s[j] implies i
        == j by {
        K::lemma_strict_total_order(s[i], s[j], s[j]);
        if i < j {
            assert(K::key_lt(s[i], s[j]));
        } else if j < i {
            assert(K::key_lt(s[j], s[i]));
        }
    }
}

/// The keys of a set, in ascending order.
pub open spec fn ascending_keys<K: OrderedKey>(keys: Set<K::V>) -> Seq<K::V> {
    choose|s: Seq<K::V>| strictly_ascending::<K>(s) && s.to_set() == keys
}

/// Two ascending sequences with the same keys are the same sequence.
pub proof fn lemma_ascending_unique<K: OrderedKey>(a: Seq<K::V>, b: Seq<K::V>)
    requires
        strictly_ascending::<K>(a),
        strictly_ascending::<K>(b),
        a.to_set() == b.to_set(),
    ensures
        a == b,
    decreases a.len(),
{
    if a.len() == 0 {
        if b.len() > 0 {
            assert(b.contains(b[0]));
            assert(b.to_set().contains(b[0]));
            assert(a.contains(b[0]));
        }
        assert(a =~= b);
    } else {
        let x = a.last();
        assert(a.contains(x));
        assert(a.to_set().contains(x));
        assert(b.contains(x));
        let y = b.last();
        assert(b.contains(y));
        assert(b.to_set().contains(y));
        assert(a.contains(y));
        let i = choose|i: int| 0 <= i < b.len() && b[i] == x;
        let j = choose|j: int| 0 <= j < a.len() && a[j] == y;
        K::lemma_strict_total_order(x, y, x);
        if i < b.len() - 1 {
            assert(K::key_lt(b[i], b[b.len() - 1]));
        }
        if j < a.len() - 1 {
            assert(K::key_lt(a[j], a[a.len() - 1]));
        }
        assert(x == y);
        let a0 = a.drop_last();
        let b0 = b.drop_last();
        assert forall|k: K::V| a0.to_set().contains(k) == b0.to_set().contains(k) by {
            K::lemma_strict_total_order(k, x, k);
            if a0.contains(k) {
                let p = choose|p: int| 0 <= p < a0.len() && a0[p] == k;
                assert(a[p] == k);
                assert(K::key_lt(a[p], a[a.len() - 1]));
                assert(a.contains(k));
                assert(a.to_set().contains(k));
                assert(b.contains(k));
                let q = choose|q: int| 0 <= q < b.len() && b[q] == k;
                assert(q < b.len() - 1);
                assert(b0[q] == k);
            }
            if b0.contains(k) {
                let p = choose|p: int| 0 <= p < b0.len() && b0[p] == k;
                assert(b[p] == k);
                assert(K::key_lt(b[p], b[b.len() - 1]));
                assert(b.contains(k));
                assert(b.to_set().contains(k));
                assert(a.contains(k));
                let q = choose|q: int| 0 <= q < a.len() && a[q] == k;
                assert(q < a.len() - 1);
                assert(a0[q] == k);
            }
        }
        assert(a0.to_set() =~= b0.to_set());
        assert forall|p: int, q: int| 0 <= p < q < a0.len() implies K::key_lt(
            #[trigger] a0[p],
            #[trigger] a0[q],
        ) by {
            assert(K::key_lt(a[p], a[q]));
        }
        assert forall|p: int, q: int| 0 <= p < q < b0.len() implies K::key_lt(
            #[trigger] b0[p],
            #[trigger] b0[q],
        ) by {
            assert(K::key_lt(b[p], b[q]));
        }
        lemma_ascending_unique::<K>(a0, b0);
        assert(a =~= a0.push(x));
        assert(b =~= b0.push(y));
    }
}

/// A map from keys to values that holds its entries in ascending key order.
#[derive(Debug)]
pub struct OrderedMap<K: OrderedKey, V> {
    entries: Vec<(K, V)>,
}

impl<K: OrderedKey, V> View for OrderedMap<K, V> {
    type V = Map<K::V, V>;

    /// The map from each key's view to the value held under it.
    open spec fn view(&self) -> Map<K::V, V> {
        Map::new(
            |k: K::V| self.key_seq().contains(k),
            |k: K::V| self.value_seq()[self.key_seq().index_of(k)],
        )
    }
}

impl<K: OrderedKey, V> OrderedMap<K, V> {
    /// The views of the keys, in the order in which the map holds them.
    pub closed spec fn key_seq(&self) -> Seq<K::V> {
        self.entries@.map_values(|e: (K, V)| e.0@)
    }

    /// The values, in the order of their keys.
    pub closed spec fn value_seq(&self) -> Seq<V> {
        self.entries@.map_values(|e: (K, V)| e.1)
    }

    /// The keys ascend strictly, and each has its value.
    #[verifier::type_invariant]
    pub open spec fn wf(self) -> bool {
        &&& self.key_seq().len() == self.value_seq().len()
        &&& strictly_ascending::<K>(self.key_seq())
    }

    /// In a well-formed map the entry at each position is the one that the
    /// view holds under that position's key.
    pub proof fn lemma_entries(self)
        requires
            self.wf(),
        ensures
            self@.dom().finite(),
            self@.dom().len() == self.key_seq().len(),
            forall|i: int|
                0 <= i < self.key_seq().len() ==> self@.dom().contains(#[trigger] self.key_seq()[i])
                    && self@[self.key_seq()[i]] == self.value_seq()[i],
            forall|k: K::V| self@.dom().contains(k) <==> self.key_seq().contains(k),
    {
        let ks = self.key_seq();
        lemma_ascending_distinct::<K>(ks);
        assert forall|i: int| 0 <= i < ks.len() implies self@.dom().contains(#[trigger] ks[i])
            && self@[ks[i]] == self.value_seq()[i] by {
            assert(ks.contains(ks[i]));
            let j = ks.index_of(ks[i]);
            assert(ks[j] == ks[i]);
        }
        assert(ks.no_duplicates());
        ks.unique_seq_to_set();
        assert(self@.dom() =~= ks.to_set());
    }

    /// The keys of a well-formed map stand in the one ascending order of
    /// its domain.
    pub proof fn lemma_key_order(self)
        requires
            self.wf(),
        ensures
            self.key_seq() == ascending_keys::<K>(self@.dom()),
    {
        self.lemma_entries();
        let ks = self.key_seq();
        assert(ks.to_set() =~= self@.dom());
        let chosen = ascending_keys::<K>(self@.dom());
        assert(strictly_ascending::<K>(chosen) && chosen.to_set() == self@.dom());
        lemma_ascending_unique::<K>(ks, chosen);
    }

    /// Two well-formed maps with the same keys whose values agree under
    /// `f`, position by position, have the same view under `f`.
    pub proof fn lemma_mapped_views_agree<W>(self, other: Self, f: spec_fn(V) -> W)
        requires
            self.wf(),
            other.wf(),
            self.key_seq() == other.key_seq(),
            forall|i: int|
                0 <= i < self.value_seq().len() ==> f(#[trigger] self.value_seq()[i]) == f(
                    other.value_seq()[i],
                ),
        ensures
            self@.map_values(f) == other@.map_values(f),
    {
        self.lemma_entries();
        other.lemma_entries();
        let ks = self.key_seq();
        assert forall|k: K::V| self@.dom().contains(k) implies f(self@[k]) == f(other@[k]) by {
            let i = ks.index_of(k);
            assert(ks[i] == k);
            assert(self@[ks[i]] == self.value_seq()[i]);
            assert(other@[ks[i]] == other.value_seq()[i]);
        }
        assert(self@.map_values(f) =~= other@.map_values(f));
    }

    pub fn new() -> (m: Self)
        ensures
            m@ == Map::<K::V, V>::empty(),
            m.key_seq() == Seq::<K::V>::empty(),
            m.value_seq() == Seq::<V>::empty(),
    {
        let m = OrderedMap { entries: Vec::new() };
        proof {
            assert(m.key_seq() =~= Seq::<K::V>::empty());
            assert(m.value_seq() =~= Seq::<V>::empty());
            assert(m@ =~= Map::<K::V, V>::empty());
        }
        m
    }

    pub fn len(&self) -> (n: usize)
        ensures
            n == self.key_seq().len(),
            n == self.value_seq().len(),
            n == self@.dom().len(),
    {
        proof {
            use_type_invariant(self);
            self.lemma_entries();
        }
        self.entries.len()
    }

    pub fn is_empty(&self) -> (b: bool)
        ensures
            b == (self.key_seq().len() == 0),
            b == (self@ == Map::<K::V, V>::empty()),
    {
        proof {
            use_type_invariant(self);
            self.lemma_entries();
            if self.key_seq().len() == 0 {
                assert(self@ =~= Map::<K::V, V>::empty());
            } else {
                assert(self@.dom().contains(self.key_seq()[0]));
            }
        }
        self.entries.len() == 0
    }

    /// The position of `key`, or the one at which it would be put.
    fn search(&self, key: &K) -> (r: (bool, usize))
        ensures
            r.1 <= self.key_seq().len(),
            r.0 ==> r.1 < self.key_seq().len() && self.key_seq()[r.1 as int] == key@,
            r.0 == self.key_seq().contains(key@),
            forall|i: int| 0 <= i < r.1 ==> K::key_lt(#[trigger] self.key_seq()[i], key@),
            forall|i: int|
                r.1 <= i < self.key_seq().len() && !(r.0 && i == r.1) ==> K::key_lt(
                    key@,
                    #[trigger] self.key_seq()[i],
                ),
    {
        proof {
            use_type_invariant(self);
        }
        let ghost ks = self.key_seq();
        let mut lo: usize = 0;
        let mut hi: usize = self.entries.len();
        while lo < hi
            invariant
                lo <= hi <= self.entries.len(),
                ks == self.key_seq(),
                ks.len() == self.entries.len(),
                strictly_ascending::<K>(ks),
                forall|i: int| 0 <= i < lo ==> K::key_lt(#[trigger] ks[i], key@),
                forall|i: int| hi <= i < ks.len() ==> K::key_lt(key@, #[trigger] ks[i]),
            decreases hi - lo,
        {
            let mid = lo + (hi - lo) / 2;
            let ghost mk = ks[mid as int];
            assert(self.entries[mid as int].0@ == mk);
            match key.compare(&self.entries[mid].0) {
                KeyOrder::Same => {
                    proof {
                        assert forall|i: int| mid <= i < ks.len() && i != mid implies K::key_lt(
                            key@,
                            #[trigger] ks[i],
                        ) by {
                            assert(K::key_lt(ks[mid as int], ks[i]));
                        }
                        assert forall|i: int| 0 <= i < mid implies K::key_lt(
                            #[trigger] ks[i],
                            key@,
                        ) by {
                            assert(K::key_lt(ks[i], ks[mid as int]));
                        }
                    }
                    return (true, mid);
                },
                KeyOrder::Before => {
                    proof {
                        assert forall|i: int| mid <= i < ks.len() implies K::key_lt(
                            key@,
                            #[trigger] ks[i],
                        ) by {
                            if i > mid {
                                assert(K::key_lt(ks[mid as int], ks[i]));
                                K::lemma_strict_total_order(key@, mk, ks[i]);
                            }
                        }
                    }
                    hi = mid;
                },
                KeyOrder::After => {
                    proof {
                        assert forall|i: int| 0 <= i < mid + 1 implies K::key_lt(
                            #[trigger] ks[i],
                            key@,
                        ) by {
                            if i < mid {
                                assert(K::key_lt(ks[i], ks[mid as int]));
                                K::lemma_strict_total_order(ks[i], mk, key@);
                            }
                        }
                    }
                    lo = mid + 1;
                },
            }
        }
        proof {
            if ks.contains(key@) {
                let i = ks.index_of(key@);
                K::lemma_strict_total_order(key@, key@, key@);
            }
        }
        (false, lo)
    }

    pub fn contains_key(&self, key: &K) -> (b: bool)
        ensures
            b == self@.dom().contains(key@),
    {
        self.search(key).0
    }

    pub fn get(&self, key: &K) -> (r: Option<&V>)
        ensures
            r == (if self@.dom().contains(key@) {
                Some(&self@[key@])
            } else {
                None
            }),
    {
        let (found, i) = self.search(key);
        if found {
            proof {
                use_type_invariant(self);
                self.lemma_entries();
            }
            Some(&self.entries[i].1)
        } else {
            None
        }
    }

    /// The position that `key` has among the keys, if the map holds it.
    pub fn position(&self, key: &K) -> (r: Option<usize>)
        ensures
            match r {
                Some(i) => i < self.key_seq().len() && self.key_seq()[i as int] == key@,
                None => !self@.dom().contains(key@),
            },
    {
        let (found, i) = self.search(key);
        if found {
            Some(i)
        } else {
            None
        }
    }

    pub fn key_at(&self, i: usize) -> (k: &K)
        requires
            i < self.key_seq().len(),
        ensures
            k@ == self.key_seq()[i as int],
    {
        &self.entries[i].0
    }

    pub fn value_at(&self, i: usize) -> (v: &V)
        requires
            i < self.key_seq().len(),
        ensures
            *v == self.value_seq()[i as int],
    {
        proof {
            use_type_invariant(self);
        }
        &self.entries[i].1
    }

    /// Puts `value` under `key`. Returns the value that the key had before.
    pub fn insert(&mut self, key: K, value: V) -> (r: Option<V>)
        ensures
            final(self)@ == old(self)@.insert(key@, value),
            r == (if old(self)@.dom().contains(key@) {
                Some(old(self)@[key@])
            } else {
                None
            }),
    {
        proof {
            use_type_invariant(&*self);
            self.lemma_entries();
        }
        let (found, i) = self.search(&key);
        let ghost ks = self.key_seq();
        let ghost vs = self.value_seq();
        let ghost before = self@;
        let mut entries: Vec<(K, V)> = Vec::new();
        core::mem::swap(&mut entries, &mut self.entries);
        let result = if found {
            let (kept, old_value) = entries.remove(i);
            entries.insert(i, (kept, value));
            Some(old_value)
        } else {
            entries.insert(i, (key, value));
            None
        };
        let ghost nks = entries@.map_values(|e: (K, V)| e.0@);
        let ghost nvs = entries@.map_values(|e: (K, V)| e.1);
        proof {
            if found {
                assert(nks =~= ks);
                assert(nvs =~= vs.update(i as int, value));
            } else {
                assert(nks =~= ks.insert(i as int, key@));
                assert(nvs =~= vs.insert(i as int, value));
                assert forall|a: int, b: int| 0 <= a < b < nks.len() implies K::key_lt(
                    #[trigger] nks[a],
                    #[trigger] nks[b],
                ) by {
                    if a == i {
                        assert(nks[b] == ks[b - 1]);
                    } else if b == i {
                        assert(nks[a] == ks[a]);
                    } else {
                        let a0 = if a < i { a } else { a - 1 };
                        let b0 = if b < i { b } else { b - 1 };
                        assert(nks[a] == ks[a0] && nks[b] == ks[b0]);
                    }
                }
            }
        }
        self.entries = entries;
        proof {
            assert(self.key_seq() == nks);
            assert(self.value_seq() == nvs);
            self.lemma_entries();
            lemma_ascending_distinct::<K>(nks);
            let after = before.insert(key@, value);
            assert forall|k: K::V| self@.dom().contains(k) == after.dom().contains(k) by {
                if nks.contains(k) {
                    let j = nks.index_of(k);
                    if !found {
                        if j != i {
                            let j0 = if j < i { j } else { j - 1 };
                            assert(ks[j0] == k);
                        }
                    }
                }
                if ks.contains(k) {
                    let j = ks.index_of(k);
                    if !found {
                        let j1 = if j < i { j } else { j + 1 };
                        assert(nks[j1] == k);
                    }
                }
                if k == key@ {
                    assert(nks[i as int] == key@);
                }
            }
            assert forall|k: K::V| self@.dom().contains(k) implies self@[k] == after[k] by {
                let j = nks.index_of(k);
                assert(nks[j] == k);
                assert(self@[nks[j]] == nvs[j]);
                if found {
                    if j != i {
                        assert(before[ks[j]] == vs[j]);
                    }
                } else {
                    if j != i {
                        let j0 = if j < i { j } else { j - 1 };
                        assert(ks[j0] == k);
                        assert(before[ks[j0]] == vs[j0]);
                    }
                }
            }
            assert(self@ =~= after);
        }
        result
    }

    /// Takes `key` and its value out of the map. Returns the value.
    pub fn remove(&mut self, key: &K) -> (r: Option<V>)
        ensures
            final(self)@ == old(self)@.remove(key@),
            r == (if old(self)@.dom().contains(key@) {
                Some(old(self)@[key@])
            } else {
                None
            }),
    {
        proof {
            use_type_invariant(&*self);
            self.lemma_entries();
        }
        let (found, i) = self.search(key);
        let ghost ks = self.key_seq();
        let ghost vs = self.value_seq();
        let ghost before = self@;
        if !found {
            proof {
                assert(before.remove(key@) =~= before);
            }
            return None;
        }
        let mut entries: Vec<(K, V)> = Vec::new();
        core::mem::swap(&mut entries, &mut self.entries);
        let (_, old_value) = entries.remove(i);
        let ghost nks = entries@.map_values(|e: (K, V)| e.0@);
        let ghost nvs = entries@.map_values(|e: (K, V)| e.1);
        proof {
            assert(nks =~= ks.remove(i as int));
            assert(nvs =~= vs.remove(i as int));
            assert forall|a: int, b: int| 0 <= a < b < nks.len() implies K::key_lt(
                #[trigger] nks[a],
                #[trigger] nks[b],
            ) by {
                let a0 = if a < i { a } else { a + 1 };
                let b0 = if b < i { b } else { b + 1 };
                assert(nks[a] == ks[a0] && nks[b] == ks[b0]);
            }
        }
        self.entries = entries;
        proof {
            assert(self.key_seq() == nks);
            assert(self.value_seq() == nvs);
            self.lemma_entries();
            lemma_ascending_distinct::<K>(ks);
            let after = before.remove(key@);
            assert forall|k: K::V| self@.dom().contains(k) == after.dom().contains(k) by {
                if nks.contains(k) {
                    let j = nks.index_of(k);
                    let j0 = if j < i { j } else { j + 1 };
                    assert(ks[j0] == k);
                }
                if ks.contains(k) && k != key@ {
                    let j = ks.index_of(k);
                    let j1 = if j < i { j } else { j - 1 };
                    assert(nks[j1] == k);
                }
            }
            assert forall|k: K::V| self@.dom().contains(k) implies self@[k] == after[k] by {
                let j = nks.index_of(k);
                assert(nks[j] == k);
                assert(self@[nks[j]] == nvs[j]);
                let j0 = if j < i { j } else { j + 1 };
                assert(ks[j0] == k);
                assert(before[ks[j0]] == vs[j0]);
            }
            assert(self@ =~= after);
        }
        Some(old_value)
    }

    /// Puts `value` in the place of the value at position `i`, and returns
    /// the value that stood there. The keys stay as they are.
    pub fn replace_value_at(&mut self, i: usize, value: V) -> (r: V)
        requires
            i < old(self).key_seq().len(),
        ensures
            r == old(self).value_seq()[i as int],
            final(self).key_seq() == old(self).key_seq(),
            final(self).value_seq() == old(self).value_seq().update(i as int, value),
            final(self)@ == old(self)@.insert(old(self).key_seq()[i as int], value),
    {
        proof {
            use_type_invariant(&*self);
            self.lemma_entries();
        }
        let ghost ks = self.key_seq();
        let ghost vs = self.value_seq();
        let ghost before = self@;
        let mut entries: Vec<(K, V)> = Vec::new();
        core::mem::swap(&mut entries, &mut self.entries);
        let (kept, old_value) = entries.remove(i);
        entries.insert(i, (kept, value));
        proof {
            assert(entries@.map_values(|e: (K, V)| e.0@) =~= ks);
            assert(entries@.map_values(|e: (K, V)| e.1) =~= vs.update(i as int, value));
        }
        self.entries = entries;
        proof {
            self.lemma_entries();
            lemma_ascending_distinct::<K>(ks);
            let after = before.insert(ks[i as int], value);
            assert forall|k: K::V| self@.dom().contains(k) == after.dom().contains(k) by {
                if k == ks[i as int] {
                    assert(ks.contains(k));
                }
            }
            assert forall|k: K::V| self@.dom().contains(k) implies self@[k] == after[k] by {
                let j = ks.index_of(k);
                assert(ks[j] == k);
                assert(self@[ks[j]] == self.value_seq()[j]);
                assert(before[ks[j]] == vs[j]);
            }
            assert(self@ =~= after);
        }
        old_value
    }
}

impl<K: OrderedKey, V: Clone> Clone for OrderedMap<K, V> {
    /// A map with the same keys, each with a clone of its value.
    fn clone(&self) -> (r: Self)
        ensures
            r.key_seq() == self.key_seq(),
            r.value_seq().len() == self.value_seq().len(),
            forall|i: int|
                0 <= i < self.value_seq().len() ==> cloned::<V>(
                    #[trigger] self.value_seq()[i],
                    r.value_seq()[i],
                ),
    {
        proof {
            use_type_invariant(self);
        }
        let mut entries: Vec<(K, V)> = Vec::new();
        let n = self.entries.len();
        let mut i: usize = 0;
        while i < n
            invariant
                i <= n,
                n == self.entries.len(),
                entries@.len() == i,
                forall|j: int| 0 <= j < i ==> (#[trigger] entries@[j]).0@ == self.entries@[j].0@,
                forall|j: int|
                    0 <= j < i ==> cloned::<V>(self.entries@[j].1, (#[trigger] entries@[j]).1),
            decreases n - i,
        {
            let k = self.entries[i].0.duplicate();
            let v = self.entries[i].1.clone();
            entries.push((k, v));
            i += 1;
        }
        proof {
            assert(entries@.map_values(|e: (K, V)| e.0@) =~= self.key_seq());
        }
        OrderedMap { entries }
    }
}

impl<K: OrderedKey, V> Default for OrderedMap<K, V> {
    fn default() -> (m: Self)
        ensures
            m@ == Map::<K::V, V>::empty(),
            m.key_seq() == Seq::<K::V>::empty(),
    {
        OrderedMap::new()
    }
}

} // verus!
