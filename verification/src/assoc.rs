use vstd::prelude::*;

verus! {

/// Keys of an [`AssocMap`]; two keys are the same key when their views agree.
pub trait MapKey: View + Sized {
    fn same_key(&self, other: &Self) -> (same: bool)
        ensures
            same == (self@ == other@),
    ;
}

impl MapKey for String {
    fn same_key(&self, other: &Self) -> (same: bool) {
        *self == *other
    }
}

impl MapKey for u8 {
    fn same_key(&self, other: &Self) -> (same: bool) {
        *self == *other
    }
}

/// No key occurs twice among the pairs.
pub open spec fn keys_distinct<A, B>(s: Seq<(A, B)>) -> bool {
    forall|i: int, j: int| 0 <= i < s.len() && 0 <= j < s.len() && i != j ==> s[i].0 != s[j].0
}

/// The map that a sequence of pairs with distinct keys describes.
pub open spec fn pairs_to_map<A, B>(s: Seq<(A, B)>) -> Map<A, B> {
    Map::new(
        |k: A| exists|i: int| 0 <= i < s.len() && s[i].0 == k,
        |k: A| s[choose|i: int| 0 <= i < s.len() && s[i].0 == k].1,
    )
}

proof fn lemma_pairs_to_map_at<A, B>(s: Seq<(A, B)>, i: int)
    requires
        keys_distinct(s),
        0 <= i < s.len(),
    ensures
        pairs_to_map(s).contains_key(s[i].0),
        pairs_to_map(s)[s[i].0] == s[i].1,
{
    let k = s[i].0;
    assert(exists|j: int| 0 <= j < s.len() && s[j].0 == k);
    let j = choose|j: int| 0 <= j < s.len() && s[j].0 == k;
    assert(j == i);
}

proof fn lemma_update_view<A, B>(s: Seq<(A, B)>, i: int, k: A, v: B)
    requires
        keys_distinct(s),
        0 <= i < s.len(),
        s[i].0 == k,
    ensures
        pairs_to_map(s.update(i, (k, v))) == pairs_to_map(s).insert(k, v),
{
    let t = s.update(i, (k, v));
    let m = pairs_to_map(s).insert(k, v);
    assert forall|x: A| #[trigger] pairs_to_map(t).contains_key(x) == m.contains_key(x) by {
        if pairs_to_map(s).contains_key(x) {
            let j = choose|j: int| 0 <= j < s.len() && s[j].0 == x;
            assert(t[j].0 == x);
        }
        if pairs_to_map(t).contains_key(x) {
            let j = choose|j: int| 0 <= j < t.len() && t[j].0 == x;
            if j != i {
                assert(s[j].0 == x);
            }
        }
        if x == k {
            assert(t[i].0 == x);
        }
    }
    assert forall|x: A| #[trigger] pairs_to_map(t).contains_key(x) implies pairs_to_map(t)[x]
        == m[x] by {
        let j = choose|j: int| 0 <= j < t.len() && t[j].0 == x;
        if j != i {
            assert(s[j].0 == x);
            lemma_pairs_to_map_at(s, j);
        }
    }
    assert(pairs_to_map(t) =~= m);
}

proof fn lemma_push_view<A, B>(s: Seq<(A, B)>, k: A, v: B)
    requires
        keys_distinct(s),
        forall|j: int| 0 <= j < s.len() ==> s[j].0 != k,
    ensures
        keys_distinct(s.push((k, v))),
        pairs_to_map(s.push((k, v))) == pairs_to_map(s).insert(k, v),
{
    let t = s.push((k, v));
    let m = pairs_to_map(s).insert(k, v);
    assert forall|x: A| #[trigger] pairs_to_map(t).contains_key(x) == m.contains_key(x) by {
        if pairs_to_map(s).contains_key(x) {
            let j = choose|j: int| 0 <= j < s.len() && s[j].0 == x;
            assert(t[j].0 == x);
        }
        if pairs_to_map(t).contains_key(x) && x != k {
            let j = choose|j: int| 0 <= j < t.len() && t[j].0 == x;
            assert(s[j].0 == x);
        }
        if x == k {
            assert(t[s.len() as int].0 == x);
        }
    }
    assert forall|x: A| #[trigger] pairs_to_map(t).contains_key(x) implies pairs_to_map(t)[x]
        == m[x] by {
        let j = choose|j: int| 0 <= j < t.len() && t[j].0 == x;
        if j != s.len() {
            assert(s[j].0 == x);
            lemma_pairs_to_map_at(s, j);
        }
    }
    assert(pairs_to_map(t) =~= m);
}

/// The pairs after storing `v` under `k`: a present key keeps its place and
/// takes the new value, a new key goes last.
pub open spec fn seq_insert<A, B>(s: Seq<(A, B)>, k: A, v: B) -> Seq<(A, B)> {
    if exists|i: int| 0 <= i < s.len() && s[i].0 == k {
        s.update(choose|i: int| 0 <= i < s.len() && s[i].0 == k, (k, v))
    } else {
        s.push((k, v))
    }
}

/// Storing a value keeps the keys distinct, and changes the map that the
/// pairs describe as `Map::insert` does.
pub proof fn lemma_seq_insert<A, B>(s: Seq<(A, B)>, k: A, v: B)
    requires
        keys_distinct(s),
    ensures
        keys_distinct(seq_insert(s, k, v)),
        pairs_to_map(seq_insert(s, k, v)) == pairs_to_map(s).insert(k, v),
{
    if exists|i: int| 0 <= i < s.len() && s[i].0 == k {
        let i = choose|i: int| 0 <= i < s.len() && s[i].0 == k;
        lemma_update_view(s, i, k, v);
        assert(keys_distinct(s.update(i, (k, v))));
    } else {
        lemma_push_view(s, k, v);
    }
}

/// The value stored under `k`, if any.
pub open spec fn seq_lookup<A, B>(s: Seq<(A, B)>, k: A) -> Option<B> {
    if exists|i: int| 0 <= i < s.len() && s[i].0 == k {
        Some(s[choose|i: int| 0 <= i < s.len() && s[i].0 == k].1)
    } else {
        None
    }
}

/// Looking up a key after an insertion finds the inserted value under the
/// inserted key and what was there before under any other key.
pub proof fn lemma_lookup_insert<A, B>(s: Seq<(A, B)>, k: A, v: B, k2: A)
    requires
        keys_distinct(s),
    ensures
        seq_lookup(seq_insert(s, k, v), k2) == if k2 == k {
            Some(v)
        } else {
            seq_lookup(s, k2)
        },
{
    let t = seq_insert(s, k, v);
    lemma_seq_insert(s, k, v);
    if exists|i: int| 0 <= i < s.len() && s[i].0 == k {
        let i = choose|i: int| 0 <= i < s.len() && s[i].0 == k;
        assert(t == s.update(i, (k, v)));
        if k2 == k {
            assert(t[i].0 == k2);
            let j = choose|j: int| 0 <= j < t.len() && t[j].0 == k2;
            assert(j == i);
        } else {
            if exists|j: int| 0 <= j < s.len() && s[j].0 == k2 {
                let j = choose|j: int| 0 <= j < s.len() && s[j].0 == k2;
                assert(t[j].0 == k2);
                let j2 = choose|j2: int| 0 <= j2 < t.len() && t[j2].0 == k2;
                assert(j2 == j);
            } else {
                assert forall|j: int| 0 <= j < t.len() implies t[j].0 != k2 by {
                    if j != i {
                        assert(t[j] == s[j]);
                    }
                }
            }
        }
    } else {
        assert(t == s.push((k, v)));
        if k2 == k {
            assert(t[s.len() as int].0 == k2);
            let j = choose|j: int| 0 <= j < t.len() && t[j].0 == k2;
            assert(j == s.len());
        } else {
            if exists|j: int| 0 <= j < s.len() && s[j].0 == k2 {
                let j = choose|j: int| 0 <= j < s.len() && s[j].0 == k2;
                assert(t[j].0 == k2);
                let j2 = choose|j2: int| 0 <= j2 < t.len() && t[j2].0 == k2;
                assert(j2 == j);
            } else {
                assert forall|j: int| 0 <= j < t.len() implies t[j].0 != k2 by {
                    if j < s.len() {
                        assert(t[j] == s[j]);
                    }
                }
            }
        }
    }
}

/// A map kept as a vector of pairs in insertion order, in which no key
/// occurs twice. Inserting a present key replaces its value in place.
/// Its view is the sequence of pairs, each taken by its view.
#[derive(Debug)]
pub struct AssocMap<K: MapKey, V: View> {
    entries: Vec<(K, V)>,
}

impl<K: MapKey, V: View> View for AssocMap<K, V> {
    type V = Seq<(K::V, V::V)>;

    closed spec fn view(&self) -> Seq<(K::V, V::V)> {
        self.entries@.map_values(|e: (K, V)| (e.0@, e.1@))
    }
}

impl<K: MapKey, V: View> AssocMap<K, V> {
    #[verifier::type_invariant]
    closed spec fn well_formed(self) -> bool {
        keys_distinct(self@)
    }

    /// An empty map.
    pub fn new() -> (m: Self)
        ensures
            m@ == Seq::<(K::V, V::V)>::empty(),
    {
        let m = AssocMap { entries: Vec::new() };
        assert(m@ =~= Seq::<(K::V, V::V)>::empty());
        m
    }

    /// The number of keys.
    pub fn len(&self) -> (n: usize)
        ensures
            n == self@.len(),
            keys_distinct(self@),
    {
        proof {
            use_type_invariant(self);
        }
        self.entries.len()
    }

    /// Where the key stands among the pairs, if it is present.
    fn position(&self, key: &K) -> (r: Option<usize>)
        ensures
            r matches Some(i) ==> i < self@.len() && self@[i as int].0 == key@,
            r is None ==> forall|i: int| 0 <= i < self@.len() ==> self@[i].0 != key@,
    {
        let n = self.entries.len();
        let mut i: usize = 0;
        while i < n
            invariant
                n == self.entries@.len(),
                i <= n,
                forall|j: int| 0 <= j < i ==> self@[j].0 != key@,
            decreases n - i,
        {
            if self.entries[i].0.same_key(key) {
                return Some(i);
            }
            i = i + 1;
        }
        None
    }

    /// The value stored under `key`, if any.
    pub fn get(&self, key: &K) -> (r: Option<&V>)
        ensures
            r is Some <==> seq_lookup(self@, key@) is Some,
            r matches Some(v) ==> seq_lookup(self@, key@) == Some(v@),
            keys_distinct(self@),
    {
        proof {
            use_type_invariant(self);
        }
        match self.position(key) {
            Some(i) => {
                let v = &self.entries[i].1;
                assert(self@[i as int].1 == v@);
                let ghost j = choose|j: int| 0 <= j < self@.len() && self@[j].0 == key@;
                assert(j == i);
                Some(v)
            },
            None => None,
        }
    }

    /// Stores `value` under `key`; a present key keeps its place and takes the new value.
    pub fn insert(&mut self, key: K, value: V)
        ensures
            final(self)@ == seq_insert(old(self)@, key@, value@),
    {
        proof {
            use_type_invariant(&*self);
        }
        let ghost old_pairs = self@;
        let ghost kv = key@;
        let ghost vv = value@;
        let pos = self.position(&key);
        let mut entries: Vec<(K, V)> = Vec::new();
        std::mem::swap(&mut entries, &mut self.entries);
        assert(entries@.map_values(|e: (K, V)| (e.0@, e.1@)) == old_pairs);
        match pos {
            Some(i) => {
                entries.set(i, (key, value));
                proof {
                    let j = choose|j: int| 0 <= j < old_pairs.len() && old_pairs[j].0 == kv;
                    assert(j == i);
                    assert(entries@.map_values(|e: (K, V)| (e.0@, e.1@)) =~= seq_insert(
                        old_pairs,
                        kv,
                        vv,
                    ));
                }
            },
            None => {
                entries.push((key, value));
                assert(entries@.map_values(|e: (K, V)| (e.0@, e.1@)) =~= seq_insert(
                    old_pairs,
                    kv,
                    vv,
                ));
            },
        }
        proof {
            lemma_seq_insert(old_pairs, kv, vv);
        }
        self.entries = entries;
    }

    /// The keys, in insertion order.
    pub fn keys(&self) -> (r: Vec<&K>)
        ensures
            r@.len() == self@.len(),
            forall|i: int| 0 <= i < r@.len() ==> #[trigger] r@[i]@ == self@[i].0,
            keys_distinct(self@),
    {
        proof {
            use_type_invariant(self);
        }
        let mut r: Vec<&K> = Vec::new();
        let n = self.entries.len();
        for i in 0..n
            invariant
                n == self.entries@.len(),
                r@.len() == i,
                forall|j: int| 0 <= j < i ==> r@[j]@ == self@[j].0,
        {
            r.push(&self.entries[i].0);
        }
        r
    }

    /// The values, in insertion order.
    pub fn values(&self) -> (r: Vec<&V>)
        ensures
            r@.len() == self@.len(),
            forall|i: int| 0 <= i < r@.len() ==> #[trigger] r@[i]@ == self@[i].1,
            keys_distinct(self@),
    {
        proof {
            use_type_invariant(self);
        }
        let mut r: Vec<&V> = Vec::new();
        let n = self.entries.len();
        for i in 0..n
            invariant
                n == self.entries@.len(),
                r@.len() == i,
                forall|j: int| 0 <= j < i ==> r@[j]@ == self@[j].1,
        {
            r.push(&self.entries[i].1);
        }
        r
    }
}

} // verus!
