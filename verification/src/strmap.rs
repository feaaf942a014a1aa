use vstd::prelude::*;

verus! {

/// A map from string keys to values, each key held at most once.
///
/// Its model is a `Map` from the keys' characters to the values; the order in
/// which entries are kept carries no meaning.
#[derive(Debug)]
pub struct StrMap<V> {
    entries: Vec<(String, V)>,
}

impl<V> StrMap<V> {
    /// No key occurs twice among the entries.
    #[verifier::type_invariant]
    closed spec fn keys_distinct(&self) -> bool {
        forall|i: int, j: int|
            0 <= i < self.entries@.len() && 0 <= j < self.entries@.len() && i != j
                ==> #[trigger] self.entries@[i].0@ != #[trigger] self.entries@[j].0@
    }

    /// The entries in the order in which they are kept.
    pub closed spec fn spec_entries(&self) -> Seq<(String, V)> {
        self.entries@
    }

    /// Some entry has the key `k`.
    pub closed spec fn has_key(&self, k: Seq<char>) -> bool {
        exists|i: int| 0 <= i < self.entries@.len() && #[trigger] self.entries@[i].0@ == k
    }

    /// The value of the entry whose key is `k`.
    pub closed spec fn value_of(&self, k: Seq<char>) -> V {
        self.entries@[choose|i: int| 0 <= i < self.entries@.len() && #[trigger] self.entries@[i].0@ == k].1
    }

    proof fn lemma_value_at(&self, i: int)
        requires
            0 <= i < self.entries@.len(),
            self.keys_distinct(),
        ensures
            self.has_key(self.entries@[i].0@),
            self.value_of(self.entries@[i].0@) == self.entries@[i].1,
    {
        let k = self.entries@[i].0@;
        assert(self.entries@[i].0@ == k);
        let j = choose|j: int| 0 <= j < self.entries@.len() && #[trigger] self.entries@[j].0@ == k;
        assert(self.entries@[j].0@ == k);
        assert(i == j);
    }

    /// Each value held is smaller than the map that holds it.
    pub proof fn lemma_entries_decrease(&self, i: int)
        requires
            0 <= i < self.spec_entries().len(),
        ensures
            decreases_to!(*self => self.spec_entries()[i].1),
    {
        assert(decreases_to!(*self => self.entries));
        assert(decreases_to!(self.entries => self.entries@));
        assert(decreases_to!(self.entries@ => self.entries@[i]));
        assert(decreases_to!(self.entries@[i] => self.entries@[i].1));
    }

    /// Each value of the map is smaller than the map that holds it.
    pub proof fn lemma_value_decreases(&self, k: Seq<char>)
        requires
            self@.contains_key(k),
        ensures
            decreases_to!(*self => self@[k]),
    {
        self.lemma_value_is_entry(k);
    }

    proof fn lemma_value_is_entry(&self, k: Seq<char>)
        requires
            self@.contains_key(k),
        ensures
            decreases_to!(*self => self@[k]),
    {
        assert forall|i: int| 0 <= i < self.entries@.len() implies decreases_to!(*self => #[trigger] self.entries@[i].1) by {
            self.lemma_entries_decrease(i);
        }
        assert(self.has_key(k));
        assert(self@[k] == self.value_of(k));
    }

    /// Creates an empty map.
    pub fn new() -> (m: Self)
        ensures
            m@ == Map::<Seq<char>, V>::empty(),
            m.spec_entries().len() == 0,
    {
        let m = StrMap { entries: Vec::new() };
        assert(m@ =~= Map::<Seq<char>, V>::empty());
        m
    }

    /// Returns the number of keys.
    pub fn len(&self) -> (n: usize)
        ensures
            n == self.spec_entries().len(),
            n == self@.dom().len(),
            self@.dom().finite(),
    {
        proof {
            use_type_invariant(self);
            self.lemma_dom_len();
        }
        self.entries.len()
    }

    /// Returns whether the map holds no key.
    pub fn is_empty(&self) -> (b: bool)
        ensures
            b == (self@ == Map::<Seq<char>, V>::empty()),
    {
        proof {
            use_type_invariant(self);
            if self.entries@.len() > 0 {
                self.lemma_value_at(0);
                assert(self@.contains_key(self.entries@[0].0@));
            } else {
                assert(self@ =~= Map::<Seq<char>, V>::empty());
            }
        }
        self.entries.len() == 0
    }

    /// Position of the key `key` among the entries, if it is there.
    fn find(&self, key: &String) -> (r: Option<usize>)
        ensures
            match r {
                Some(i) => i < self.entries@.len() && self.entries@[i as int].0@ == key@,
                None => !self.has_key(key@),
            },
    {
        let n = self.entries.len();
        let mut i: usize = 0;
        while i < n
            invariant
                n == self.entries@.len(),
                i <= n,
                forall|j: int| 0 <= j < i ==> #[trigger] self.entries@[j].0@ != key@,
            decreases n - i,
        {
            if self.entries[i].0 == *key {
                return Some(i);
            }
            i = i + 1;
        }
        None
    }

    /// Returns the value whose key is `key`, if there is one.
    pub fn get(&self, key: &str) -> (r: Option<&V>)
        ensures
            r is Some <==> self@.contains_key(key@),
            r matches Some(v) ==> *v == self@[key@],
    {
        proof {
            use_type_invariant(self);
        }
        let k = key.to_owned();
        match self.find(&k) {
            Some(i) => {
                proof {
                    self.lemma_value_at(i as int);
                }
                Some(&self.entries[i].1)
            },
            None => None,
        }
    }

    /// Returns whether the key `key` is in the map.
    pub fn contains_key(&self, key: &str) -> (b: bool)
        ensures
            b == self@.contains_key(key@),
    {
        self.get(key).is_some()
    }

    /// Sets the value of `key` to `value`, in place of any value it had.
    pub fn insert(&mut self, key: String, value: V)
        ensures
            final(self)@ == old(self)@.insert(key@, value),
    {
        proof {
            use_type_invariant(&*self);
        }
        let ghost old_self = *self;
        let ghost old_entries = self.entries@;
        match self.find(&key) {
            Some(i) => {
                let mut entries: Vec<(String, V)> = Vec::new();
                std::mem::swap(&mut entries, &mut self.entries);
                entries.set(i, (key, value));
                self.entries = entries;
                proof {
                    assert(self.entries@ == old_entries.update(i as int, (key, value)));
                    assert forall|a: int, b: int|
                        0 <= a < self.entries@.len() && 0 <= b < self.entries@.len() && a != b
                            implies #[trigger] self.entries@[a].0@ != #[trigger] self.entries@[b].0@ by {
                        assert(old_entries[a].0@ != old_entries[b].0@);
                    }
                    Self::lemma_view_update(old_self, *self, i as int, key, value);
                }
            },
            None => {
                let mut entries: Vec<(String, V)> = Vec::new();
                std::mem::swap(&mut entries, &mut self.entries);
                entries.push((key, value));
                self.entries = entries;
                proof {
                    assert forall|a: int, b: int|
                        0 <= a < self.entries@.len() && 0 <= b < self.entries@.len() && a != b
                            implies #[trigger] self.entries@[a].0@ != #[trigger] self.entries@[b].0@ by {
                        if a < old_entries.len() && b < old_entries.len() {
                            assert(old_entries[a].0@ != old_entries[b].0@);
                        } else if a < old_entries.len() {
                            assert(old_entries[a].0@ == self.entries@[a].0@);
                        } else {
                            assert(old_entries[b].0@ == self.entries@[b].0@);
                        }
                    }
                    Self::lemma_view_push(old_self, *self, key, value);
                }
            },
        }
    }

    /// Removes the key `key`, returning its value if it was there.
    pub fn remove(&mut self, key: &str) -> (r: Option<V>)
        ensures
            final(self)@ == old(self)@.remove(key@),
            r is Some <==> old(self)@.contains_key(key@),
            r matches Some(v) ==> v == old(self)@[key@],
    {
        proof {
            use_type_invariant(&*self);
        }
        let ghost old_self = *self;
        let ghost old_entries = self.entries@;
        let k = key.to_owned();
        match self.find(&k) {
            Some(i) => {
                proof {
                    self.lemma_value_at(i as int);
                }
                let mut entries: Vec<(String, V)> = Vec::new();
                std::mem::swap(&mut entries, &mut self.entries);
                let (_, v) = entries.remove(i);
                self.entries = entries;
                proof {
                    assert(self.entries@ == old_entries.remove(i as int));
                    assert forall|a: int, b: int|
                        0 <= a < self.entries@.len() && 0 <= b < self.entries@.len() && a != b
                            implies #[trigger] self.entries@[a].0@ != #[trigger] self.entries@[b].0@ by {
                        let oa = if a < i { a } else { a + 1 };
                        let ob = if b < i { b } else { b + 1 };
                        assert(self.entries@[a] == old_entries[oa]);
                        assert(self.entries@[b] == old_entries[ob]);
                        assert(old_entries[oa].0@ != old_entries[ob].0@);
                    }
                    Self::lemma_view_remove(old_self, *self, i as int);
                }
                Some(v)
            },
            None => {
                proof {
                    assert(self@ =~= old_self@.remove(key@));
                }
                None
            },
        }
    }

    /// The entries, each key once, in the order in which they are kept.
    pub fn entries(&self) -> (r: &Vec<(String, V)>)
        ensures
            r@ == self.spec_entries(),
            forall|i: int| 0 <= i < r@.len() ==> self@.contains_key(#[trigger] r@[i].0@)
                && self@[r@[i].0@] == r@[i].1,
            forall|k: Seq<char>| #[trigger] self@.contains_key(k)
                ==> exists|i: int| 0 <= i < r@.len() && #[trigger] r@[i].0@ == k,
    {
        proof {
            use_type_invariant(self);
            assert forall|i: int| 0 <= i < self.entries@.len() implies self@.contains_key(#[trigger] self.entries@[i].0@)
                && self@[self.entries@[i].0@] == self.entries@[i].1 by {
                self.lemma_value_at(i);
            }
        }
        &self.entries
    }

    proof fn lemma_dom_len(&self)
        requires
            self.keys_distinct(),
        ensures
            self@.dom().finite(),
            self@.dom().len() == self.entries@.len(),
        decreases self.entries@.len(),
    {
        let s = self.entries@.map_values(|e: (String, V)| e.0@);
        assert forall|i: int, j: int| 0 <= i < s.len() && 0 <= j < s.len() && i != j implies s[i] != s[j] by {
            assert(s[i] == self.entries@[i].0@);
            assert(s[j] == self.entries@[j].0@);
        }
        assert(s.no_duplicates());
        s.unique_seq_to_set();
        assert forall|k: Seq<char>| #[trigger] self@.dom().contains(k) <==> s.to_set().contains(k) by {
            if self@.dom().contains(k) {
                let i = choose|i: int| 0 <= i < self.entries@.len() && #[trigger] self.entries@[i].0@ == k;
                assert(s[i] == k);
            }
            if s.to_set().contains(k) {
                let i = choose|i: int| 0 <= i < s.len() && s[i] == k;
                assert(self.entries@[i].0@ == k);
            }
        }
        assert(self@.dom() =~= s.to_set());
    }

    proof fn lemma_view_update(old_m: Self, new_m: Self, i: int, key: String, value: V)
        requires
            old_m.keys_distinct(),
            new_m.keys_distinct(),
            0 <= i < old_m.entries@.len(),
            old_m.entries@[i].0@ == key@,
            new_m.entries@ == old_m.entries@.update(i, (key, value)),
        ensures
            new_m@ == old_m@.insert(key@, value),
    {
        assert forall|k: Seq<char>| #[trigger] new_m@.contains_key(k) <==> old_m@.insert(key@, value).contains_key(k) by {
            if new_m.has_key(k) {
                let j = choose|j: int| 0 <= j < new_m.entries@.len() && #[trigger] new_m.entries@[j].0@ == k;
                if j != i {
                    assert(old_m.entries@[j].0@ == k);
                }
            }
            if old_m.has_key(k) {
                let j = choose|j: int| 0 <= j < old_m.entries@.len() && #[trigger] old_m.entries@[j].0@ == k;
                assert(new_m.entries@[j].0@ == k);
            }
            if k == key@ {
                assert(new_m.entries@[i].0@ == k);
            }
        }
        assert forall|k: Seq<char>| #[trigger] new_m@.contains_key(k) implies new_m@[k] == old_m@.insert(key@, value)[k] by {
            let j = choose|j: int| 0 <= j < new_m.entries@.len() && #[trigger] new_m.entries@[j].0@ == k;
            new_m.lemma_value_at(j);
            if j != i {
                old_m.lemma_value_at(j);
            }
        }
        assert(new_m@ =~= old_m@.insert(key@, value));
    }

    proof fn lemma_view_push(old_m: Self, new_m: Self, key: String, value: V)
        requires
            old_m.keys_distinct(),
            new_m.keys_distinct(),
            !old_m.has_key(key@),
            new_m.entries@ == old_m.entries@.push((key, value)),
        ensures
            new_m@ == old_m@.insert(key@, value),
    {
        let n = old_m.entries@.len() as int;
        assert forall|k: Seq<char>| #[trigger] new_m@.contains_key(k) <==> old_m@.insert(key@, value).contains_key(k) by {
            if new_m.has_key(k) {
                let j = choose|j: int| 0 <= j < new_m.entries@.len() && #[trigger] new_m.entries@[j].0@ == k;
                if j != n {
                    assert(old_m.entries@[j].0@ == k);
                }
            }
            if old_m.has_key(k) {
                let j = choose|j: int| 0 <= j < old_m.entries@.len() && #[trigger] old_m.entries@[j].0@ == k;
                assert(new_m.entries@[j].0@ == k);
            }
            if k == key@ {
                assert(new_m.entries@[n].0@ == k);
            }
        }
        assert forall|k: Seq<char>| #[trigger] new_m@.contains_key(k) implies new_m@[k] == old_m@.insert(key@, value)[k] by {
            let j = choose|j: int| 0 <= j < new_m.entries@.len() && #[trigger] new_m.entries@[j].0@ == k;
            new_m.lemma_value_at(j);
            if j != n {
                old_m.lemma_value_at(j);
            }
        }
        assert(new_m@ =~= old_m@.insert(key@, value));
    }

    proof fn lemma_view_remove(old_m: Self, new_m: Self, i: int)
        requires
            old_m.keys_distinct(),
            new_m.keys_distinct(),
            0 <= i < old_m.entries@.len(),
            new_m.entries@ == old_m.entries@.remove(i),
        ensures
            new_m@ == old_m@.remove(old_m.entries@[i].0@),
    {
        let key = old_m.entries@[i].0@;
        assert forall|k: Seq<char>| #[trigger] new_m@.contains_key(k) <==> old_m@.remove(key).contains_key(k) by {
            if new_m.has_key(k) {
                let j = choose|j: int| 0 <= j < new_m.entries@.len() && #[trigger] new_m.entries@[j].0@ == k;
                let oj = if j < i { j } else { j + 1 };
                assert(new_m.entries@[j] == old_m.entries@[oj]);
                assert(old_m.entries@[oj].0@ == k);
                assert(oj != i);
            }
            if old_m.has_key(k) && k != key {
                let j = choose|j: int| 0 <= j < old_m.entries@.len() && #[trigger] old_m.entries@[j].0@ == k;
                assert(j != i);
                let nj = if j < i { j } else { j - 1 };
                assert(new_m.entries@[nj] == old_m.entries@[j]);
                assert(new_m.entries@[nj].0@ == k);
            }
        }
        assert forall|k: Seq<char>| #[trigger] new_m@.contains_key(k) implies new_m@[k] == old_m@.remove(key)[k] by {
            let j = choose|j: int| 0 <= j < new_m.entries@.len() && #[trigger] new_m.entries@[j].0@ == k;
            let oj = if j < i { j } else { j + 1 };
            assert(new_m.entries@[j] == old_m.entries@[oj]);
            new_m.lemma_value_at(j);
            old_m.lemma_value_at(oj);
        }
        assert(new_m@ =~= old_m@.remove(key));
    }
}

/// A read gives back what the last write of its key wrote, and a write leaves
/// every other key as it was.
pub proof fn law_read_after_write<V>(m: Map<Seq<char>, V>, k: Seq<char>, v: V, other: Seq<char>)
    requires
        other != k,
    ensures
        m.insert(k, v).contains_key(k),
        m.insert(k, v)[k] == v,
        m.insert(k, v).contains_key(other) == m.contains_key(other),
        m.contains_key(other) ==> m.insert(k, v)[other] == m[other],
        !m.remove(k).contains_key(k),
{
}

impl<V: Clone> Clone for StrMap<V> {
    fn clone(&self) -> (r: Self)
        ensures
            r@.dom() == self@.dom(),
            forall|k: Seq<char>| #[trigger] r@.contains_key(k) ==> cloned::<V>(self@[k], r@[k]),
    {
        proof {
            use_type_invariant(self);
        }
        let n = self.entries.len();
        let mut entries: Vec<(String, V)> = Vec::new();
        let mut i: usize = 0;
        while i < n
            invariant
                n == self.entries@.len(),
                i <= n,
                entries@.len() == i,
                forall|j: int| 0 <= j < i ==> (#[trigger] entries@[j]).0@ == self.entries@[j].0@
                    && cloned::<V>(self.entries@[j].1, entries@[j].1),
            decreases n - i,
        {
            let k = self.entries[i].0.clone();
            let v = self.entries[i].1.clone();
            entries.push((k, v));
            i = i + 1;
        }
        proof {
            assert forall|a: int, b: int|
                0 <= a < entries@.len() && 0 <= b < entries@.len() && a != b
                    implies #[trigger] entries@[a].0@ != #[trigger] entries@[b].0@ by {
                assert(self.entries@[a].0@ != self.entries@[b].0@);
            }
        }
        let r = StrMap { entries };
        proof {
            assert forall|k: Seq<char>| #[trigger] r@.contains_key(k) <==> self@.contains_key(k) by {
                if r.has_key(k) {
                    let j = choose|j: int| 0 <= j < r.entries@.len() && #[trigger] r.entries@[j].0@ == k;
                    assert(self.entries@[j].0@ == k);
                }
                if self.has_key(k) {
                    let j = choose|j: int| 0 <= j < self.entries@.len() && #[trigger] self.entries@[j].0@ == k;
                    assert(r.entries@[j].0@ == k);
                }
            }
            assert(r@.dom() =~= self@.dom());
            assert forall|k: Seq<char>| #[trigger] r@.contains_key(k) implies cloned::<V>(self@[k], r@[k]) by {
                let j = choose|j: int| 0 <= j < r.entries@.len() && #[trigger] r.entries@[j].0@ == k;
                r.lemma_value_at(j);
                assert(self.entries@[j].0@ == k);
                self.lemma_value_at(j);
            }
        }
        r
    }
}

impl<V> View for StrMap<V> {
    type V = Map<Seq<char>, V>;

    closed spec fn view(&self) -> Map<Seq<char>, V> {
        Map::new(|k: Seq<char>| self.has_key(k), |k: Seq<char>| self.value_of(k))
    }
}

} // verus!
