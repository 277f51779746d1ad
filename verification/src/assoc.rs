//! Small maps kept as lists of pairs with distinct keys, for keys compared by value.
use vstd::prelude::*;

verus! {

/// A key that can be compared and copied by value.
pub trait MapKey: Sized {
    type KV;

    /// The key as a plain value.
    spec fn kv(&self) -> Self::KV;

    /// Whether two keys are the same value.
    fn same_key(&self, other: &Self) -> (r: bool)
        ensures
            r == (self.kv() == other.kv());

    /// A copy of the key.
    fn copy_key(&self) -> (r: Self)
        ensures
            r.kv() == self.kv();
}

impl MapKey for String {
    type KV = Seq<char>;

    open spec fn kv(&self) -> Seq<char> {
        self@
    }

    fn same_key(&self, other: &Self) -> (r: bool) {
        *self == *other
    }

    fn copy_key(&self) -> (r: Self) {
        self.clone()
    }
}

impl MapKey for (String, String) {
    type KV = (Seq<char>, Seq<char>);

    open spec fn kv(&self) -> (Seq<char>, Seq<char>) {
        (self.0@, self.1@)
    }

    fn same_key(&self, other: &Self) -> (r: bool) {
        self.0 == other.0 && self.1 == other.1
    }

    fn copy_key(&self) -> (r: Self) {
        (self.0.clone(), self.1.clone())
    }
}

/// A map kept as a list of pairs, each key once, in the order keys were first inserted.
pub struct AssocMap<K, V> {
    entries: Vec<(K, V)>,
}

impl<K: MapKey, V> AssocMap<K, V> {
    /// The keys, in list order.
    pub closed spec fn keys(&self) -> Seq<K::KV> {
        self.entries@.map_values(|e: (K, V)| e.0.kv())
    }

    /// The values, in list order.
    pub closed spec fn ordered_values(&self) -> Seq<V> {
        self.entries@.map_values(|e: (K, V)| e.1)
    }

    /// Well-formed: each key once.
    pub closed spec fn wf(&self) -> bool {
        self.keys().no_duplicates()
    }

    /// The map.
    pub closed spec fn view(&self) -> Map<K::KV, V> {
        Map::new(
            |k: K::KV| self.keys().contains(k),
            |k: K::KV| self.ordered_values()[self.keys().index_of(k)],
        )
    }

    pub fn new() -> (r: AssocMap<K, V>)
        ensures
            r.wf(),
            r.view() == Map::<K::KV, V>::empty(),
            r.keys().len() == 0,
    {
        let r = AssocMap { entries: Vec::new() };
        assert(r.view() =~= Map::<K::KV, V>::empty());
        r
    }

    /// Number of pairs.
    pub fn len(&self) -> (r: usize)
        ensures
            r == self.keys().len(),
    {
        self.entries.len()
    }

    /// Whether the map is empty.
    pub fn is_empty(&self) -> (r: bool)
        requires
            self.wf(),
        ensures
            r == self.view().is_empty(),
    {
        proof {
            if self.keys().len() > 0 {
                assert(self.view().contains_key(self.keys()[0]));
            }
            if self.keys().len() == 0 {
                assert(self.view() =~= Map::<K::KV, V>::empty());
            }
        }
        self.entries.len() == 0
    }

    /// The key at a position.
    pub fn key_at(&self, i: usize) -> (r: &K)
        requires
            i < self.keys().len(),
        ensures
            r.kv() == self.keys()[i as int],
    {
        &self.entries[i].0
    }

    /// The value at a position.
    pub fn value_at(&self, i: usize) -> (r: &V)
        requires
            i < self.keys().len(),
        ensures
            *r == self.ordered_values()[i as int],
    {
        &self.entries[i].1
    }

    /// Lists the keys in order and ties them to the map.
    pub proof fn lemma_ordered(&self)
        requires
            self.wf(),
        ensures
            self.keys().len() == self.ordered_values().len(),
            forall|i: int| 0 <= i < self.keys().len() ==> #[trigger] self.view().contains_key(self.keys()[i])
                && self.view()[self.keys()[i]] == self.ordered_values()[i],
            forall|k: K::KV| #[trigger] self.view().contains_key(k) ==> self.keys().contains(k),
    {
        assert forall|i: int| 0 <= i < self.keys().len() implies #[trigger] self.view().contains_key(self.keys()[i])
            && self.view()[self.keys()[i]] == self.ordered_values()[i] by {
            lemma_no_dup_index(self.keys(), i);
        }
    }

    fn find(&self, key: &K) -> (r: Option<usize>)
        requires
            self.wf(),
        ensures
            match r {
                Some(i) => i < self.keys().len() && self.keys()[i as int] == key.kv()
                    && self.keys().index_of(key.kv()) == i,
                None => !self.keys().contains(key.kv()),
            },
    {
        let mut i: usize = 0;
        while i < self.entries.len()
            invariant
                0 <= i <= self.entries.len(),
                self.wf(),
                forall|j: int| 0 <= j < i ==> #[trigger] self.keys()[j] != key.kv(),
            decreases self.entries.len() - i,
        {
            if self.entries[i].0.same_key(key) {
                proof {
                    lemma_no_dup_index(self.keys(), i as int);
                }
                return Some(i);
            }
            i = i + 1;
        }
        None
    }

    /// Whether the key is in the map.
    pub fn contains_key(&self, key: &K) -> (r: bool)
        requires
            self.wf(),
        ensures
            r == self.view().contains_key(key.kv()),
    {
        self.find(key).is_some()
    }

    /// The value of a key.
    pub fn get(&self, key: &K) -> (r: Option<&V>)
        requires
            self.wf(),
        ensures
            match r {
                Some(v) => self.view().contains_key(key.kv()) && *v == self.view()[key.kv()],
                None => !self.view().contains_key(key.kv()),
            },
    {
        match self.find(key) {
            Some(i) => Some(&self.entries[i].1),
            None => None,
        }
    }

    /// Sets the value of a key; a new key goes last.
    pub fn insert(&mut self, key: K, value: V)
        requires
            old(self).wf(),
        ensures
            final(self).wf(),
            final(self).view() == old(self).view().insert(key.kv(), value),
    {
        let ghost old_keys = self.keys();
        let ghost old_vals = self.ordered_values();
        let ghost old_view = self.view();
        let ghost k = key.kv();
        match self.find(&key) {
            Some(i) => {
                self.entries.set(i, (key, value));
                proof {
                    assert(self.keys() =~= old_keys.update(i as int, k));
                    assert(self.keys() =~= old_keys);
                    assert(self.ordered_values() =~= old_vals.update(i as int, value));
                    assert forall|kk: K::KV| #[trigger] self.view().contains_key(kk) implies self.view()[kk] == old_view.insert(k, value)[kk] by {
                        let j = old_keys.index_of(kk);
                        assert(old_keys.contains(kk));
                        lemma_no_dup_index(old_keys, j);
                    }
                    assert(self.view() =~= old_view.insert(k, value));
                }
            },
            None => {
                self.entries.push((key, value));
                proof {
                    let nk = self.keys();
                    assert(nk =~= old_keys.push(k));
                    assert(self.ordered_values() =~= old_vals.push(value));
                    assert forall|a: int, b: int| 0 <= a < nk.len() && 0 <= b < nk.len() && a != b implies nk[a] != nk[b] by {
                        if a < old_keys.len() && b < old_keys.len() {
                        } else if a == old_keys.len() {
                            assert(old_keys[b] != k);
                        } else {
                            assert(old_keys[a] != k);
                        }
                    }
                    assert(nk.no_duplicates());
                    assert forall|kk: K::KV| nk.contains(kk) <==> (kk == k || old_keys.contains(kk)) by {
                        if nk.contains(kk) && kk != k {
                            let jj = nk.index_of(kk);
                            assert(old_keys[jj] == kk);
                        }
                        if old_keys.contains(kk) {
                            let jj = old_keys.index_of(kk);
                            assert(nk[jj] == kk);
                        }
                        if kk == k {
                            assert(nk[old_keys.len() as int] == kk);
                        }
                    }
                    assert forall|kk: K::KV| #[trigger] self.view().contains_key(kk) implies self.view()[kk] == old_view.insert(k, value)[kk] by {
                        if kk == k {
                            lemma_no_dup_index(nk, old_keys.len() as int);
                        } else {
                            let j = old_keys.index_of(kk);
                            assert(old_keys.contains(kk));
                            assert(nk[j] == kk);
                            lemma_no_dup_index(nk, j);
                        }
                    }
                    assert(self.view() =~= old_view.insert(k, value));
                }
            },
        }
    }

    /// Removes a key, handing back its value.
    pub fn remove(&mut self, key: &K) -> (r: Option<V>)
        requires
            old(self).wf(),
        ensures
            final(self).wf(),
            final(self).view() == old(self).view().remove(key.kv()),
            r == old(self).view().get(key.kv()),
    {
        let ghost old_keys = self.keys();
        let ghost old_vals = self.ordered_values();
        let ghost old_view = self.view();
        let ghost k = key.kv();
        match self.find(key) {
            Some(i) => {
                let (_, v) = self.entries.remove(i);
                proof {
                    let nk = self.keys();
                    assert(nk =~= old_keys.remove(i as int));
                    assert(self.ordered_values() =~= old_vals.remove(i as int));
                    assert forall|a: int, b: int| 0 <= a < nk.len() && 0 <= b < nk.len() && a != b implies nk[a] != nk[b] by {
                        let oa = if a < i { a } else { a + 1 };
                        let ob = if b < i { b } else { b + 1 };
                        assert(nk[a] == old_keys[oa]);
                        assert(nk[b] == old_keys[ob]);
                    }
                    assert(nk.no_duplicates());
                    assert forall|kk: K::KV| nk.contains(kk) <==> (kk != k && old_keys.contains(kk)) by {
                        if nk.contains(kk) {
                            let jj = nk.index_of(kk);
                            let oj = if jj < i { jj } else { jj + 1 };
                            assert(old_keys[oj] == kk);
                            assert(oj != i);
                        }
                        if kk != k && old_keys.contains(kk) {
                            let jj = old_keys.index_of(kk);
                            if jj < i {
                                assert(nk[jj] == kk);
                            } else {
                                assert(jj != i);
                                assert(nk[jj - 1] == kk);
                            }
                        }
                    }
                    assert forall|kk: K::KV| #[trigger] self.view().contains_key(kk) implies self.view()[kk] == old_view.remove(k)[kk] by {
                        let jj = nk.index_of(kk);
                        assert(nk.contains(kk));
                        lemma_no_dup_index(nk, jj);
                        let oj = if jj < i { jj } else { jj + 1 };
                        assert(old_keys[oj] == kk);
                        lemma_no_dup_index(old_keys, oj);
                    }
                    assert(self.view() =~= old_view.remove(k));
                    lemma_no_dup_index(old_keys, i as int);
                }
                Some(v)
            },
            None => {
                proof {
                    assert(self.view() =~= old_view.remove(k));
                }
                None
            },
        }
    }
}

/// In a sequence without duplicates, an element is found at its own position.
pub proof fn lemma_no_dup_index<A>(s: Seq<A>, i: int)
    requires
        s.no_duplicates(),
        0 <= i < s.len(),
    ensures
        s.contains(s[i]),
        s.index_of(s[i]) == i,
{
    assert(s.contains(s[i]));
    let j = s.index_of(s[i]);
    assert(s[j] == s[i]);
}

} // verus!
