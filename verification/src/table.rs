//! A map from peer ids to values, kept in the order of the ids' bytes (the order of a
//! `BTreeMap` keyed by libp2p `PeerId`).
use vstd::prelude::*;
use crate::bytes::{bytes_lt, compare_bytes, ByteOrder, lemma_bytes_lt_transitive, lemma_bytes_lt_irreflexive};
use crate::peer::PeerId;

verus! {

/// Keys in strictly increasing order.
pub open spec fn keys_sorted(keys: Seq<Seq<u8>>) -> bool {
    forall|i: int, j: int| 0 <= i < j < keys.len() ==> bytes_lt(#[trigger] keys[i], #[trigger] keys[j])
}

/// The position of a key in a key sequence.
pub open spec fn key_index(keys: Seq<Seq<u8>>, k: Seq<u8>) -> int {
    choose|i: int| 0 <= i < keys.len() && keys[i] == k
}

/// A table of values keyed by peer id.
pub struct PeerTable<V> {
    entries: Vec<(PeerId, V)>,
}

impl<V> PeerTable<V> {
    /// The keys, in table order.
    pub closed spec fn keys(&self) -> Seq<Seq<u8>> {
        self.entries@.map_values(|e: (PeerId, V)| e.0@)
    }

    /// The values, in table order.
    pub closed spec fn ordered_values(&self) -> Seq<V> {
        self.entries@.map_values(|e: (PeerId, V)| e.1)
    }

    /// Well-formed: keys strictly increasing.
    pub closed spec fn wf(&self) -> bool {
        keys_sorted(self.keys())
    }

    /// The table as a map.
    pub closed spec fn view(&self) -> Map<Seq<u8>, V> {
        Map::new(
            |k: Seq<u8>| self.keys().contains(k),
            |k: Seq<u8>| self.ordered_values()[key_index(self.keys(), k)],
        )
    }

    /// What a well-formed table states of its order: keys strictly increasing, each key
    /// once, each key's value at the same position, and the map holding exactly these keys.
    pub proof fn lemma_ordered(&self)
        requires
            self.wf(),
        ensures
            keys_sorted(self.keys()),
            self.keys().len() == self.ordered_values().len(),
            forall|i: int| 0 <= i < self.keys().len() ==> #[trigger] self.view().contains_key(self.keys()[i])
                && self.view()[self.keys()[i]] == self.ordered_values()[i],
            forall|k: Seq<u8>| #[trigger] self.view().contains_key(k) ==> self.keys().contains(k),
    {
        assert forall|i: int| 0 <= i < self.keys().len() implies #[trigger] self.view().contains_key(self.keys()[i])
            && self.view()[self.keys()[i]] == self.ordered_values()[i] by {
            lemma_key_index(self.keys(), i);
        }
    }

    /// A well-formed table holds finitely many keys, as many as its entries.
    pub proof fn lemma_size(&self)
        requires
            self.wf(),
        ensures
            self.view().dom().finite(),
            self.view().dom().len() == self.keys().len(),
    {
        let keys = self.keys();
        assert(keys.no_duplicates()) by {
            assert forall|i: int, j: int| 0 <= i < keys.len() && 0 <= j < keys.len() && i != j implies keys[i] != keys[j] by {
                if i < j {
                    assert(bytes_lt(keys[i], keys[j]));
                } else {
                    assert(bytes_lt(keys[j], keys[i]));
                }
                lemma_bytes_lt_irreflexive(keys[i]);
            }
        }
        keys.unique_seq_to_set();
        assert(self.view().dom() =~= keys.to_set());
    }

    pub fn new() -> (r: PeerTable<V>)
        ensures
            r.wf(),
            r.view() == Map::<Seq<u8>, V>::empty(),
            r.keys().len() == 0,
    {
        let r = PeerTable { entries: Vec::new() };
        assert(r.view() =~= Map::<Seq<u8>, V>::empty());
        r
    }

    /// Number of entries.
    pub fn len(&self) -> (r: usize)
        ensures
            r == self.keys().len(),
    {
        self.entries.len()
    }

    /// The key at a position.
    pub fn key_at(&self, i: usize) -> (r: &PeerId)
        requires
            i < self.keys().len(),
        ensures
            r@ == self.keys()[i as int],
    {
        &self.entries[i].0
    }

    /// The value at a position.
    pub fn value_at(&self, i: usize) -> (r: &V)
        requires
            i < self.keys().len(),
        ensures
            *r == self.ordered_values()[i as int],
    {
        &self.entries[i].1
    }

    /// Where a key stands, or where it would be inserted.
    fn position(&self, key: &PeerId) -> (r: (usize, bool))
        requires
            self.wf(),
        ensures
            r.0 <= self.keys().len(),
            forall|j: int| 0 <= j < r.0 ==> bytes_lt(#[trigger] self.keys()[j], key@),
            r.1 == (r.0 < self.keys().len() && self.keys()[r.0 as int] == key@),
            !r.1 ==> forall|j: int| r.0 <= j < self.keys().len() ==> bytes_lt(key@, #[trigger] self.keys()[j]),
            !r.1 ==> !self.keys().contains(key@),
    {
        let mut i: usize = 0;
        while i < self.entries.len()
            invariant
                0 <= i <= self.entries.len(),
                self.wf(),
                forall|j: int| 0 <= j < i ==> bytes_lt(#[trigger] self.keys()[j], key@),
            decreases self.entries.len() - i,
        {
            let c = compare_bytes(self.entries[i].0.as_bytes(), key.as_bytes());
            assert(self.keys()[i as int] == self.entries@[i as int].0@);
            match c {
                ByteOrder::Less => {
                    i = i + 1;
                },
                ByteOrder::Equal => {
                    return (i, true);
                },
                ByteOrder::Greater => {
                    proof {
                        assert forall|j: int| i <= j < self.keys().len() implies bytes_lt(key@, #[trigger] self.keys()[j]) by {
                            if j > i {
                                lemma_bytes_lt_transitive(key@, self.keys()[i as int], self.keys()[j]);
                            }
                        }
                        lemma_not_contains(self.keys(), key@, i as int);
                    }
                    return (i, false);
                },
            }
        }
        proof {
            lemma_not_contains(self.keys(), key@, i as int);
        }
        (i, false)
    }

    /// Whether the key is in the table.
    pub fn contains_key(&self, key: &PeerId) -> (r: bool)
        requires
            self.wf(),
        ensures
            r == self.view().contains_key(key@),
    {
        let (_, found) = self.position(key);
        found
    }

    /// The value of a key.
    pub fn get(&self, key: &PeerId) -> (r: Option<&V>)
        requires
            self.wf(),
        ensures
            match r {
                Some(v) => self.view().contains_key(key@) && *v == self.view()[key@],
                None => !self.view().contains_key(key@),
            },
    {
        let (i, found) = self.position(key);
        if found {
            proof {
                lemma_key_index(self.keys(), i as int);
            }
            Some(&self.entries[i].1)
        } else {
            None
        }
    }

    /// Sets the value of a key, adding the key where it is new.
    pub fn insert(&mut self, key: PeerId, value: V)
        requires
            old(self).wf(),
        ensures
            final(self).wf(),
            final(self).view() == old(self).view().insert(key@, value),
    {
        let (i, found) = self.position(&key);
        let ghost old_keys = self.keys();
        let ghost old_vals = self.ordered_values();
        let ghost old_view = self.view();
        let ghost k = key@;
        if found {
            self.entries.set(i, (key, value));
            proof {
                assert(self.keys() =~= old_keys.update(i as int, k));
                assert(self.keys() =~= old_keys);
                assert(self.ordered_values() =~= old_vals.update(i as int, value));
                assert forall|kk: Seq<u8>| self.view().contains_key(kk) == old_view.insert(k, value).contains_key(kk) by {}
                assert forall|kk: Seq<u8>| #[trigger] self.view().contains_key(kk) implies self.view()[kk] == old_view.insert(k, value)[kk] by {
                    let j = key_index(old_keys, kk);
                    lemma_key_index_exists(old_keys, kk);
                    lemma_key_index(old_keys, j);
                    lemma_key_index(old_keys, i as int);
                }
                assert(self.view() =~= old_view.insert(k, value));
            }
        } else {
            self.entries.insert(i, (key, value));
            proof {
                assert(self.keys() =~= old_keys.insert(i as int, k));
                assert(self.ordered_values() =~= old_vals.insert(i as int, value));
                let nk = self.keys();
                assert forall|a: int, b: int| 0 <= a < b < nk.len() implies bytes_lt(#[trigger] nk[a], #[trigger] nk[b]) by {
                    if b < i {
                    } else if a < i && b == i {
                    } else if a < i && b > i {
                        lemma_bytes_lt_transitive(nk[a], k, nk[b]);
                    } else if a == i {
                    } else {
                    }
                }
                assert forall|kk: Seq<u8>| self.view().contains_key(kk) == old_view.insert(k, value).contains_key(kk) by {
                    if old_keys.contains(kk) {
                        let j = choose|j: int| 0 <= j < old_keys.len() && old_keys[j] == kk;
                        if j < i {
                            assert(nk[j] == kk);
                        } else {
                            assert(nk[j + 1] == kk);
                        }
                    }
                    if kk == k {
                        assert(nk[i as int] == kk);
                    }
                    if nk.contains(kk) {
                        let j = choose|j: int| 0 <= j < nk.len() && nk[j] == kk;
                        if j < i {
                            assert(old_keys[j] == kk);
                        } else if j > i {
                            assert(old_keys[j - 1] == kk);
                        }
                    }
                }
                assert forall|kk: Seq<u8>| #[trigger] self.view().contains_key(kk) implies self.view()[kk] == old_view.insert(k, value)[kk] by {
                    lemma_key_index_exists(nk, kk);
                    let j = key_index(nk, kk);
                    lemma_key_index(nk, j);
                    if j < i {
                        lemma_key_index(old_keys, j);
                        lemma_bytes_lt_irreflexive(k);
                    } else if j > i {
                        lemma_key_index(old_keys, j - 1);
                        lemma_bytes_lt_irreflexive(k);
                    }
                }
                assert(self.view() =~= old_view.insert(k, value));
            }
        }
    }

    /// Removes a key, handing back its value.
    pub fn remove(&mut self, key: &PeerId) -> (r: Option<V>)
        requires
            old(self).wf(),
        ensures
            final(self).wf(),
            final(self).view() == old(self).view().remove(key@),
            r == old(self).view().get(key@),
    {
        let (i, found) = self.position(key);
        let ghost old_keys = self.keys();
        let ghost old_vals = self.ordered_values();
        let ghost old_view = self.view();
        let ghost k = key@;
        if found {
            let (_, v) = self.entries.remove(i);
            proof {
                lemma_key_index(old_keys, i as int);
                assert(self.keys() =~= old_keys.remove(i as int));
                assert(self.ordered_values() =~= old_vals.remove(i as int));
                let nk = self.keys();
                assert forall|a: int, b: int| 0 <= a < b < nk.len() implies bytes_lt(#[trigger] nk[a], #[trigger] nk[b]) by {
                    if a < i && b >= i {
                        assert(nk[b] == old_keys[b + 1]);
                    } else if a >= i {
                        assert(nk[a] == old_keys[a + 1]);
                        assert(nk[b] == old_keys[b + 1]);
                    }
                }
                assert forall|kk: Seq<u8>| self.view().contains_key(kk) == old_view.remove(k).contains_key(kk) by {
                    if old_keys.contains(kk) && kk != k {
                        let j = choose|j: int| 0 <= j < old_keys.len() && old_keys[j] == kk;
                        if j < i {
                            assert(nk[j] == kk);
                        } else {
                            assert(j != i);
                            assert(nk[j - 1] == kk);
                        }
                    }
                    if nk.contains(kk) {
                        let j = choose|j: int| 0 <= j < nk.len() && nk[j] == kk;
                        if j < i {
                            assert(old_keys[j] == kk);
                            lemma_key_index(old_keys, j);
                        } else {
                            assert(old_keys[j + 1] == kk);
                            lemma_key_index(old_keys, j + 1);
                        }
                    }
                }
                assert forall|kk: Seq<u8>| #[trigger] self.view().contains_key(kk) implies self.view()[kk] == old_view.remove(k)[kk] by {
                    lemma_key_index_exists(nk, kk);
                    let j = key_index(nk, kk);
                    lemma_key_index(nk, j);
                    if j < i {
                        lemma_key_index(old_keys, j);
                    } else {
                        lemma_key_index(old_keys, j + 1);
                    }
                }
                assert(self.view() =~= old_view.remove(k));
            }
            Some(v)
        } else {
            proof {
                assert(self.view() =~= old_view.remove(k));
            }
            None
        }
    }
}

/// A key found at a position of a sorted key sequence is found there by `key_index`.
pub proof fn lemma_key_index(keys: Seq<Seq<u8>>, i: int)
    requires
        keys_sorted(keys),
        0 <= i < keys.len(),
    ensures
        key_index(keys, keys[i]) == i,
{
    let j = key_index(keys, keys[i]);
    if j != i {
        if j < i {
            assert(bytes_lt(keys[j], keys[i]));
        } else {
            assert(bytes_lt(keys[i], keys[j]));
        }
        lemma_bytes_lt_irreflexive(keys[i]);
    }
}

/// A key in the sequence has a position.
pub proof fn lemma_key_index_exists(keys: Seq<Seq<u8>>, k: Seq<u8>)
    requires
        keys.contains(k),
    ensures
        0 <= key_index(keys, k) < keys.len(),
        keys[key_index(keys, k)] == k,
{
}

proof fn lemma_not_contains(keys: Seq<Seq<u8>>, k: Seq<u8>, i: int)
    requires
        keys_sorted(keys),
        0 <= i <= keys.len(),
        forall|j: int| 0 <= j < i ==> bytes_lt(#[trigger] keys[j], k),
        forall|j: int| i <= j < keys.len() ==> bytes_lt(k, #[trigger] keys[j]),
    ensures
        !keys.contains(k),
{
    if keys.contains(k) {
        let j = choose|j: int| 0 <= j < keys.len() && keys[j] == k;
        lemma_bytes_lt_irreflexive(k);
        if j < i {
            assert(bytes_lt(keys[j], k));
        } else {
            assert(bytes_lt(k, keys[j]));
        }
    }
}

} // verus!
