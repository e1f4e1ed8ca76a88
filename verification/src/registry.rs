//! A single-valued registry from a 64-bit key to a 64-bit value, used for
//! both the guest translation registry (packed guest key to host virtual
//! address) and the host shadow registry (host virtual address to
//! accelerator physical page).
//!
//! Each key is bound to at most one value at a time.  Registering an
//! already-bound key silently replaces the value: the overwrite is reported
//! to the caller as a flag, not as an error, so that a driver can log it.
//! No reverse cleanup is performed on overwrite; callers must unregister
//! stale synonyms first.

use vstd::prelude::*;

use crate::errors::AuxError;
use crate::scan::copy_u64_vec;
use crate::scan::find_index;
use crate::scan::lemma_index_of_in_range;
use crate::scan::lemma_index_of_unique;
use crate::scan::lemma_remove_keeps_no_duplicates;

verus! {

/// A finite map from `u64` keys to `u64` values, with a snapshot of its
/// key set available to callers.
///
/// The view is the map itself; `wf` is the internal well-formedness that
/// every constructor establishes and every method preserves.
pub struct Registry {
    keys: Vec<u64>,
    vals: Vec<u64>,
}

impl View for Registry {
    type V = Map<u64, u64>;

    closed spec fn view(&self) -> Map<u64, u64> {
        Map::new(
            |k: u64| self.keys@.contains(k),
            |k: u64| self.vals@[self.keys@.index_of(k)],
        )
    }
}

impl Registry {
    /// Internal well-formedness: one value per key, keys duplicate-free.
    pub closed spec fn wf(self) -> bool {
        self.keys@.len() == self.vals@.len() && self.keys@.no_duplicates()
    }

    /// An empty registry.
    pub fn new() -> (r: Self)
        ensures
            r.wf(),
            r@ == Map::<u64, u64>::empty(),
    {
        let r = Registry { keys: Vec::new(), vals: Vec::new() };
        proof {
            assert(r@ =~= Map::<u64, u64>::empty());
        }
        r
    }

    /// Whether the key is currently bound.
    pub fn key_exists(&self, key: u64) -> (r: bool)
        requires
            self.wf(),
        ensures
            r == self@.contains_key(key),
    {
        match find_index(&self.keys, key) {
            Some(_) => true,
            None => false,
        }
    }

    /// The value bound to the key, or `NotFound` when the key is absent.
    pub fn lookup(&self, key: u64) -> (r: Result<u64, AuxError>)
        requires
            self.wf(),
        ensures
            match r {
                Ok(v) => self@.contains_key(key) && v == self@[key],
                Err(e) => e == AuxError::NotFound && !self@.contains_key(key),
            },
    {
        match find_index(&self.keys, key) {
            Some(i) => {
                proof {
                    lemma_index_of_unique(self.keys@, key, i as int);
                }
                Ok(self.vals[i])
            },
            None => Err(AuxError::NotFound),
        }
    }

    /// Binds the key to the value, replacing any existing binding.  Returns
    /// whether a binding was replaced, so that the caller can log the
    /// overwrite; no reverse cleanup is performed here.
    pub fn register(&mut self, key: u64, value: u64) -> (replaced: bool)
        requires
            old(self).wf(),
        ensures
            final(self).wf(),
            replaced == old(self)@.contains_key(key),
            final(self)@ == old(self)@.insert(key, value),
    {
        let ghost ks = self.keys@;
        let ghost vs = self.vals@;
        match find_index(&self.keys, key) {
            Some(i) => {
                self.vals[i] = value;
                proof {
                    lemma_index_of_unique(ks, key, i as int);
                    assert forall|k: u64| self@.contains_key(k) implies old(self)@.insert(
                        key,
                        value,
                    ).contains_key(k) && self@[k] == old(self)@.insert(key, value)[k] by {
                        lemma_index_of_in_range(ks, k);
                        let j = ks.index_of(k);
                        if k == key {
                            assert(j == i);
                        } else {
                            assert(j != i);
                            assert(self.vals@[j] == vs[j]);
                        }
                    }
                    assert(self@ =~= old(self)@.insert(key, value));
                }
                true
            },
            None => {
                self.keys.push(key);
                self.vals.push(value);
                proof {
                    let n = ks.len() as int;
                    assert forall|a: int, b: int|
                        0 <= a < self.keys@.len() && 0 <= b < self.keys@.len() && a
                            != b implies self.keys@[a] != self.keys@[b] by {
                        if a < n && b < n {
                            assert(self.keys@[a] == ks[a]);
                            assert(self.keys@[b] == ks[b]);
                        } else if a < n {
                            assert(self.keys@[b] == key && self.keys@[a] == ks[a]);
                            assert(ks.contains(ks[a]));
                        } else {
                            assert(self.keys@[a] == key && self.keys@[b] == ks[b]);
                            assert(ks.contains(ks[b]));
                        }
                    }
                    assert forall|k: u64| self@.contains_key(k) implies old(self)@.insert(
                        key,
                        value,
                    ).contains_key(k) && self@[k] == old(self)@.insert(key, value)[k] by {
                        lemma_index_of_in_range(self.keys@, k);
                        let a = self.keys@.index_of(k);
                        if a == n {
                            assert(k == key);
                            lemma_index_of_unique(self.keys@, key, n);
                        } else {
                            assert(self.keys@[a] == ks[a]);
                            assert(k != key) by {
                                assert(ks.contains(k));
                            }
                            lemma_index_of_in_range(ks, k);
                            lemma_index_of_unique(ks, k, a);
                            assert(self@[k] == self.vals@[a] == vs[a]);
                        }
                    }
                    assert forall|k: u64| old(self)@.insert(key, value).contains_key(
                        k,
                    ) implies self@.contains_key(k) by {
                        if k == key {
                            assert(self.keys@[n] == key);
                        } else {
                            lemma_index_of_in_range(ks, k);
                            let j = ks.index_of(k);
                            assert(self.keys@[j] == k);
                        }
                    }
                    assert(self@ =~= old(self)@.insert(key, value));
                }
                false
            },
        }
    }

    /// Unbinds the key, or fails with `NotFound` when it is absent.
    pub fn remove(&mut self, key: u64) -> (r: Result<(), AuxError>)
        requires
            old(self).wf(),
        ensures
            final(self).wf(),
            match r {
                Ok(()) => old(self)@.contains_key(key) && final(self)@ == old(self)@.remove(key),
                Err(e) => e == AuxError::NotFound && !old(self)@.contains_key(key) && final(self)@
                    == old(self)@,
            },
    {
        let ghost ks = self.keys@;
        let ghost vs = self.vals@;
        match find_index(&self.keys, key) {
            Some(i) => {
                self.keys.remove(i);
                self.vals.remove(i);
                proof {
                    let i_ = i as int;
                    lemma_index_of_unique(ks, key, i_);
                    ks.remove_ensures(i_);
                    vs.remove_ensures(i_);
                    lemma_remove_keeps_no_duplicates(ks, i_);
                    assert forall|k: u64| self@.contains_key(k) implies old(self)@.remove(
                        key,
                    ).contains_key(k) && self@[k] == old(self)@.remove(key)[k] by {
                        lemma_index_of_in_range(self.keys@, k);
                        let a = self.keys@.index_of(k);
                        let oa = if a < i_ {
                            a
                        } else {
                            a + 1
                        };
                        assert(self.keys@[a] == ks[oa]);
                        assert(oa != i_);
                        assert(k != key);
                        assert(ks.contains(k)) by {
                            assert(ks[oa] == k);
                        }
                        lemma_index_of_unique(ks, k, oa);
                        assert(self.vals@[a] == vs[oa]);
                    }
                    assert forall|k: u64| old(self)@.remove(key).contains_key(
                        k,
                    ) implies self@.contains_key(k) by {
                        lemma_index_of_in_range(ks, k);
                        let j = ks.index_of(k);
                        assert(j != i_);
                        let a = if j < i_ {
                            j
                        } else {
                            j - 1
                        };
                        assert(self.keys@[a] == ks[j]);
                    }
                    assert(self@ =~= old(self)@.remove(key));
                }
                Ok(())
            },
            None => Err(AuxError::NotFound),
        }
    }

    /// A point-in-time snapshot of every bound key: an owned vector, safe
    /// to use after later mutations, holding each key exactly once.
    pub fn all_keys(&self) -> (r: Vec<u64>)
        requires
            self.wf(),
        ensures
            r@.no_duplicates(),
            forall|k: u64| #[trigger] r@.contains(k) <==> self@.contains_key(k),
            r@.len() == self@.dom().len(),
    {
        let r = copy_u64_vec(&self.keys);
        proof {
            assert(self@.dom() =~= self.keys@.to_set());
            self.keys@.unique_seq_to_set();
        }
        r
    }
}

/// Law: after a key is registered, the key exists and looks up to the
/// value just bound.
///
/// Over the registry's view, registering is `insert`: afterwards
/// `key_exists` reports the key present and `lookup` returns the value,
/// whatever was bound before.
pub proof fn lemma_register_then_lookup(m: Map<u64, u64>, key: u64, value: u64)
    ensures
        m.insert(key, value).contains_key(key),
        m.insert(key, value)[key] == value,
{
}

} // verus!
