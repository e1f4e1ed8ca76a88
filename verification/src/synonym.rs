//! The synonym index: host virtual address to the set of guest translation
//! keys currently bound to it.
//!
//! Several guest keys may legitimately share one host address (shared
//! memory, aliased address spaces).  The index is the many-to-one aware
//! inverse of the guest translation registry: a host address appears here
//! exactly while at least one key maps to it, its key set is never empty
//! and never holds a key twice, and the whole entry is deleted outright
//! when its set empties.  On teardown of a host address the index hands
//! the caller every key to invalidate.

use vstd::prelude::*;

use crate::errors::AuxError;
use crate::scan::copy_u64_vec;
use crate::scan::find_index;
use crate::scan::lemma_index_of_in_range;
use crate::scan::lemma_index_of_unique;
use crate::scan::lemma_remove_keeps_no_duplicates;

verus! {

/// What a registration did: bound the first key ever for the host
/// address, or appended a further key to an existing entry.
#[derive(Clone, Copy, Debug, PartialEq, Eq, Structural)]
pub enum RegisterOutcome {
    /// First key bound to the host address: a singleton entry was created.
    Fresh,
    /// The host address already had at least one other key: the new key
    /// was appended, making it a synonym.
    Synonym,
}

/// Every entry of a synonym-index view is a non-empty, duplicate-free key
/// sequence.  Constructors establish this and every operation preserves
/// it.
pub open spec fn entries_wf(m: Map<u64, Seq<u64>>) -> bool {
    forall|h: u64| #[trigger] m.contains_key(h) ==> m[h].len() > 0 && m[h].no_duplicates()
}

/// The synonym index.  The view maps each registered host virtual address
/// to the sequence of guest keys bound to it, in registration order.
pub struct SynonymIndex {
    hvas: Vec<u64>,
    keysets: Vec<Vec<u64>>,
}

impl View for SynonymIndex {
    type V = Map<u64, Seq<u64>>;

    closed spec fn view(&self) -> Map<u64, Seq<u64>> {
        Map::new(
            |h: u64| self.hvas@.contains(h),
            |h: u64| self.keysets@[self.hvas@.index_of(h)]@,
        )
    }
}

impl SynonymIndex {
    /// Internal well-formedness: one key set per host address, addresses
    /// duplicate-free, every key set non-empty and duplicate-free.
    pub closed spec fn wf(self) -> bool {
        &&& self.hvas@.len() == self.keysets@.len()
        &&& self.hvas@.no_duplicates()
        &&& forall|i: int|
            0 <= i < self.keysets@.len() ==> (#[trigger] self.keysets@[i])@.len() > 0
                && self.keysets@[i]@.no_duplicates()
    }

    /// An empty index.
    pub fn new() -> (r: Self)
        ensures
            r.wf(),
            r@ == Map::<u64, Seq<u64>>::empty(),
    {
        let r = SynonymIndex { hvas: Vec::new(), keysets: Vec::new() };
        proof {
            assert(r@ =~= Map::<u64, Seq<u64>>::empty());
        }
        r
    }

    /// Binds a key to a host address.  Returns `Fresh` for the first key
    /// ever bound to the address and `Synonym` when the address already
    /// had at least one other key.  Registering the identical pair twice
    /// is a caller protocol violation and fails with
    /// `DuplicateRegistration`, leaving the index unchanged.
    pub fn register(&mut self, hva: u64, key: u64) -> (r: Result<RegisterOutcome, AuxError>)
        requires
            old(self).wf(),
        ensures
            final(self).wf(),
            entries_wf(final(self)@),
            match r {
                Ok(RegisterOutcome::Fresh) => !old(self)@.contains_key(hva) && final(self)@ == old(
                    self,
                )@.insert(hva, seq![key]),
                Ok(RegisterOutcome::Synonym) => old(self)@.contains_key(hva) && !old(
                    self,
                )@[hva].contains(key) && final(self)@ == old(self)@.insert(
                    hva,
                    old(self)@[hva].push(key),
                ),
                Err(e) => e == AuxError::DuplicateRegistration && old(self)@.contains_key(hva)
                    && old(self)@[hva].contains(key) && final(self)@ == old(self)@,
            },
    {
        let ghost hs = self.hvas@;
        let ghost sets = self.keysets@;
        match find_index(&self.hvas, hva) {
            Some(i) => {
                proof {
                    lemma_index_of_unique(hs, hva, i as int);
                }
                match find_index(&self.keysets[i], key) {
                    Some(_) => Err(AuxError::DuplicateRegistration),
                    None => {
                        self.keysets[i].push(key);
                        proof {
                            let i_ = i as int;
                            assert(self.keysets@[i_]@ == sets[i_]@.push(key));
                            assert forall|h: u64| self@.contains_key(h) implies old(self)@.insert(
                                hva,
                                old(self)@[hva].push(key),
                            ).contains_key(h) && self@[h] == old(self)@.insert(
                                hva,
                                old(self)@[hva].push(key),
                            )[h] by {
                                lemma_index_of_in_range(hs, h);
                                let j = hs.index_of(h);
                                if h == hva {
                                    assert(j == i_);
                                } else {
                                    assert(j != i_);
                                    assert(self.keysets@[j] == sets[j]);
                                }
                            }
                            assert(self@ =~= old(self)@.insert(hva, old(self)@[hva].push(key)));
                        }
                        Ok(RegisterOutcome::Synonym)
                    },
                }
            },
            None => {
                self.hvas.push(hva);
                let mut fresh_set: Vec<u64> = Vec::new();
                fresh_set.push(key);
                self.keysets.push(fresh_set);
                proof {
                    let n = hs.len() as int;
                    assert(fresh_set@ =~= seq![key]);
                    assert forall|a: int, b: int|
                        0 <= a < self.hvas@.len() && 0 <= b < self.hvas@.len() && a
                            != b implies self.hvas@[a] != self.hvas@[b] by {
                        if a < n && b < n {
                            assert(self.hvas@[a] == hs[a]);
                            assert(self.hvas@[b] == hs[b]);
                        } else if a < n {
                            assert(self.hvas@[b] == hva && self.hvas@[a] == hs[a]);
                            assert(hs.contains(hs[a]));
                        } else {
                            assert(self.hvas@[a] == hva && self.hvas@[b] == hs[b]);
                            assert(hs.contains(hs[b]));
                        }
                    }
                    assert forall|h: u64| self@.contains_key(h) implies old(self)@.insert(
                        hva,
                        seq![key],
                    ).contains_key(h) && self@[h] == old(self)@.insert(hva, seq![key])[h] by {
                        lemma_index_of_in_range(self.hvas@, h);
                        let a = self.hvas@.index_of(h);
                        if a == n {
                            assert(h == hva);
                            lemma_index_of_unique(self.hvas@, hva, n);
                            assert(self@[h] == fresh_set@);
                        } else {
                            assert(self.hvas@[a] == hs[a]);
                            assert(h != hva) by {
                                assert(hs.contains(h));
                            }
                            lemma_index_of_in_range(hs, h);
                            lemma_index_of_unique(hs, h, a);
                            assert(self.keysets@[a] == sets[a]);
                        }
                    }
                    assert forall|h: u64| old(self)@.insert(hva, seq![key]).contains_key(
                        h,
                    ) implies self@.contains_key(h) by {
                        if h == hva {
                            assert(self.hvas@[n] == hva);
                        } else {
                            lemma_index_of_in_range(hs, h);
                            let j = hs.index_of(h);
                            assert(self.hvas@[j] == h);
                        }
                    }
                    assert(self@ =~= old(self)@.insert(hva, seq![key]));
                }
                Ok(RegisterOutcome::Fresh)
            },
        }
    }

    /// Removes a key from the entry of a host address; deletes the entry
    /// outright when its set becomes empty.  Fails with `NotFound`, and
    /// changes nothing, when the address is unknown or the key is not a
    /// member.
    pub fn unregister(&mut self, hva: u64, key: u64) -> (r: Result<(), AuxError>)
        requires
            old(self).wf(),
        ensures
            final(self).wf(),
            entries_wf(final(self)@),
            match r {
                Ok(()) => old(self)@.contains_key(hva) && old(self)@[hva].contains(key) && (if old(
                    self,
                )@[hva].len() == 1 {
                    final(self)@ == old(self)@.remove(hva)
                } else {
                    final(self)@ == old(self)@.insert(hva, old(self)@[hva].remove_value(key))
                }),
                Err(e) => e == AuxError::NotFound && !(old(self)@.contains_key(hva) && old(
                    self,
                )@[hva].contains(key)) && final(self)@ == old(self)@,
            },
    {
        let ghost hs = self.hvas@;
        let ghost sets = self.keysets@;
        match find_index(&self.hvas, hva) {
            Some(i) => {
                proof {
                    lemma_index_of_unique(hs, hva, i as int);
                }
                match find_index(&self.keysets[i], key) {
                    Some(j) => {
                        if self.keysets[i].len() == 1 {
                            self.hvas.remove(i);
                            self.keysets.remove(i);
                            proof {
                                let i_ = i as int;
                                hs.remove_ensures(i_);
                                sets.remove_ensures(i_);
                                lemma_remove_keeps_no_duplicates(hs, i_);
                                assert forall|h: u64| self@.contains_key(h) implies old(
                                    self,
                                )@.remove(hva).contains_key(h) && self@[h] == old(self)@.remove(
                                    hva,
                                )[h] by {
                                    lemma_index_of_in_range(self.hvas@, h);
                                    let a = self.hvas@.index_of(h);
                                    let oa = if a < i_ {
                                        a
                                    } else {
                                        a + 1
                                    };
                                    assert(self.hvas@[a] == hs[oa]);
                                    assert(oa != i_);
                                    assert(h != hva);
                                    assert(hs.contains(h)) by {
                                        assert(hs[oa] == h);
                                    }
                                    lemma_index_of_unique(hs, h, oa);
                                    assert(self.keysets@[a] == sets[oa]);
                                }
                                assert forall|h: u64| old(self)@.remove(hva).contains_key(
                                    h,
                                ) implies self@.contains_key(h) by {
                                    lemma_index_of_in_range(hs, h);
                                    let oj = hs.index_of(h);
                                    assert(oj != i_);
                                    let a = if oj < i_ {
                                        oj
                                    } else {
                                        oj - 1
                                    };
                                    assert(self.hvas@[a] == hs[oj]);
                                }
                                assert(self@ =~= old(self)@.remove(hva));
                            }
                            Ok(())
                        } else {
                            self.keysets[i].remove(j);
                            proof {
                                let i_ = i as int;
                                let j_ = j as int;
                                let s = sets[i_]@;
                                assert(self.keysets@[i_]@ == s.remove(j_));
                                lemma_remove_keeps_no_duplicates(s, j_);
                                s.index_of_first_ensures(key);
                                let j0 = s.index_of_first(key)->Some_0;
                                assert(s[j0] == key && s[j_] == key);
                                assert(j0 == j_);
                                assert(s.remove_value(key) == s.remove(j_));
                                assert forall|h: u64| self@.contains_key(h) implies old(
                                    self,
                                )@.insert(hva, old(self)@[hva].remove_value(key)).contains_key(h)
                                    && self@[h] == old(self)@.insert(
                                    hva,
                                    old(self)@[hva].remove_value(key),
                                )[h] by {
                                    lemma_index_of_in_range(hs, h);
                                    let a = hs.index_of(h);
                                    if h == hva {
                                        assert(a == i_);
                                    } else {
                                        assert(a != i_);
                                        assert(self.keysets@[a] == sets[a]);
                                    }
                                }
                                assert(self@ =~= old(self)@.insert(
                                    hva,
                                    old(self)@[hva].remove_value(key),
                                ));
                            }
                            Ok(())
                        }
                    },
                    None => Err(AuxError::NotFound),
                }
            },
            None => Err(AuxError::NotFound),
        }
    }

    /// The keys currently bound to a host address: an owned point-in-time
    /// snapshot, empty (not an error) when the address is unregistered.
    /// Used to find every guest translation to invalidate when the
    /// address's binding is torn down.
    pub fn lookup(&self, hva: u64) -> (r: Vec<u64>)
        requires
            self.wf(),
        ensures
            self@.contains_key(hva) ==> r@ == self@[hva],
            !self@.contains_key(hva) ==> r@ == Seq::<u64>::empty(),
    {
        match find_index(&self.hvas, hva) {
            Some(i) => {
                proof {
                    lemma_index_of_unique(self.hvas@, hva, i as int);
                }
                copy_u64_vec(&self.keysets[i])
            },
            None => Vec::new(),
        }
    }
}

/// Law: the first key bound to a host address is fresh, a second distinct
/// key is a synonym, and the entry then holds exactly the two keys, with
/// no duplicate.
///
/// Over the index's view: from a state without the address, registering
/// `k1` inserts the singleton entry; the entry then does not hold a
/// distinct `k2`, so registering `k2` takes the synonym path and appends
/// it; the entry afterwards is exactly `[k1, k2]`.
pub proof fn lemma_fresh_then_synonym(m: Map<u64, Seq<u64>>, hva: u64, k1: u64, k2: u64)
    requires
        !m.contains_key(hva),
        k1 != k2,
    ensures
        ({
            let m1 = m.insert(hva, seq![k1]);
            let m2 = m1.insert(hva, m1[hva].push(k2));
            &&& m1.contains_key(hva)
            &&& !m1[hva].contains(k2)
            &&& m2.contains_key(hva)
            &&& m2[hva] == seq![k1, k2]
            &&& m2[hva].no_duplicates()
            &&& m2[hva].to_set() == set![k1, k2]
        }),
{
    let m1 = m.insert(hva, seq![k1]);
    let m2 = m1.insert(hva, m1[hva].push(k2));
    assert(m1[hva] == seq![k1]);
    assert(!seq![k1].contains(k2)) by {
        assert(seq![k1][0] == k1);
    }
    assert(m2[hva] =~= seq![k1, k2]);
    assert(m2[hva].to_set() =~= set![k1, k2]) by {
        assert(seq![k1, k2][0] == k1 && seq![k1, k2][1] == k2);
        assert forall|k: u64| set![k1, k2].contains(k) implies seq![k1, k2].contains(k) by {
            if k == k1 {
                assert(seq![k1, k2][0] == k);
            } else {
                assert(seq![k1, k2][1] == k);
            }
        }
    }
}

/// Law: unregistering both keys of a two-key entry deletes the entry, and
/// the host address then behaves exactly as one that was never
/// registered.
///
/// Over the index's view: the first unregistration leaves the singleton
/// entry of the other key; the second empties the set, so the entry is
/// deleted outright, and the resulting view equals the original with the
/// address removed — a later lookup finds nothing.
pub proof fn lemma_unregister_both(m: Map<u64, Seq<u64>>, hva: u64, k1: u64, k2: u64)
    requires
        m.contains_key(hva),
        m[hva].no_duplicates(),
        m[hva].to_set() == set![k1, k2],
        k1 != k2,
    ensures
        ({
            let m1 = m.insert(hva, m[hva].remove_value(k1));
            &&& m[hva].contains(k1)
            &&& m[hva].len() != 1
            &&& m1.contains_key(hva)
            &&& m1[hva].contains(k2)
            &&& m1[hva].len() == 1
            &&& m1[hva] == seq![k2]
            &&& m1.remove(hva) == m.remove(hva)
            &&& !m.remove(hva).contains_key(hva)
        }),
{
    let s = m[hva];
    assert(s.contains(k1) && s.contains(k2)) by {
        assert(s.to_set().contains(k1) && s.to_set().contains(k2));
    }
    s.unique_seq_to_set();
    assert(set![k1, k2].len() == 2) by {
        assert(set![k1, k2].remove(k2) =~= set![k1]);
        assert(set![k1].remove(k1) =~= Set::<u64>::empty());
    }
    assert(s.len() == 2);
    s.index_of_first_ensures(k1);
    let i0 = s.index_of_first(k1)->Some_0;
    assert(s.remove_value(k1) == s.remove(i0));
    s.remove_ensures(i0);
    let rest = s.remove(i0);
    assert(rest.len() == 1);
    assert(rest[0] == if i0 == 0 {
        s[1]
    } else {
        s[0]
    });
    assert(rest[0] != k1);
    assert(rest[0] == k2) by {
        assert(s.contains(rest[0]));
        assert(s.to_set().contains(rest[0]));
    }
    assert(rest =~= seq![k2]);
    let m1 = m.insert(hva, s.remove_value(k1));
    assert(m1[hva].contains(k2)) by {
        assert(m1[hva][0] == k2);
    }
    assert(m1.remove(hva) =~= m.remove(hva));
}

} // verus!
