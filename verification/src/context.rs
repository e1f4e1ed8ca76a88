//! The subsystem context: one explicit object owning the guest translation
//! registry, the host shadow registry, the synonym index and the physical
//! page pool.
//!
//! The embedding driver creates the context once, before any other
//! operation, and passes it by reference to every call; the context lives
//! until driver teardown.  The context exclusively owns all tables and the
//! free list: callers never mutate them directly, and every mutating
//! operation touches exactly one table, leaving the others as they were.
//! Multi-step sequences that must look atomic from outside (such as the
//! full eviction of a host address) are not internally atomic: the driver
//! serializes them, as it always has.

use vstd::prelude::*;

use crate::errors::AuxError;
use crate::pool::PagePool;
use crate::registry::Registry;
use crate::synonym::RegisterOutcome;
use crate::synonym::SynonymIndex;

verus! {

/// The process-wide translation and allocation state, as one owned value.
pub struct AuxContext {
    tpt: Registry,
    spt: Registry,
    ipt: SynonymIndex,
    pool: PagePool,
}

impl AuxContext {
    /// Well-formedness of every owned table.
    pub closed spec fn wf(self) -> bool {
        self.tpt.wf() && self.spt.wf() && self.ipt.wf()
    }

    /// The guest translation registry: packed guest key to host virtual
    /// address.
    pub closed spec fn tpt_view(self) -> Map<u64, u64> {
        self.tpt@
    }

    /// The host shadow registry: host virtual address to accelerator
    /// physical page.
    pub closed spec fn spt_view(self) -> Map<u64, u64> {
        self.spt@
    }

    /// The synonym index: host virtual address to the keys bound to it.
    pub closed spec fn ipt_view(self) -> Map<u64, Seq<u64>> {
        self.ipt@
    }

    /// The allocator's free list, front first.
    pub closed spec fn free_list(self) -> Seq<u64> {
        self.pool@
    }

    /// Creates the subsystem: all three tables empty, and the free list
    /// holding every usable page of the pool, in address order.
    pub fn init(total_pages: u64, base_address: u64) -> (ctx: Self)
        requires
            PagePool::usable_pages(total_pages) <= usize::MAX,
            PagePool::usable_pages(total_pages) == 0 || base_address + (PagePool::usable_pages(
                total_pages,
            ) - 1) * 4096 <= u64::MAX,
        ensures
            ctx.wf(),
            ctx.tpt_view() == Map::<u64, u64>::empty(),
            ctx.spt_view() == Map::<u64, u64>::empty(),
            ctx.ipt_view() == Map::<u64, Seq<u64>>::empty(),
            ctx.free_list().len() == PagePool::usable_pages(total_pages),
            forall|i: int|
                0 <= i < ctx.free_list().len() ==> ctx.free_list()[i] == base_address + i * 4096,
            ctx.free_list().no_duplicates(),
    {
        AuxContext {
            tpt: Registry::new(),
            spt: Registry::new(),
            ipt: SynonymIndex::new(),
            pool: PagePool::init(total_pages, base_address),
        }
    }

    /// Whether the guest key is currently translated.
    pub fn tpt_key_exists(&self, gid: u64) -> (r: bool)
        requires
            self.wf(),
        ensures
            r == self.tpt_view().contains_key(gid),
    {
        self.tpt.key_exists(gid)
    }

    /// The host virtual address the guest key translates to, or
    /// `NotFound`.
    pub fn tpt_lookup(&self, gid: u64) -> (r: Result<u64, AuxError>)
        requires
            self.wf(),
        ensures
            match r {
                Ok(hva) => self.tpt_view().contains_key(gid) && hva == self.tpt_view()[gid],
                Err(e) => e == AuxError::NotFound && !self.tpt_view().contains_key(gid),
            },
    {
        self.tpt.lookup(gid)
    }

    /// Binds the guest key to a host virtual address, replacing any
    /// existing binding.  Returns whether a binding was replaced, so the
    /// driver can log the overwrite; no reverse cleanup of the synonym
    /// index is performed — callers must unregister stale synonyms first.
    pub fn tpt_register(&mut self, gid: u64, hva: u64) -> (replaced: bool)
        requires
            old(self).wf(),
        ensures
            final(self).wf(),
            replaced == old(self).tpt_view().contains_key(gid),
            final(self).tpt_view() == old(self).tpt_view().insert(gid, hva),
            final(self).spt_view() == old(self).spt_view(),
            final(self).ipt_view() == old(self).ipt_view(),
            final(self).free_list() == old(self).free_list(),
    {
        self.tpt.register(gid, hva)
    }

    /// Drops the guest key's translation, or fails with `NotFound`.
    pub fn tpt_remove(&mut self, gid: u64) -> (r: Result<(), AuxError>)
        requires
            old(self).wf(),
        ensures
            final(self).wf(),
            match r {
                Ok(()) => {
                    &&& old(self).tpt_view().contains_key(gid)
                    &&& final(self).tpt_view() == old(self).tpt_view().remove(gid)
                },
                Err(e) => {
                    &&& e == AuxError::NotFound
                    &&& !old(self).tpt_view().contains_key(gid)
                    &&& final(self).tpt_view() == old(self).tpt_view()
                },
            },
            final(self).spt_view() == old(self).spt_view(),
            final(self).ipt_view() == old(self).ipt_view(),
            final(self).free_list() == old(self).free_list(),
    {
        self.tpt.remove(gid)
    }

    /// A point-in-time snapshot of every translated guest key.
    pub fn tpt_all_keys(&self) -> (r: Vec<u64>)
        requires
            self.wf(),
        ensures
            r@.no_duplicates(),
            forall|k: u64| #[trigger] r@.contains(k) <==> self.tpt_view().contains_key(k),
            r@.len() == self.tpt_view().dom().len(),
    {
        self.tpt.all_keys()
    }

    /// Whether the host virtual address has a shadow binding.
    pub fn spt_key_exists(&self, hva: u64) -> (r: bool)
        requires
            self.wf(),
        ensures
            r == self.spt_view().contains_key(hva),
    {
        self.spt.key_exists(hva)
    }

    /// The accelerator physical page backing the host virtual address, or
    /// `NotFound`.
    pub fn spt_lookup(&self, hva: u64) -> (r: Result<u64, AuxError>)
        requires
            self.wf(),
        ensures
            match r {
                Ok(page) => self.spt_view().contains_key(hva) && page == self.spt_view()[hva],
                Err(e) => e == AuxError::NotFound && !self.spt_view().contains_key(hva),
            },
    {
        self.spt.lookup(hva)
    }

    /// Binds the host virtual address to an accelerator physical page,
    /// replacing any existing binding.  The overwrite is reported, not
    /// refused, to tolerate brief legitimate double-binding during page
    /// migration.
    pub fn spt_register(&mut self, hva: u64, page: u64) -> (replaced: bool)
        requires
            old(self).wf(),
        ensures
            final(self).wf(),
            replaced == old(self).spt_view().contains_key(hva),
            final(self).spt_view() == old(self).spt_view().insert(hva, page),
            final(self).tpt_view() == old(self).tpt_view(),
            final(self).ipt_view() == old(self).ipt_view(),
            final(self).free_list() == old(self).free_list(),
    {
        self.spt.register(hva, page)
    }

    /// Drops the host virtual address's shadow binding, or fails with
    /// `NotFound`.
    pub fn spt_remove(&mut self, hva: u64) -> (r: Result<(), AuxError>)
        requires
            old(self).wf(),
        ensures
            final(self).wf(),
            match r {
                Ok(()) => {
                    &&& old(self).spt_view().contains_key(hva)
                    &&& final(self).spt_view() == old(self).spt_view().remove(hva)
                },
                Err(e) => {
                    &&& e == AuxError::NotFound
                    &&& !old(self).spt_view().contains_key(hva)
                    &&& final(self).spt_view() == old(self).spt_view()
                },
            },
            final(self).tpt_view() == old(self).tpt_view(),
            final(self).ipt_view() == old(self).ipt_view(),
            final(self).free_list() == old(self).free_list(),
    {
        self.spt.remove(hva)
    }

    /// A point-in-time snapshot of every shadow-bound host address.
    pub fn spt_all_keys(&self) -> (r: Vec<u64>)
        requires
            self.wf(),
        ensures
            r@.no_duplicates(),
            forall|k: u64| #[trigger] r@.contains(k) <==> self.spt_view().contains_key(k),
            r@.len() == self.spt_view().dom().len(),
    {
        self.spt.all_keys()
    }

    /// Records that the guest key is bound to the host virtual address.
    /// `Fresh` for the first key ever bound to the address, `Synonym` when
    /// the address already had another key; `DuplicateRegistration` when
    /// the identical pair is registered twice.
    pub fn ipt_register(&mut self, hva: u64, gid: u64) -> (r: Result<RegisterOutcome, AuxError>)
        requires
            old(self).wf(),
        ensures
            final(self).wf(),
            match r {
                Ok(RegisterOutcome::Fresh) => {
                    &&& !old(self).ipt_view().contains_key(hva)
                    &&& final(self).ipt_view() == old(self).ipt_view().insert(hva, seq![gid])
                },
                Ok(RegisterOutcome::Synonym) => {
                    &&& old(self).ipt_view().contains_key(hva)
                    &&& !old(self).ipt_view()[hva].contains(gid)
                    &&& final(self).ipt_view() == old(self).ipt_view().insert(
                        hva,
                        old(self).ipt_view()[hva].push(gid),
                    )
                },
                Err(e) => {
                    &&& e == AuxError::DuplicateRegistration
                    &&& old(self).ipt_view().contains_key(hva)
                    &&& old(self).ipt_view()[hva].contains(gid)
                    &&& final(self).ipt_view() == old(self).ipt_view()
                },
            },
            final(self).tpt_view() == old(self).tpt_view(),
            final(self).spt_view() == old(self).spt_view(),
            final(self).free_list() == old(self).free_list(),
    {
        self.ipt.register(hva, gid)
    }

    /// Removes the guest key from the host address's synonym entry;
    /// deletes the entry outright when its set empties.  `NotFound` when
    /// the address is unknown or the key is not a member.
    pub fn ipt_unregister(&mut self, hva: u64, gid: u64) -> (r: Result<(), AuxError>)
        requires
            old(self).wf(),
        ensures
            final(self).wf(),
            match r {
                Ok(()) => {
                    &&& old(self).ipt_view().contains_key(hva)
                    &&& old(self).ipt_view()[hva].contains(gid)
                    &&& (if old(self).ipt_view()[hva].len() == 1 {
                        final(self).ipt_view() == old(self).ipt_view().remove(hva)
                    } else {
                        final(self).ipt_view() == old(self).ipt_view().insert(
                            hva,
                            old(self).ipt_view()[hva].remove_value(gid),
                        )
                    })
                },
                Err(e) => {
                    &&& e == AuxError::NotFound
                    &&& !(old(self).ipt_view().contains_key(hva) && old(
                        self,
                    ).ipt_view()[hva].contains(gid))
                    &&& final(self).ipt_view() == old(self).ipt_view()
                },
            },
            final(self).tpt_view() == old(self).tpt_view(),
            final(self).spt_view() == old(self).spt_view(),
            final(self).free_list() == old(self).free_list(),
    {
        self.ipt.unregister(hva, gid)
    }

    /// Every guest key currently bound to the host address: an owned
    /// snapshot, empty when the address is unregistered.
    pub fn ipt_lookup(&self, hva: u64) -> (r: Vec<u64>)
        requires
            self.wf(),
        ensures
            self.ipt_view().contains_key(hva) ==> r@ == self.ipt_view()[hva],
            !self.ipt_view().contains_key(hva) ==> r@ == Seq::<u64>::empty(),
    {
        self.ipt.lookup(hva)
    }

    /// Issues the accelerator page at the front of the free list, or fails
    /// with `PoolExhausted`; the caller must evict and recycle first.
    pub fn fppn_allocate(&mut self) -> (r: Result<u64, AuxError>)
        requires
            old(self).wf(),
        ensures
            final(self).wf(),
            match r {
                Ok(page) => {
                    &&& old(self).free_list().len() > 0
                    &&& page == old(self).free_list()[0]
                    &&& final(self).free_list() == old(self).free_list().drop_first()
                },
                Err(e) => {
                    &&& e == AuxError::PoolExhausted
                    &&& old(self).free_list().len() == 0
                    &&& final(self).free_list() == old(self).free_list()
                },
            },
            final(self).tpt_view() == old(self).tpt_view(),
            final(self).spt_view() == old(self).spt_view(),
            final(self).ipt_view() == old(self).ipt_view(),
    {
        self.pool.allocate()
    }

    /// Returns an accelerator page to the front of the free list.  Double
    /// recycling is not detected: the caller must guarantee at most one
    /// recycle per outstanding allocation.
    pub fn fppn_recycle(&mut self, page: u64)
        requires
            old(self).wf(),
        ensures
            final(self).wf(),
            final(self).free_list() == old(self).free_list().insert(0, page),
            final(self).free_list().len() == old(self).free_list().len() + 1,
            final(self).free_list()[0] == page,
            final(self).free_list().drop_first() == old(self).free_list(),
            final(self).tpt_view() == old(self).tpt_view(),
            final(self).spt_view() == old(self).spt_view(),
            final(self).ipt_view() == old(self).ipt_view(),
    {
        self.pool.recycle(page)
    }
}

} // verus!
