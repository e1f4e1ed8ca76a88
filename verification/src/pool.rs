//! The physical page allocator: a finite pool of accelerator pages issued
//! and reclaimed through a free list.
//!
//! The pool is set up once with a capacity and a base address.  One of every
//! 256 pages is reserved for the accelerator, so a capacity of `n` yields
//! `(n / 256) * 255` usable pages, numbered contiguously at a 4096-byte
//! stride from the base address.  `allocate` takes from the front of the
//! free list and fails immediately when the list is empty; `recycle` pushes
//! a page back to the front.  Double recycling is not detected: the caller
//! must guarantee at most one recycle per outstanding allocation.

use vstd::prelude::*;

use crate::errors::AuxError;

verus! {

/// The pool of free accelerator physical pages.
///
/// The view is the free list itself, front first: `allocate` returns the
/// element at index 0 and `recycle` prepends.
pub struct PagePool {
    free: Vec<u64>,
}

impl View for PagePool {
    type V = Seq<u64>;

    closed spec fn view(&self) -> Seq<u64> {
        self.free@
    }
}

impl PagePool {
    /// Usable pages of a pool with the given capacity: one page of every
    /// 256 is reserved for the accelerator.
    pub open spec fn usable_pages(total_pages: u64) -> int {
        (total_pages as int / 256) * 255
    }

    /// Builds the pool: the free list holds every usable page, in address
    /// order, at a 4096-byte stride from the base address.
    pub fn init(total_pages: u64, base_address: u64) -> (pool: Self)
        requires
            Self::usable_pages(total_pages) <= usize::MAX,
            Self::usable_pages(total_pages) == 0 || base_address + (Self::usable_pages(
                total_pages,
            ) - 1) * 4096 <= u64::MAX,
        ensures
            pool@.len() == Self::usable_pages(total_pages),
            forall|i: int| 0 <= i < pool@.len() ==> pool@[i] == base_address + i * 4096,
            pool@.no_duplicates(),
    {
        proof {
            let q = total_pages as int / 256;
            assert(q * 256 <= total_pages);
            assert(q * 255 <= q * 256);
        }
        let count64: u64 = (total_pages / 256) * 255;
        let count: usize = count64 as usize;
        let mut free: Vec<u64> = Vec::new();
        let mut i: usize = 0;
        while i < count
            invariant
                i <= count,
                count == Self::usable_pages(total_pages),
                count == 0 || base_address + (count - 1) * 4096 <= u64::MAX,
                free@.len() == i,
                forall|j: int| 0 <= j < i ==> free@[j] == base_address + j * 4096,
            decreases count - i,
        {
            proof {
                assert(i * 4096 <= (count - 1) * 4096);
            }
            let page: u64 = base_address + (i as u64) * 4096;
            free.push(page);
            i += 1;
        }
        proof {
            assert forall|a: int, b: int|
                0 <= a < free@.len() && 0 <= b < free@.len() && a != b implies free@[a]
                != free@[b] by {
                assert(free@[a] == base_address + a * 4096);
                assert(free@[b] == base_address + b * 4096);
            }
        }
        PagePool { free }
    }

    /// Issues the page at the front of the free list, or fails with
    /// `PoolExhausted` when the list is empty.  No internal eviction is
    /// attempted.
    pub fn allocate(&mut self) -> (r: Result<u64, AuxError>)
        ensures
            match r {
                Ok(page) => old(self)@.len() > 0 && page == old(self)@[0] && final(self)@ == old(
                    self,
                )@.drop_first(),
                Err(e) => e == AuxError::PoolExhausted && old(self)@.len() == 0 && final(self)@
                    == old(self)@,
            },
    {
        if self.free.is_empty() {
            Err(AuxError::PoolExhausted)
        } else {
            let page = self.free.remove(0);
            proof {
                assert(self.free@ =~= old(self).free@.drop_first());
            }
            Ok(page)
        }
    }

    /// Returns a page to the front of the free list.  Double recycling is
    /// not detected.
    pub fn recycle(&mut self, page: u64)
        ensures
            final(self)@ == old(self)@.insert(0, page),
            final(self)@.len() == old(self)@.len() + 1,
            final(self)@[0] == page,
            final(self)@.drop_first() == old(self)@,
    {
        self.free.insert(0, page);
        proof {
            old(self).free@.insert_ensures(0, page);
            assert(self.free@.drop_first() =~= old(self).free@);
        }
    }
}

/// Law: a pool serves exactly as many allocations as its free list holds.
///
/// From a free list `s`, the first `k` calls of `allocate` succeed and
/// leave `s.skip(k)`: while pages remain the next call succeeds too,
/// issues the page at position `k` of the original list, and leaves
/// `s.skip(k + 1)`.  Once every page is gone the list is empty, so the
/// next call fails with `PoolExhausted`.  With the list that `init`
/// builds, the run therefore yields exactly `usable_pages` pages, in
/// address order, before exhaustion.
pub proof fn lemma_allocation_progress(s: Seq<u64>, k: int)
    requires
        0 <= k < s.len(),
    ensures
        s.skip(k).len() == s.len() - k,
        s.skip(k).len() > 0,
        s.skip(k)[0] == s[k],
        s.skip(k).drop_first() == s.skip(k + 1),
        s.skip(s.len() as int).len() == 0,
{
    assert(s.skip(k).drop_first() =~= s.skip(k + 1));
}

/// Law: while nothing is recycled, no page is issued twice.
///
/// On a duplicate-free free list, none of the first `k` pages that
/// `allocate` issues is still in the list the `k` calls leave, so no
/// later `allocate` can issue one of them again until a `recycle` puts it
/// back.  `init` establishes a duplicate-free list.
pub proof fn lemma_no_reissue_without_recycle(s: Seq<u64>, k: int)
    requires
        s.no_duplicates(),
        0 <= k <= s.len(),
    ensures
        forall|j: int| 0 <= j < k ==> !s.skip(k).contains(s[j]),
{
    assert forall|j: int| 0 <= j < k implies !s.skip(k).contains(s[j]) by {
        if s.skip(k).contains(s[j]) {
            let i = choose|i: int| 0 <= i < s.skip(k).len() && s.skip(k)[i] == s[j];
            assert(s[k + i] == s[j]);
        }
    }
}

/// Law: a recycled page is allocatable again, at once.
///
/// After `recycle(page)` the free list starts with `page`, so the next
/// `allocate` issues exactly that page and leaves the list as it stood
/// before the recycle.
pub proof fn lemma_recycle_then_allocate(s: Seq<u64>, page: u64)
    ensures
        s.insert(0, page).len() > 0,
        s.insert(0, page)[0] == page,
        s.insert(0, page).drop_first() == s,
{
    s.insert_ensures(0, page);
    assert(s.insert(0, page).drop_first() =~= s);
}

} // verus!
