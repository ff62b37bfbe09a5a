//! The allocator capability.
//!
//! [`IAlloc`] is the three-operation interface (allocate / free /
//! reallocate) every backend must implement.  Addresses are modelled as
//! plain `usize` values, `0` standing for the null return of a failed or
//! zero-size request.  Each allocator instance tracks, as ghost state, the
//! set of addresses it currently has outstanding, so that the contracts can
//! say exactly which addresses may be freed and that fresh allocations never
//! collide with live ones.
//!
//! [`BumpAlloc`] is a simple verified backend handing out increasing
//! addresses; it is the allocator the tests exercise the owner families
//! with.

use vstd::prelude::*;

verus! {

use crate::layout::{Layout, spec_round_up, round_up_to, lemma_round_up, lemma_pow2_fits_usize};

/// A generic allocation error.
#[derive(Debug, Default, Clone, PartialEq, Eq, Hash, Structural)]
pub struct AllocationError();

/// An interface to an allocator.
///
/// `live()` is the set of addresses this instance has handed out and not
/// yet reclaimed; `alloc_addr(layout)` names the address the next
/// [`IAlloc::allocate`] call with that layout will return (`0` for failure), so
/// that callers which must not fail can state their precondition exactly.
///
/// Successful allocations return a nonzero address that is aligned as
/// requested, fresh, and lies (with the whole region) within the lower half
/// of the address space.  A zero-size request always returns `0`; callers
/// must special-case it.
pub trait IAlloc: Sized {
    /// The addresses currently allocated by this instance.
    spec fn live(&self) -> Set<usize>;

    /// The address the next `allocate` call with `layout` returns; `0` means
    /// the request will fail.
    spec fn alloc_addr(&self, layout: Layout) -> usize;

    /// The state this instance is in after an `allocate` call with `layout`.
    spec fn alloc_post(&self, layout: Layout) -> Self;

    /// The state this instance is in after a `free` call with `addr`.
    spec fn free_post(&self, addr: usize) -> Self;

    /// Allocates at least as much memory as requested by `layout`,
    /// respecting the requested alignment.
    fn allocate(&mut self, layout: Layout) -> (r: usize)
        requires
            layout.wf(),
        ensures
            r == old(self).alloc_addr(layout),
            *final(self) == old(self).alloc_post(layout),
            layout.size == 0 ==> r == 0,
            r != 0 ==> r % layout.align == 0,
            r != 0 ==> 1 <= r && r + layout.size <= usize::MAX / 2,
            r != 0 ==> !old(self).live().contains(r) && final(self).live() == old(
                self,
            ).live().insert(r),
            r == 0 ==> final(self).live() == old(self).live(),
    ;

    /// Returns the allocation at `addr` to this instance.  `addr` must have
    /// been produced by a successful `allocate` or `realloc` on this same
    /// instance and not freed since.
    fn free(&mut self, addr: usize)
        requires
            old(self).live().contains(addr),
        ensures
            *final(self) == old(self).free_post(addr),
            final(self).live() == old(self).live().remove(addr),
    ;

    /// Moves the allocation at `addr` to a region of at least `new_size`
    /// bytes.  On success the old address is freed; on failure (`0`) the
    /// old address remains valid and owned by the caller.  The contents of
    /// the region travel with the record held by the heap model, so this
    /// contract speaks only of addresses.
    fn realloc(&mut self, addr: usize, prev_layout: Layout, new_size: usize) -> (r: usize)
        requires
            old(self).live().contains(addr),
            prev_layout.wf(),
        ensures
            r == old(self).alloc_addr(Layout { size: new_size, align: prev_layout.align }),
            r != 0 ==> r % prev_layout.align == 0,
            r != 0 ==> 1 <= r && r + new_size <= usize::MAX / 2,
            r != 0 ==> !old(self).live().contains(r),
            r != 0 ==> r != addr && final(self).live() == old(self).live().remove(addr).insert(r),
            r != 0 ==> *final(self) == old(self).alloc_post(
                Layout { size: new_size, align: prev_layout.align },
            ).free_post(addr),
            r == 0 ==> final(self).live() == old(self).live(),
            r == 0 ==> *final(self) == old(self).alloc_post(
                Layout { size: new_size, align: prev_layout.align },
            ),
    {
        let r = self.allocate(Layout { size: new_size, align: prev_layout.align });
        if r != 0 {
            self.free(addr);
            proof {
                assert(self.live() =~= old(self).live().remove(addr).insert(r));
            }
        }
        r
    }
}

/// A linear allocator over the model address space: every allocation is
/// placed at the next suitably aligned address at or after a high-water
/// mark, which then advances past it.  `free` only returns the address to
/// the ghost ledger; the mark never moves backwards.
pub struct BumpAlloc {
    next: usize,
    allocated: Ghost<Set<usize>>,
}

impl Clone for BumpAlloc {
    /// The copy answers future requests exactly as its source would.
    fn clone(&self) -> (r: Self) {
        proof {
            use_type_invariant(self);
        }
        BumpAlloc { next: self.next, allocated: Ghost(self.allocated@) }
    }
}

impl BumpAlloc {
    /// Every address handed out is nonzero and below the high-water mark.
    #[verifier::type_invariant]
    pub closed spec fn inv(self) -> bool {
        &&& self.next >= 1
        &&& forall|a: usize| self.allocated@.contains(a) ==> 1 <= a < self.next
    }

    /// A fresh allocator starting at the bottom of the address space.
    pub fn new() -> (r: BumpAlloc)
        ensures
            r.live() == Set::<usize>::empty(),
    {
        BumpAlloc { next: 1, allocated: Ghost(Set::empty()) }
    }

    /// A fresh allocator whose first allocation is placed at or after
    /// `base`; lets tests lay several instances out in disjoint regions.
    pub fn with_base(base: usize) -> (r: BumpAlloc)
        ensures
            r.live() == Set::<usize>::empty(),
    {
        BumpAlloc { next: if base == 0 { 1 } else { base }, allocated: Ghost(Set::empty()) }
    }
}

impl IAlloc for BumpAlloc {
    closed spec fn live(&self) -> Set<usize> {
        self.allocated@
    }

    closed spec fn alloc_addr(&self, layout: Layout) -> usize {
        if layout.size == 0 {
            0
        } else if self.next > usize::MAX / 2 {
            0
        } else if layout.size > usize::MAX / 2 {
            0
        } else {
            let base = spec_round_up(self.next as int, layout.align as int);
            if base > usize::MAX / 2 - layout.size {
                0
            } else {
                base as usize
            }
        }
    }

    closed spec fn alloc_post(&self, layout: Layout) -> Self {
        let base = self.alloc_addr(layout);
        if base == 0 {
            *self
        } else {
            BumpAlloc {
                next: (base + layout.size) as usize,
                allocated: Ghost(self.allocated@.insert(base)),
            }
        }
    }

    closed spec fn free_post(&self, addr: usize) -> Self {
        BumpAlloc { next: self.next, allocated: Ghost(self.allocated@.remove(addr)) }
    }

    fn allocate(&mut self, layout: Layout) -> (r: usize) {
        proof {
            use_type_invariant(&*self);
        }
        let ghost addr_spec = self.alloc_addr(layout);
        if layout.size == 0 || self.next > usize::MAX / 2 || layout.size > usize::MAX / 2 {
            proof {
                assert(addr_spec == 0);
            }
            0
        } else {
            proof {
                lemma_pow2_fits_usize(layout.align);
                lemma_round_up(self.next as int, layout.align as int);
            }
            let base = round_up_to(self.next, layout.align);
            if base > usize::MAX / 2 - layout.size {
                proof {
                    assert(addr_spec == 0);
                }
                0
            } else {
                self.next = base + layout.size;
                proof {
                    self.allocated@ = self.allocated@.insert(base);
                    assert(addr_spec == base);
                }
                base
            }
        }
    }

    fn free(&mut self, addr: usize) {
        proof {
            use_type_invariant(&*self);
            self.allocated@ = self.allocated@.remove(addr);
        }
    }
}

} // verus!
