//! The atomic owning slot.
//!
//! An [`AtomicArc`] holds the raw payload address of at most one strong
//! pointer; the reference count itself stays in the allocation's header,
//! the slot is just a swappable identity.  Loading reconstructs a strong
//! handle by incrementing that count; storing transfers the previous
//! occupant's ownership to whichever path overwrote it; compare-exchange
//! compares by address identity, never by payload value.
//!
//! The real cell is an atomic pointer whose operations take caller-chosen
//! memory orderings; this sequential model accepts the same [`MemOrder`]
//! arguments, under which every ordering means the same indivisible
//! heap transition.

use vstd::prelude::*;

verus! {

use crate::allocator::IAlloc;
use crate::heap::{Heap, HeapModel, rec_with_strong, spec_drop_strong};
use crate::ptr::AllocPtr;
use crate::arc::Arc;

/// A memory-ordering request, mirroring the orderings of hardware atomics.
/// The sequential model gives every ordering the same meaning.
#[derive(Debug, Clone, Copy, PartialEq, Eq, Structural)]
pub enum MemOrder {
    /// No ordering constraint beyond atomicity.
    Relaxed,
    /// Acquire ordering for the reading side.
    Acquire,
    /// Release ordering for the writing side.
    Release,
    /// Acquire and release combined.
    AcqRel,
    /// A single total order over all so-marked operations.
    SeqCst,
}

/// An owner of an optional [`Arc`] whose pointee can be atomically
/// exchanged.
pub struct AtomicArc<T, Alloc: IAlloc> {
    ptr: usize,
    marker: core::marker::PhantomData<(T, Alloc)>,
}

impl<T, Alloc: IAlloc> AtomicArc<T, Alloc> {
    /// The payload address of the current occupant; 0 for an empty slot.
    pub closed spec fn addr(self) -> usize {
        self.ptr
    }

    /// The slot's occupant, if any, is a live allocation that a strong
    /// owner may legally hold.
    pub open spec fn valid(self, m: HeapModel<T, Alloc>) -> bool {
        self.addr() != 0 ==> {
            &&& m.recs.contains_key(self.addr())
            &&& m.recs[self.addr()].prefix.strong >= 1
            &&& m.recs[self.addr()].prefix.allocator is Some
        }
    }

    /// A slot set to the provided occupant, taking over its ownership.
    pub fn new(value: Option<Arc<T, Alloc>>) -> (r: Self)
        ensures
            value matches Some(arc) ==> r.addr() == arc.addr(),
            value is None ==> r.addr() == 0,
    {
        let ptr = match value {
            Some(arc) => Arc::into_raw(arc).ptr,
            None => 0,
        };
        AtomicArc { ptr, marker: core::marker::PhantomData }
    }

    /// Atomically loads the current occupant: a fresh strong handle is
    /// reconstructed by incrementing the strong count in the occupant's
    /// header, so the slot itself keeps its ownership.
    pub fn load(&self, heap: &mut Heap<T, Alloc>, order: MemOrder) -> (r: Option<Arc<T, Alloc>>)
        requires
            old(heap).wf(),
            self.valid(old(heap)@),
            self.addr() != 0 ==> old(heap)@.recs[self.addr()].prefix.strong <= usize::MAX / 2 - 2,
        ensures
            final(heap).wf(),
            self.addr() == 0 ==> r is None && final(heap)@ == old(heap)@,
            self.addr() != 0 ==> (r matches Some(arc) && arc.addr() == self.addr()
                && final(heap)@ == (HeapModel {
                recs: old(heap)@.recs.insert(
                    self.addr(),
                    rec_with_strong(
                        old(heap)@.recs[self.addr()],
                        (old(heap)@.recs[self.addr()].prefix.strong + 1) as usize,
                    ),
                ),
                ..old(heap)@
            })),
    {
        if self.ptr == 0 {
            None
        } else {
            let p = AllocPtr::<T, Alloc> { ptr: self.ptr, marker: core::marker::PhantomData };
            Arc::increment_strong_count(heap, p);
            Some(Arc::from_raw(p))
        }
    }

    /// Atomically stores a new occupant (or clears the slot).  The previous
    /// occupant's ownership is transferred to the overwriting path: no
    /// count is touched here, and the caller logic that discards the old
    /// value must release it separately.
    pub fn store(&mut self, value: Option<Arc<T, Alloc>>, order: MemOrder)
        ensures
            value matches Some(arc) ==> final(self).addr() == arc.addr(),
            value is None ==> final(self).addr() == 0,
    {
        self.ptr = match value {
            Some(arc) => Arc::into_raw(arc).ptr,
            None => 0,
        };
    }

    /// Compares the slot with `current` by address identity.  On a match
    /// nothing changes and nothing is owed; on a mismatch the caller
    /// receives a freshly counted handle to the actual occupant (or `None`
    /// for an empty slot), never a dangling view.
    pub fn is(&self, heap: &mut Heap<T, Alloc>, current: Option<&Arc<T, Alloc>>, order: MemOrder)
        -> (r: Result<(), Option<Arc<T, Alloc>>>)
        requires
            old(heap).wf(),
            self.valid(old(heap)@),
            self.addr() != 0 ==> old(heap)@.recs[self.addr()].prefix.strong <= usize::MAX / 2 - 2,
        ensures
            final(heap).wf(),
            r is Ok <==> (self.addr() == (match current {
                Some(c) => c.addr(),
                None => 0,
            })),
            r is Ok ==> final(heap)@ == old(heap)@,
            r matches Err(o) ==> (if self.addr() == 0 {
                o is None && final(heap)@ == old(heap)@
            } else {
                o matches Some(arc) && arc.addr() == self.addr() && final(heap)@ == (HeapModel {
                    recs: old(heap)@.recs.insert(
                        self.addr(),
                        rec_with_strong(
                            old(heap)@.recs[self.addr()],
                            (old(heap)@.recs[self.addr()].prefix.strong + 1) as usize,
                        ),
                    ),
                    ..old(heap)@
                })
            }),
    {
        let expected: usize = match current {
            Some(c) => {
                let p = Arc::as_raw(c);
                p.ptr
            },
            None => 0,
        };
        if self.ptr == expected {
            Ok(())
        } else if self.ptr == 0 {
            Err(None)
        } else {
            let p = AllocPtr::<T, Alloc> { ptr: self.ptr, marker: core::marker::PhantomData };
            Arc::increment_strong_count(heap, p);
            Err(Some(Arc::from_raw(p)))
        }
    }

    /// Atomically replaces the occupant if the slot still holds `current`,
    /// compared by address identity.
    ///
    /// On success the previous occupant's ownership is returned to the
    /// caller (transferred out, not freed).  On failure the caller
    /// receives a freshly counted handle to the actual occupant together
    /// with the proposed new value, which remains owned by the caller —
    /// neither leaked nor adopted.
    pub fn compare_exchange(
        &mut self,
        heap: &mut Heap<T, Alloc>,
        current: Option<&Arc<T, Alloc>>,
        new: Option<Arc<T, Alloc>>,
        success: MemOrder,
        failure: MemOrder,
    ) -> (r: Result<Option<Arc<T, Alloc>>, (Option<Arc<T, Alloc>>, Option<Arc<T, Alloc>>)>)
        requires
            old(heap).wf(),
            old(self).valid(old(heap)@),
            old(self).addr() != 0 ==> old(heap)@.recs[old(self).addr()].prefix.strong
                <= usize::MAX / 2 - 2,
        ensures
            final(heap).wf(),
            r is Ok <==> (old(self).addr() == (match current {
                Some(c) => c.addr(),
                None => 0,
            })),
            r matches Ok(prev) ==> {
                &&& final(heap)@ == old(heap)@
                &&& (match new {
                    Some(arc) => final(self).addr() == arc.addr(),
                    None => final(self).addr() == 0,
                })
                &&& (if old(self).addr() == 0 {
                    prev is None
                } else {
                    prev matches Some(arc) && arc.addr() == old(self).addr()
                })
            },
            r matches Err((observed, returned)) ==> {
                &&& *final(self) == *old(self)
                &&& returned == new
                &&& (if old(self).addr() == 0 {
                    observed is None && final(heap)@ == old(heap)@
                } else {
                    observed matches Some(arc) && arc.addr() == old(self).addr() && final(heap)@
                        == (HeapModel {
                        recs: old(heap)@.recs.insert(
                            old(self).addr(),
                            rec_with_strong(
                                old(heap)@.recs[old(self).addr()],
                                (old(heap)@.recs[old(self).addr()].prefix.strong + 1) as usize,
                            ),
                        ),
                        ..old(heap)@
                    })
                })
            },
    {
        let expected: usize = match current {
            Some(c) => {
                let p = Arc::as_raw(c);
                p.ptr
            },
            None => 0,
        };
        if self.ptr == expected {
            let prev = self.ptr;
            self.ptr = match new {
                Some(arc) => Arc::into_raw(arc).ptr,
                None => 0,
            };
            if prev == 0 {
                Ok(None)
            } else {
                let p = AllocPtr::<T, Alloc> { ptr: prev, marker: core::marker::PhantomData };
                Ok(Some(Arc::from_raw(p)))
            }
        } else if self.ptr == 0 {
            Err((None, new))
        } else {
            let p = AllocPtr::<T, Alloc> { ptr: self.ptr, marker: core::marker::PhantomData };
            Arc::increment_strong_count(heap, p);
            Err((Some(Arc::from_raw(p)), new))
        }
    }

    /// Releases the slot's own strong ownership of whatever it currently
    /// holds, if anything.
    pub fn drop_in(self, heap: &mut Heap<T, Alloc>)
        requires
            old(heap).wf(),
            self.valid(old(heap)@),
        ensures
            final(heap).wf(),
            self.addr() == 0 ==> final(heap)@ == old(heap)@,
            self.addr() != 0 ==> final(heap)@ == spec_drop_strong(old(heap)@, self.addr()),
    {
        if self.ptr != 0 {
            let p = AllocPtr::<T, Alloc> { ptr: self.ptr, marker: core::marker::PhantomData };
            let arc = Arc::from_raw(p);
            arc.drop_in(heap);
        }
    }
}

} // verus!
