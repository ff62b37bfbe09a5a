//! Owning addresses and owning ranges.
//!
//! An [`AllocPtr`] is a payload address guaranteed — unless it is dangling —
//! to be preceded by a valid [`AllocPrefix`].  [`AllocPtr::init`] is the one
//! choke point that writes a fresh header, so every owner family shares the
//! same layout invariant: the payload address is the origin plus the header
//! size, rounded up to the payload's alignment.  [`AllocSlice`] extends the
//! address by an element count.

use vstd::prelude::*;

verus! {

use vstd::layout::{size_of, align_of, layout_for_type_is_valid};
use crate::layout::{Layout, spec_round_up, round_up_to, lemma_round_up, lemma_pow2_fits_usize};
use crate::allocator::IAlloc;
use crate::heap::{AllocPrefix, AllocRecord, Heap, HeapModel, bump, lemma_recs_wf_insert};

/// Where the payload of an allocation starting at `origin` lies: directly
/// after the header, rounded up to the payload type's alignment.
pub open spec fn spec_payload_addr<T, Alloc>(origin: usize) -> int {
    spec_round_up(origin + size_of::<AllocPrefix<Alloc>>(), align_of::<T>() as int)
}

/// The size in bytes of a header followed by `capacity` payload elements.
pub open spec fn spec_slot_size<T, Alloc>(capacity: usize) -> int {
    spec_round_up(size_of::<AllocPrefix<Alloc>>() as int, align_of::<T>() as int) + size_of::<T>()
        * capacity
}

/// The layout requested from the allocator for a header followed by
/// `capacity` payload elements; the alignment is forced to the header's,
/// and the payload is re-aligned inside the region by [`AllocPtr::init`].
pub open spec fn spec_slot_layout<T, Alloc>(capacity: usize) -> Layout {
    Layout {
        size: spec_slot_size::<T, Alloc>(capacity) as usize,
        align: align_of::<AllocPrefix<Alloc>>() as usize,
    }
}

/// Whether the layout for `capacity` elements is representable at all.
pub open spec fn slot_layout_fits<T, Alloc>(capacity: usize) -> bool {
    &&& size_of::<T>() * capacity <= usize::MAX
    &&& spec_slot_size::<T, Alloc>(capacity) <= usize::MAX
}

/// Whether allocating a header plus `capacity` elements from `a` into the
/// heap `m` will succeed: the layout is representable, the allocator has an
/// address for it, and no allocation already lives at the resulting payload
/// address.
pub open spec fn can_allocate<T, Alloc: IAlloc>(
    a: Alloc,
    m: HeapModel<T, Alloc>,
    capacity: usize,
) -> bool {
    let origin = a.alloc_addr(spec_slot_layout::<T, Alloc>(capacity));
    &&& slot_layout_fits::<T, Alloc>(capacity)
    &&& origin != 0
    &&& !m.recs.contains_key(spec_payload_addr::<T, Alloc>(origin) as usize)
}

/// The header a fresh allocation starts with: both counts 1, the capacity
/// slot holding the element capacity, the allocator slot empty, and no
/// payload written yet.
pub open spec fn fresh_record<T, Alloc>(origin: usize, capacity: usize) -> AllocRecord<T, Alloc> {
    AllocRecord {
        prefix: AllocPrefix {
            strong: 1,
            weak: 1,
            capacity,
            origin,
            allocator: None,
        },
        payload: None,
        slots: capacity,
    }
}

/// A payload address guaranteed to be preceded by a valid [`AllocPrefix`],
/// unless it is dangling.
#[derive(Debug)]
pub struct AllocPtr<T, Alloc> {
    /// The payload address.
    pub ptr: usize,
    /// Remembers the payload and allocator types.
    pub marker: core::marker::PhantomData<(T, Alloc)>,
}

impl<T, Alloc> Clone for AllocPtr<T, Alloc> {
    fn clone(&self) -> (r: Self) {
        *self
    }
}

impl<T, Alloc> Copy for AllocPtr<T, Alloc> {

}

impl<T, Alloc> AllocPtr<T, Alloc> {
    /// A dangling address: suitably aligned, never dereferenced, preceded
    /// by no header.
    pub fn dangling() -> (r: Self)
        ensures
            r.ptr == align_of::<T>(),
            r.ptr >= 1,
    {
        layout_for_type_is_valid::<T>();
        AllocPtr { ptr: core::mem::align_of::<T>(), marker: core::marker::PhantomData }
    }

    /// Reinterprets the payload type of the address.
    pub fn cast<U>(self) -> (r: AllocPtr<U, Alloc>)
        ensures
            r.ptr == self.ptr,
    {
        AllocPtr { ptr: self.ptr, marker: core::marker::PhantomData }
    }

}

impl<T, Alloc: IAlloc> AllocPtr<T, Alloc> {
    /// A borrow of the header of this allocation.
    pub fn prefix<'a>(&self, heap: &'a Heap<T, Alloc>) -> (r: &'a AllocPrefix<Alloc>)
        requires
            heap@.recs.contains_key(self.ptr),
        ensures
            *r == heap@.recs[self.ptr].prefix,
    {
        &heap.record(self.ptr).prefix
    }

    /// Writes a fresh header over the allocation at `origin`: both counts
    /// start at 1, the capacity slot holds `capacity`, the allocator slot is
    /// left empty, and the payload address is `origin` plus the header
    /// size, rounded up to the payload's alignment.  Every owner family is
    /// constructed through this one routine.
    pub fn init(heap: &mut Heap<T, Alloc>, origin: usize, capacity: usize) -> (r: Self)
        requires
            old(heap).wf(),
            1 <= origin,
            spec_payload_addr::<T, Alloc>(origin) <= usize::MAX,
            !old(heap)@.recs.contains_key(spec_payload_addr::<T, Alloc>(origin) as usize),
        ensures
            final(heap).wf(),
            r.ptr == spec_payload_addr::<T, Alloc>(origin),
            r.ptr as int % align_of::<T>() as int == 0,
            final(heap)@ == (HeapModel {
                recs: old(heap)@.recs.insert(r.ptr, fresh_record::<T, Alloc>(origin, capacity)),
                ..old(heap)@
            }),
    {
        layout_for_type_is_valid::<T>();
        layout_for_type_is_valid::<AllocPrefix<Alloc>>();
        proof {
            broadcast use vstd::layout::align_properties;

            crate::layout::lemma_is_pow2_nonzero(align_of::<T>() as int);
            lemma_round_up(
                origin + size_of::<AllocPrefix<Alloc>>(),
                align_of::<T>() as int,
            );
        }
        let payload = round_up_to(
            origin + core::mem::size_of::<AllocPrefix<Alloc>>(),
            core::mem::align_of::<T>(),
        );
        heap.put_record(
            payload,
            AllocRecord {
                prefix: AllocPrefix {
                    strong: 1,
                    weak: 1,
                    capacity,
                    origin,
                    allocator: None,
                },
                payload: None,
                slots: capacity,
            },
        );
        let r = AllocPtr { ptr: payload, marker: core::marker::PhantomData };
        proof {
            assert forall|addr: usize| #[trigger] heap@.recs.contains_key(addr) implies
                crate::heap::rec_wf(addr, heap@.recs[addr]) by {
                if addr != payload {
                    assert(old(heap)@.recs.contains_key(addr));
                }
            }
        }
        r
    }

    /// Allocates a header plus a single element slot of `T`.
    pub fn allocate(heap: &mut Heap<T, Alloc>, a: &mut Alloc) -> (r: Option<Self>)
        requires
            old(heap).wf(),
        ensures
            final(heap).wf(),
            r is Some <==> can_allocate::<T, Alloc>(*old(a), old(heap)@, 1),
            r matches Some(p) ==> allocate_array_success::<T, Alloc>(
                *old(a),
                old(heap)@,
                1,
                *final(a),
                final(heap)@,
                p,
            ),
            r is None ==> allocate_array_failure::<T, Alloc>(
                *old(a),
                old(heap)@,
                1,
                *final(a),
                final(heap)@,
            ),
    {
        Self::allocate_array(heap, a, 1)
    }

    /// Allocates a header plus `capacity` element slots of `T`.  Returns
    /// `None` exactly when [`can_allocate`] does not hold of the allocator
    /// and heap before the call; in that case nothing stays allocated and
    /// no record is added.
    pub fn allocate_array(heap: &mut Heap<T, Alloc>, a: &mut Alloc, capacity: usize) -> (r: Option<
        Self,
    >)
        requires
            old(heap).wf(),
        ensures
            final(heap).wf(),
            r is Some <==> can_allocate::<T, Alloc>(*old(a), old(heap)@, capacity),
            r matches Some(p) ==> allocate_array_success::<T, Alloc>(
                *old(a),
                old(heap)@,
                capacity,
                *final(a),
                final(heap)@,
                p,
            ),
            r is None ==> allocate_array_failure::<T, Alloc>(
                *old(a),
                old(heap)@,
                capacity,
                *final(a),
                final(heap)@,
            ),
    {
        let prefix_layout = Layout::of::<AllocPrefix<Alloc>>();
        let elem_layout = Layout::of::<T>();
        let arr_size = match elem_layout.size.checked_mul(capacity) {
            Some(s) => s,
            None => {
                return None;
            },
        };
        proof {
            lemma_pow2_fits_usize(elem_layout.align);
            lemma_round_up(prefix_layout.size as int, elem_layout.align as int);
        }
        let padded = round_up_to(prefix_layout.size, elem_layout.align);
        let total = match padded.checked_add(arr_size) {
            Some(t) => t,
            None => {
                return None;
            },
        };
        let layout = Layout { size: total, align: prefix_layout.align };
        proof {
            assert(layout == spec_slot_layout::<T, Alloc>(capacity));
        }
        let origin = a.allocate(layout);
        heap.note_allocate();
        if origin == 0 {
            return None;
        }
        proof {
            lemma_round_up(origin + size_of::<AllocPrefix<Alloc>>(), elem_layout.align as int);
        }
        let payload = round_up_to(
            origin + core::mem::size_of::<AllocPrefix<Alloc>>(),
            core::mem::align_of::<T>(),
        );
        if heap.contains(payload) {
            a.free(origin);
            heap.note_free();
            proof {
                assert(a.live() =~= old(a).live());
            }
            return None;
        }
        let p = Self::init(heap, origin, capacity);
        Some(p)
    }

    /// Moves the allocation to a region of `new_capacity` element slots,
    /// passing the allocator the previous total layout and the new total
    /// size, and re-runs the header initialization over the new region:
    /// the counters are re-established at 1/1 and the capacity slot takes
    /// `new_capacity`, so a caller keeping other counts on a live
    /// allocation must re-set them afterwards.  The payload values move
    /// with the record.  This is for a growable-buffer collaborator
    /// rebuilding its backing store, not for resizing a live
    /// reference-counted owner in place.
    ///
    /// On allocator failure, `None`: the old allocation and its record are
    /// untouched and stay owned by the caller.  In the one model-level
    /// corner where the allocator's new region maps to a payload address
    /// another record already occupies, the new region is freed again,
    /// the moved record is discarded, and `None` comes back.
    pub fn realloc(
        self,
        heap: &mut Heap<T, Alloc>,
        a: &mut Alloc,
        prev_capacity: usize,
        new_capacity: usize,
    ) -> (r: Option<AllocPtr<T, Alloc>>)
        requires
            old(heap).wf(),
            old(heap)@.recs.contains_key(self.ptr),
            old(a).live().contains(old(heap)@.recs[self.ptr].prefix.origin),
            old(heap)@.recs[self.ptr].prefix.allocator is None,
            slot_layout_fits::<T, Alloc>(prev_capacity),
        ensures
            final(heap).wf(),
            ({
                let layout = spec_slot_layout::<T, Alloc>(new_capacity);
                let target = old(a).alloc_addr(layout);
                let p2 = spec_payload_addr::<T, Alloc>(target) as usize;
                r is Some <==> (slot_layout_fits::<T, Alloc>(new_capacity) && target != 0 && !old(
                    heap,
                )@.recs.remove(self.ptr).contains_key(p2))
            }),
            r matches Some(p) ==> ({
                let layout = spec_slot_layout::<T, Alloc>(new_capacity);
                let target = old(a).alloc_addr(layout);
                &&& p.ptr == spec_payload_addr::<T, Alloc>(target)
                &&& final(heap)@ == (HeapModel {
                    recs: old(heap)@.recs.remove(self.ptr).insert(
                        p.ptr,
                        AllocRecord {
                            prefix: AllocPrefix {
                                strong: 1,
                                weak: 1,
                                capacity: new_capacity,
                                origin: target,
                                allocator: None,
                            },
                            payload: old(heap)@.recs[self.ptr].payload,
                            slots: new_capacity,
                        },
                    ),
                    realloc_calls: bump(old(heap)@.realloc_calls),
                    ..old(heap)@
                })
                &&& final(a).live() == old(a).live().remove(
                    old(heap)@.recs[self.ptr].prefix.origin,
                ).insert(target)
            }),
            r is None ==> ({
                let layout = spec_slot_layout::<T, Alloc>(new_capacity);
                let target = old(a).alloc_addr(layout);
                let fits = slot_layout_fits::<T, Alloc>(new_capacity);
                &&& final(a).live() == if fits && target != 0 {
                    old(a).live().remove(old(heap)@.recs[self.ptr].prefix.origin)
                } else {
                    old(a).live()
                }
                &&& final(heap)@ == (HeapModel {
                    recs: if fits && target != 0 {
                        old(heap)@.recs.remove(self.ptr)
                    } else {
                        old(heap)@.recs
                    },
                    realloc_calls: if fits {
                        bump(old(heap)@.realloc_calls)
                    } else {
                        old(heap)@.realloc_calls
                    },
                    free_calls: if fits && target != 0 {
                        bump(old(heap)@.free_calls)
                    } else {
                        old(heap)@.free_calls
                    },
                    ..old(heap)@
                })
            }),
    {
        let prefix_layout = Layout::of::<AllocPrefix<Alloc>>();
        let elem_layout = Layout::of::<T>();
        proof {
            lemma_pow2_fits_usize(elem_layout.align);
            lemma_round_up(prefix_layout.size as int, elem_layout.align as int);
        }
        let padded = round_up_to(prefix_layout.size, elem_layout.align);
        let arr_new = match elem_layout.size.checked_mul(new_capacity) {
            Some(s) => s,
            None => {
                return None;
            },
        };
        let new_total = match padded.checked_add(arr_new) {
            Some(t) => t,
            None => {
                return None;
            },
        };
        let arr_prev = elem_layout.size * prev_capacity;
        let prev_total = padded + arr_prev;
        let prev_layout = Layout { size: prev_total, align: prefix_layout.align };
        let origin = self.prefix(heap).origin;
        let target = a.realloc(origin, prev_layout, new_total);
        heap.note_realloc();
        if target == 0 {
            return None;
        }
        let rec = heap.take_record(self.ptr);
        proof {
            lemma_round_up(target + size_of::<AllocPrefix<Alloc>>(), elem_layout.align as int);
        }
        let payload = round_up_to(
            target + core::mem::size_of::<AllocPrefix<Alloc>>(),
            core::mem::align_of::<T>(),
        );
        if heap.contains(payload) {
            a.free(target);
            heap.note_free();
            proof {
                assert(a.live() =~= old(a).live().remove(
                    old(heap)@.recs[self.ptr].prefix.origin,
                ));
            }
            return None;
        }
        let rec2 = AllocRecord {
            prefix: AllocPrefix {
                strong: 1,
                weak: 1,
                capacity: new_capacity,
                origin: target,
                allocator: None,
            },
            payload: rec.payload,
            slots: new_capacity,
        };
        proof {
            lemma_recs_wf_insert(heap@.recs, payload, rec2);
        }
        heap.put_record(payload, rec2);
        Some(AllocPtr { ptr: payload, marker: core::marker::PhantomData })
    }

    /// Frees the allocation through `a`: what the allocator gets back is the
    /// origin address, not the payload address.  The record disappears; no
    /// payload destructor is implied, values still present are discarded.
    pub fn free(self, heap: &mut Heap<T, Alloc>, a: &mut Alloc)
        requires
            old(heap).wf(),
            old(heap)@.recs.contains_key(self.ptr),
            old(a).live().contains(old(heap)@.recs[self.ptr].prefix.origin),
        ensures
            final(heap).wf(),
            final(heap)@ == (HeapModel {
                recs: old(heap)@.recs.remove(self.ptr),
                free_calls: bump(old(heap)@.free_calls),
                ..old(heap)@
            }),
            final(a).live() == old(a).live().remove(old(heap)@.recs[self.ptr].prefix.origin),
    {
        let rec = heap.take_record(self.ptr);
        a.free(rec.prefix.origin);
        heap.note_free();
    }
}

/// What holds after a successful `allocate_array`: the allocator handed out
/// its predicted origin, the heap gained exactly one fresh, uninitialized
/// record at the payload address, and one allocate call was observed.
pub open spec fn allocate_array_success<T, Alloc: IAlloc>(
    a0: Alloc,
    m0: HeapModel<T, Alloc>,
    capacity: usize,
    a1: Alloc,
    m1: HeapModel<T, Alloc>,
    p: AllocPtr<T, Alloc>,
) -> bool {
    let origin = a0.alloc_addr(spec_slot_layout::<T, Alloc>(capacity));
    &&& p.ptr == spec_payload_addr::<T, Alloc>(origin)
    &&& p.ptr as int % align_of::<T>() as int == 0
    &&& !m0.recs.contains_key(p.ptr)
    &&& m1 == (HeapModel {
        recs: m0.recs.insert(p.ptr, fresh_record::<T, Alloc>(origin, capacity)),
        alloc_calls: bump(m0.alloc_calls),
        ..m0
    })
    &&& a1 == a0.alloc_post(spec_slot_layout::<T, Alloc>(capacity))
    &&& a1.live() == a0.live().insert(origin)
}

/// What holds after a failed `allocate_array`: no record was added or
/// changed and the allocator keeps exactly its previous outstanding set;
/// the observation counters record whether the allocator was consulted and
/// whether a colliding region was handed back.
pub open spec fn allocate_array_failure<T, Alloc: IAlloc>(
    a0: Alloc,
    m0: HeapModel<T, Alloc>,
    capacity: usize,
    a1: Alloc,
    m1: HeapModel<T, Alloc>,
) -> bool {
    let layout = spec_slot_layout::<T, Alloc>(capacity);
    let origin = a0.alloc_addr(layout);
    let fits = slot_layout_fits::<T, Alloc>(capacity);
    &&& a1.live() == a0.live()
    &&& a1 == if !fits {
        a0
    } else if origin == 0 {
        a0.alloc_post(layout)
    } else {
        a0.alloc_post(layout).free_post(origin)
    }
    &&& m1 == (HeapModel {
        alloc_calls: if fits {
            bump(m0.alloc_calls)
        } else {
            m0.alloc_calls
        },
        free_calls: if fits && origin != 0 {
            bump(m0.free_calls)
        } else {
            m0.free_calls
        },
        ..m0
    })
}

/// An owning range: a start address plus an element count.
#[derive(Debug)]
pub struct AllocSlice<T, Alloc> {
    /// The start of the slice.
    pub start: AllocPtr<T, Alloc>,
    /// The number of elements in the slice.
    pub length: usize,
}

impl<T, Alloc> Clone for AllocSlice<T, Alloc> {
    fn clone(&self) -> (r: Self) {
        *self
    }
}

impl<T, Alloc> Copy for AllocSlice<T, Alloc> {

}

impl<T, Alloc> AllocSlice<T, Alloc> {
    /// Returns the number of elements in the slice.
    pub fn len(&self) -> (r: usize)
        ensures
            r == self.length,
    {
        self.length
    }

    /// Returns `true` if the slice is empty.
    pub fn is_empty(&self) -> (r: bool)
        ensures
            r == (self.length == 0),
    {
        self.length == 0
    }
}

} // verus!
