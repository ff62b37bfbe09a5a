//! The slice-valued strong / weak family and the growable buffer.
//!
//! An [`ArcSlice`] owns a contiguous range of values under the same counter
//! protocol as [`crate::Arc`]; a [`WeakSlice`] observes it.  The interesting
//! algorithms are the two zero-copy conversions with [`Buffer`], the
//! minimal growable buffer built over the same allocation-header
//! convention: a buffer with nonzero capacity becomes a strong slice by
//! rewriting its header in place — same payload address, no allocator
//! call — and a unique strong slice of non-zero-size elements becomes a
//! buffer again by taking the allocator back out of its header.

use vstd::prelude::*;

verus! {

use vstd::layout::size_of;
use vstd::pervasive::VecAdditionalExecFns;
use crate::allocator::IAlloc;
use crate::heap::{AllocPrefix, AllocRecord, Heap, HeapModel, bump, rec_wf, rec_with_strong,
    rec_with_weak, recs_frame, lemma_recs_wf_insert, lemma_recs_wf_remove, spec_drop_strong,
    spec_drop_weak, same_counters};
use crate::ptr::{AllocPtr, AllocSlice, can_allocate, spec_slot_layout, spec_payload_addr,
    allocate_array_failure};
use crate::arc::{Arc, USIZE_TOP_BIT};

/// A strong reference to a fixed-size slice of elements.
pub struct ArcSlice<T, Alloc: IAlloc> {
    inner: AllocSlice<T, Alloc>,
}

/// A weak observer of an [`ArcSlice`] allocation.
pub struct WeakSlice<T, Alloc: IAlloc> {
    inner: AllocSlice<T, Alloc>,
}

/// A minimal growable buffer over the shared allocation-header convention:
/// it owns one allocation of `capacity` element slots, the first `len` of
/// which hold values, and keeps its allocator beside the handle — the
/// header's allocator slot stays empty until the buffer is turned into an
/// owning slice.  A buffer of capacity 0 owns no allocation at all.
pub struct Buffer<T, Alloc: IAlloc> {
    start: AllocPtr<T, Alloc>,
    len: usize,
    capacity: usize,
    allocator: Alloc,
}

impl<T, Alloc: IAlloc> ArcSlice<T, Alloc> {
    /// The payload address of the range.
    pub closed spec fn addr(self) -> usize {
        self.inner.start.ptr
    }

    /// The number of elements of the range.
    pub closed spec fn length(self) -> usize {
        self.inner.length
    }

    /// The handle points at a live allocation that a strong owner may
    /// legally hold.
    pub open spec fn valid(self, m: HeapModel<T, Alloc>) -> bool {
        &&& m.recs.contains_key(self.addr())
        &&& m.recs[self.addr()].prefix.strong >= 1
        &&& m.recs[self.addr()].prefix.allocator is Some
    }

    /// The payload holds exactly the values of the range.
    pub open spec fn inited(self, m: HeapModel<T, Alloc>) -> bool {
        m.recs[self.addr()].payload matches Some(v) && v@.len() == self.length()
    }

    /// The values of the range.
    pub open spec fn contents(self, m: HeapModel<T, Alloc>) -> Seq<T> {
        m.recs[self.addr()].payload.unwrap()@
    }

    /// Returns the number of elements in the slice.
    pub fn len(&self) -> (r: usize)
        ensures
            r == self.length(),
    {
        self.inner.len()
    }

    /// Returns true if the slice is empty.
    pub fn is_empty(&self) -> (r: bool)
        ensures
            r == (self.length() == 0),
    {
        self.inner.is_empty()
    }

    /// Returns a borrow of the slice's values.
    pub fn as_slice<'a>(&self, heap: &'a Heap<T, Alloc>) -> (r: &'a [T])
        requires
            heap@.recs.contains_key(self.addr()),
            self.inited(heap@),
        ensures
            r@ == self.contents(heap@),
    {
        let rec = heap.record(self.inner.start.ptr);
        rec.payload.as_ref().unwrap().as_slice()
    }

    /// Returns a borrow of one element.
    pub fn get<'a>(&self, heap: &'a Heap<T, Alloc>, i: usize) -> (r: &'a T)
        requires
            heap@.recs.contains_key(self.addr()),
            self.inited(heap@),
            i < self.length(),
        ensures
            *r == self.contents(heap@)[i as int],
    {
        let rec = heap.record(self.inner.start.ptr);
        let v = rec.payload.as_ref().unwrap();
        &v[i]
    }

    /// Uniqueness-gated exclusive update: overwrites the element at `i` and
    /// returns the previous one, but only if no other strong or weak handle
    /// exists; otherwise the input comes back untouched.
    pub fn try_set(&self, heap: &mut Heap<T, Alloc>, i: usize, value: T) -> (r: Result<T, T>)
        requires
            old(heap).wf(),
            old(heap)@.recs.contains_key(self.addr()),
            self.inited(old(heap)@),
            i < self.length(),
        ensures
            final(heap).wf(),
            r is Ok <==> (old(heap)@.recs[self.addr()].prefix.strong == 1 && old(heap)@.recs[
                self.addr()
            ].prefix.weak == 1),
            r matches Err(v) ==> v == value && final(heap)@ == old(heap)@,
            r matches Ok(prev) ==> {
                let addr = self.addr();
                &&& prev == self.contents(old(heap)@)[i as int]
                &&& final(heap)@.recs.contains_key(addr)
                &&& recs_frame(old(heap)@.recs, final(heap)@.recs, addr)
                &&& final(heap)@.recs[addr].prefix == old(heap)@.recs[addr].prefix
                &&& final(heap)@.recs[addr].slots == old(heap)@.recs[addr].slots
                &&& (final(heap)@.recs[addr].payload matches Some(v) && v@ == self.contents(
                    old(heap)@,
                ).update(i as int, value))
                &&& same_counters(old(heap)@, final(heap)@)
            },
    {
        let addr = self.inner.start.ptr;
        let unique = {
            let prefix = self.inner.start.prefix(heap);
            prefix.strong == 1 && prefix.weak == 1
        };
        if !unique {
            Err(value)
        } else {
            let rec = heap.take_record(addr);
            let AllocRecord { prefix, payload, slots } = rec;
            let mut v = match payload {
                Some(v) => v,
                None => vstd::pervasive::unreached(),
            };
            let mut tmp = value;
            v.set_and_swap(i, &mut tmp);
            let rec2 = AllocRecord { prefix, payload: Some(v), slots };
            proof {
                lemma_recs_wf_insert(heap@.recs, addr, rec2);
            }
            heap.put_record(addr, rec2);
            Ok(tmp)
        }
    }

    /// Exclusive element update without the runtime gate, for callers who
    /// have proven uniqueness independently.
    pub fn set_unchecked(&self, heap: &mut Heap<T, Alloc>, i: usize, value: T) -> (prev: T)
        requires
            old(heap).wf(),
            old(heap)@.recs.contains_key(self.addr()),
            self.inited(old(heap)@),
            i < self.length(),
            old(heap)@.recs[self.addr()].prefix.strong == 1,
            old(heap)@.recs[self.addr()].prefix.weak == 1,
        ensures
            final(heap).wf(),
            prev == self.contents(old(heap)@)[i as int],
            final(heap)@.recs.contains_key(self.addr()),
            recs_frame(old(heap)@.recs, final(heap)@.recs, self.addr()),
            final(heap)@.recs[self.addr()].prefix == old(heap)@.recs[self.addr()].prefix,
            final(heap)@.recs[self.addr()].slots == old(heap)@.recs[self.addr()].slots,
            (final(heap)@.recs[self.addr()].payload matches Some(v) && v@ == self.contents(
                old(heap)@,
            ).update(i as int, value)),
            same_counters(old(heap)@, final(heap)@),
    {
        match self.try_set(heap, i, value) {
            Ok(prev) => prev,
            Err(_) => vstd::pervasive::unreached(),
        }
    }

    /// The current strong count; observational only.
    pub fn strong_count(this: &Self, heap: &Heap<T, Alloc>) -> (r: usize)
        requires
            heap@.recs.contains_key(this.addr()),
        ensures
            r == heap@.recs[this.addr()].prefix.strong,
    {
        this.inner.start.prefix(heap).strong
    }

    /// The current weak count; observational only.
    pub fn weak_count(this: &Self, heap: &Heap<T, Alloc>) -> (r: usize)
        requires
            heap@.recs.contains_key(this.addr()),
        ensures
            r == heap@.recs[this.addr()].prefix.weak,
    {
        this.inner.start.prefix(heap).weak
    }

    /// Whether `this` is the sole owner of its range, weak observers
    /// included.
    pub fn is_unique(this: &Self, heap: &Heap<T, Alloc>) -> (r: bool)
        requires
            heap@.recs.contains_key(this.addr()),
        ensures
            r == (heap@.recs[this.addr()].prefix.strong == 1 && heap@.recs[
                this.addr()
            ].prefix.weak == 1),
    {
        let prefix = this.inner.start.prefix(heap);
        prefix.strong == 1 && prefix.weak == 1
    }

    /// A new strong handle to the same range: the strong count goes up by
    /// one and nothing else changes.
    pub fn clone_in(&self, heap: &mut Heap<T, Alloc>) -> (r: ArcSlice<T, Alloc>)
        requires
            old(heap).wf(),
            self.valid(old(heap)@),
            old(heap)@.recs[self.addr()].prefix.strong <= usize::MAX / 2 - 2,
        ensures
            final(heap).wf(),
            r.addr() == self.addr(),
            r.length() == self.length(),
            final(heap)@ == (HeapModel {
                recs: old(heap)@.recs.insert(
                    self.addr(),
                    rec_with_strong(
                        old(heap)@.recs[self.addr()],
                        (old(heap)@.recs[self.addr()].prefix.strong + 1) as usize,
                    ),
                ),
                ..old(heap)@
            }),
    {
        let addr = self.inner.start.ptr;
        let mut rec = heap.take_record(addr);
        rec.prefix.strong = rec.prefix.strong + 1;
        proof {
            lemma_recs_wf_insert(heap@.recs, addr, rec);
            assert(old(heap)@.recs.remove(addr).insert(addr, rec) =~= old(heap)@.recs.insert(
                addr,
                rec,
            ));
        }
        heap.put_record(addr, rec);
        ArcSlice { inner: self.inner }
    }

    /// Gives up this strong handle; the same transition as
    /// [`Arc::drop_in`], scoped to the whole range.
    pub fn drop_in(self, heap: &mut Heap<T, Alloc>)
        requires
            old(heap).wf(),
            self.valid(old(heap)@),
        ensures
            final(heap).wf(),
            final(heap)@ == spec_drop_strong(old(heap)@, self.addr()),
    {
        let addr = self.inner.start.ptr;
        let mut rec = heap.take_record(addr);
        if rec.prefix.strong != 1 {
            rec.prefix.strong = rec.prefix.strong - 1;
            proof {
                lemma_recs_wf_insert(heap@.recs, addr, rec);
                assert(old(heap)@.recs.remove(addr).insert(addr, rec) =~= old(heap)@.recs.insert(
                    addr,
                    rec,
                ));
            }
            heap.put_record(addr, rec);
        } else {
            rec.prefix.strong = 0;
            let had_payload = rec.payload.is_some();
            rec.payload = None;
            if had_payload {
                heap.note_destruct();
            }
            if rec.prefix.weak != 1 {
                rec.prefix.weak = rec.prefix.weak - 1;
                proof {
                    lemma_recs_wf_insert(heap@.recs, addr, rec);
                    assert(old(heap)@.recs.remove(addr).insert(addr, rec)
                        =~= old(heap)@.recs.insert(addr, rec));
                }
                heap.put_record(addr, rec);
            } else {
                let mut a = match rec.prefix.allocator {
                    Some(a) => a,
                    None => vstd::pervasive::unreached(),
                };
                a.free(rec.prefix.origin);
                heap.note_free();
                proof {
                    lemma_recs_wf_remove(old(heap)@.recs, addr);
                }
            }
        }
    }

    /// Constructs an additional weak observer of this range.
    pub fn downgrade(this: &Self, heap: &mut Heap<T, Alloc>) -> (r: WeakSlice<T, Alloc>)
        requires
            old(heap).wf(),
            this.valid(old(heap)@),
            old(heap)@.recs[this.addr()].prefix.weak <= usize::MAX - 2,
        ensures
            final(heap).wf(),
            r.addr() == this.addr(),
            r.length() == this.length(),
            final(heap)@ == (HeapModel {
                recs: old(heap)@.recs.insert(
                    this.addr(),
                    rec_with_weak(
                        old(heap)@.recs[this.addr()],
                        (old(heap)@.recs[this.addr()].prefix.weak + 1) as usize,
                    ),
                ),
                ..old(heap)@
            }),
    {
        let addr = this.inner.start.ptr;
        let mut rec = heap.take_record(addr);
        rec.prefix.weak = rec.prefix.weak + 1;
        proof {
            lemma_recs_wf_insert(heap@.recs, addr, rec);
            assert(old(heap)@.recs.remove(addr).insert(addr, rec) =~= old(heap)@.recs.insert(
                addr,
                rec,
            ));
        }
        heap.put_record(addr, rec);
        WeakSlice { inner: this.inner }
    }

    /// Releases the raw representation without touching the counts.
    pub fn into_raw(this: Self) -> (r: AllocSlice<T, Alloc>)
        ensures
            r.start.ptr == this.addr(),
            r.length == this.length(),
    {
        this.inner
    }

    /// Resumes ownership of a raw representation obtained from
    /// [`ArcSlice::into_raw`].
    pub fn from_raw(inner: AllocSlice<T, Alloc>) -> (r: Self)
        ensures
            r.addr() == inner.start.ptr,
            r.length() == inner.length,
    {
        ArcSlice { inner }
    }

    /// Converts a single-value owner into a one-element strong slice: the
    /// capacity slot is rewritten to 1 and the counts carry over.
    pub fn from_arc(heap: &mut Heap<T, Alloc>, arc: Arc<T, Alloc>) -> (r: ArcSlice<T, Alloc>)
        requires
            old(heap).wf(),
            arc.valid(old(heap)@),
        ensures
            final(heap).wf(),
            r.addr() == arc.addr(),
            r.length() == 1,
            final(heap)@ == (HeapModel {
                recs: old(heap)@.recs.insert(
                    arc.addr(),
                    AllocRecord {
                        prefix: AllocPrefix {
                            capacity: 1,
                            ..old(heap)@.recs[arc.addr()].prefix
                        },
                        ..old(heap)@.recs[arc.addr()]
                    },
                ),
                ..old(heap)@
            }),
    {
        let ptr = Arc::into_raw(arc);
        let addr = ptr.ptr;
        let mut rec = heap.take_record(addr);
        rec.prefix.capacity = 1;
        proof {
            lemma_recs_wf_insert(heap@.recs, addr, rec);
            assert(old(heap)@.recs.remove(addr).insert(addr, rec) =~= old(heap)@.recs.insert(
                addr,
                rec,
            ));
        }
        heap.put_record(addr, rec);
        ArcSlice { inner: AllocSlice { start: ptr, length: 1 } }
    }
}

impl<T, Alloc: IAlloc> Buffer<T, Alloc> {
    /// The payload address of the buffer's allocation (dangling for
    /// capacity 0).
    pub closed spec fn start_addr(self) -> usize {
        self.start.ptr
    }

    /// The number of values currently held.
    pub closed spec fn length(self) -> usize {
        self.len
    }

    /// The element capacity of the backing allocation.
    pub closed spec fn cap(self) -> usize {
        self.capacity
    }

    /// The allocator the buffer owns.
    pub closed spec fn alloc_state(self) -> Alloc {
        self.allocator
    }

    /// The values currently held.
    pub open spec fn contents(self, m: HeapModel<T, Alloc>) -> Seq<T> {
        m.recs[self.start_addr()].payload.unwrap()@
    }

    /// A buffer owns its allocation: the record holds exactly its values,
    /// was made with its capacity, leaves the header's allocator slot empty
    /// (the allocator lives beside the handle), and its origin is
    /// outstanding with that allocator.  A buffer of capacity 0 owns
    /// nothing.
    pub open spec fn wf(self, m: HeapModel<T, Alloc>) -> bool {
        &&& self.length() <= self.cap()
        &&& self.cap() != 0 ==> {
            &&& m.recs.contains_key(self.start_addr())
            &&& (m.recs[self.start_addr()].payload matches Some(v) && v@.len() == self.length())
            &&& m.recs[self.start_addr()].slots == self.cap()
            &&& m.recs[self.start_addr()].prefix.allocator is None
            &&& self.alloc_state().live().contains(m.recs[self.start_addr()].prefix.origin)
        }
    }

    /// A buffer for up to `capacity` values.  A capacity of 0 allocates
    /// nothing; otherwise this fails exactly when the allocation cannot be
    /// placed, returning the allocator.
    pub fn with_capacity_in(heap: &mut Heap<T, Alloc>, capacity: usize, allocator: Alloc) -> (r:
        Result<Buffer<T, Alloc>, Alloc>)
        requires
            old(heap).wf(),
        ensures
            final(heap).wf(),
            capacity == 0 ==> (r matches Ok(b) && b.wf(final(heap)@) && b.length() == 0 && b.cap()
                == 0 && b.alloc_state() == allocator && final(heap)@ == old(heap)@),
            capacity != 0 ==> (r is Ok <==> can_allocate::<T, Alloc>(
                allocator,
                old(heap)@,
                capacity,
            )),
            capacity != 0 && r is Ok ==> ({
                let b = r->Ok_0;
                let layout = spec_slot_layout::<T, Alloc>(capacity);
                let origin = allocator.alloc_addr(layout);
                &&& b.start_addr() == spec_payload_addr::<T, Alloc>(origin)
                &&& !old(heap)@.recs.contains_key(b.start_addr())
                &&& b.length() == 0
                &&& b.cap() == capacity
                &&& b.alloc_state() == allocator.alloc_post(layout)
                &&& b.wf(final(heap)@)
                &&& final(heap)@.recs.contains_key(b.start_addr())
                &&& recs_frame(old(heap)@.recs, final(heap)@.recs, b.start_addr())
                &&& final(heap)@.recs[b.start_addr()].prefix == (AllocPrefix::<Alloc> {
                    strong: 1,
                    weak: 1,
                    capacity,
                    origin,
                    allocator: None,
                })
                &&& final(heap)@.recs[b.start_addr()].slots == capacity
                &&& (final(heap)@.recs[b.start_addr()].payload matches Some(v) && v@.len() == 0)
                &&& final(heap)@.alloc_calls == bump(old(heap)@.alloc_calls)
                &&& final(heap)@.free_calls == old(heap)@.free_calls
                &&& final(heap)@.realloc_calls == old(heap)@.realloc_calls
                &&& final(heap)@.destructs == old(heap)@.destructs
            }),
            r matches Err(a) ==> capacity != 0 && allocate_array_failure::<T, Alloc>(
                allocator,
                old(heap)@,
                capacity,
                a,
                final(heap)@,
            ),
    {
        if capacity == 0 {
            return Ok(Buffer { start: AllocPtr::dangling(), len: 0, capacity: 0, allocator });
        }
        let mut a = allocator;
        match AllocPtr::<T, Alloc>::allocate_array(heap, &mut a, capacity) {
            Some(ptr) => {
                let mut rec = heap.take_record(ptr.ptr);
                rec.payload = Some(Vec::new());
                proof {
                    lemma_recs_wf_insert(heap@.recs, ptr.ptr, rec);
                }
                heap.put_record(ptr.ptr, rec);
                Ok(Buffer { start: ptr, len: 0, capacity, allocator: a })
            },
            None => Err(a),
        }
    }

    /// Appends a value; the buffer does not grow in place, so there must be
    /// room.
    pub fn push(&mut self, heap: &mut Heap<T, Alloc>, value: T)
        requires
            old(heap).wf(),
            old(self).wf(old(heap)@),
            old(self).length() < old(self).cap(),
        ensures
            final(heap).wf(),
            final(self).wf(final(heap)@),
            final(self).start_addr() == old(self).start_addr(),
            final(self).length() == old(self).length() + 1,
            final(self).cap() == old(self).cap(),
            final(self).alloc_state() == old(self).alloc_state(),
            final(self).contents(final(heap)@) == old(self).contents(old(heap)@).push(value),
            recs_frame(old(heap)@.recs, final(heap)@.recs, old(self).start_addr()),
            final(heap)@.recs.contains_key(old(self).start_addr()),
            final(heap)@.recs[old(self).start_addr()].prefix == old(heap)@.recs[old(
                self,
            ).start_addr()].prefix,
            final(heap)@.recs[old(self).start_addr()].slots == old(heap)@.recs[old(
                self,
            ).start_addr()].slots,
            same_counters(old(heap)@, final(heap)@),
    {
        let addr = self.start.ptr;
        let rec = heap.take_record(addr);
        let AllocRecord { prefix, payload, slots } = rec;
        let mut v = match payload {
            Some(v) => v,
            None => vstd::pervasive::unreached(),
        };
        v.push(value);
        let rec2 = AllocRecord { prefix, payload: Some(v), slots };
        proof {
            lemma_recs_wf_insert(heap@.recs, addr, rec2);
        }
        heap.put_record(addr, rec2);
        self.len = self.len + 1;
    }

    /// The number of values currently held.
    pub fn len(&self) -> (r: usize)
        ensures
            r == self.length(),
    {
        self.len
    }

    /// The element capacity of the backing allocation.
    pub fn capacity(&self) -> (r: usize)
        ensures
            r == self.cap(),
    {
        self.capacity
    }

    /// The start of the owned range, for identity comparisons.
    pub fn start(&self) -> (r: AllocPtr<T, Alloc>)
        ensures
            r.ptr == self.start_addr(),
    {
        self.start
    }
}

impl<T, Alloc: IAlloc> ArcSlice<T, Alloc> {
    /// Zero-copy conversion from a growable buffer.
    ///
    /// With nonzero capacity the buffer's existing header is reused in
    /// place: the counts are set to 1, the capacity slot takes the buffer's
    /// capacity, and the allocator moves into the header — the payload
    /// address, the values and the allocator-call count are untouched.
    /// With capacity 0 a fresh zero-length header is allocated (the caller
    /// must know that allocation will succeed), whose capacity slot holds 0
    /// for ordinary element types and, for zero-size ones, the largest
    /// count representable from the payload address up, since no real
    /// backing memory exists.
    pub fn from_buffer(heap: &mut Heap<T, Alloc>, buffer: Buffer<T, Alloc>) -> (r: ArcSlice<
        T,
        Alloc,
    >)
        requires
            old(heap).wf(),
            buffer.wf(old(heap)@),
            buffer.cap() == 0 ==> can_allocate::<T, Alloc>(buffer.alloc_state(), old(heap)@, 0),
        ensures
            final(heap).wf(),
            r.valid(final(heap)@),
            r.inited(final(heap)@),
            buffer.cap() != 0 ==> {
                &&& r.addr() == buffer.start_addr()
                &&& r.length() == buffer.length()
                &&& r.contents(final(heap)@) == buffer.contents(old(heap)@)
                &&& final(heap)@ == (HeapModel {
                    recs: old(heap)@.recs.insert(
                        buffer.start_addr(),
                        AllocRecord {
                            prefix: AllocPrefix {
                                strong: 1,
                                weak: 1,
                                capacity: buffer.cap(),
                                origin: old(heap)@.recs[buffer.start_addr()].prefix.origin,
                                allocator: Some(buffer.alloc_state()),
                            },
                            ..old(heap)@.recs[buffer.start_addr()]
                        },
                    ),
                    ..old(heap)@
                })
            },
            buffer.cap() == 0 ==> ({
                let layout = spec_slot_layout::<T, Alloc>(0);
                let origin = buffer.alloc_state().alloc_addr(layout);
                &&& r.addr() == spec_payload_addr::<T, Alloc>(origin)
                &&& !old(heap)@.recs.contains_key(r.addr())
                &&& r.length() == 0
                &&& final(heap)@.recs.contains_key(r.addr())
                &&& recs_frame(old(heap)@.recs, final(heap)@.recs, r.addr())
                &&& final(heap)@.recs[r.addr()].prefix == (AllocPrefix {
                    strong: 1,
                    weak: 1,
                    capacity: if size_of::<T>() == 0 {
                        (usize::MAX - r.addr()) as usize
                    } else {
                        0
                    },
                    origin,
                    allocator: Some(buffer.alloc_state().alloc_post(layout)),
                })
                &&& final(heap)@.recs[r.addr()].slots == 0
                &&& (final(heap)@.recs[r.addr()].payload matches Some(v) && v@.len() == 0)
                &&& final(heap)@.alloc_calls == bump(old(heap)@.alloc_calls)
                &&& final(heap)@.free_calls == old(heap)@.free_calls
                &&& final(heap)@.realloc_calls == old(heap)@.realloc_calls
                &&& final(heap)@.destructs == old(heap)@.destructs
            }),
    {
        let Buffer { start, len, capacity, allocator } = buffer;
        if capacity != 0 {
            let mut rec = heap.take_record(start.ptr);
            rec.prefix.strong = 1;
            rec.prefix.weak = 1;
            rec.prefix.capacity = capacity;
            rec.prefix.allocator = Some(allocator);
            proof {
                lemma_recs_wf_insert(heap@.recs, start.ptr, rec);
                assert(old(heap)@.recs.remove(start.ptr).insert(start.ptr, rec)
                    =~= old(heap)@.recs.insert(start.ptr, rec));
            }
            heap.put_record(start.ptr, rec);
            ArcSlice { inner: AllocSlice { start, length: len } }
        } else {
            let mut a = allocator;
            let ptr = match AllocPtr::<T, Alloc>::allocate_array(heap, &mut a, 0) {
                Some(p) => p,
                None => vstd::pervasive::unreached(),
            };
            let mut rec = heap.take_record(ptr.ptr);
            rec.prefix.allocator = Some(a);
            rec.payload = Some(Vec::new());
            rec.prefix.capacity = if core::mem::size_of::<T>() == 0 {
                usize::MAX - ptr.ptr
            } else {
                0
            };
            proof {
                lemma_recs_wf_insert(heap@.recs, ptr.ptr, rec);
            }
            heap.put_record(ptr.ptr, rec);
            ArcSlice { inner: AllocSlice { start: ptr, length: 0 } }
        }
    }

    /// Zero-copy conversion back into a growable buffer.
    ///
    /// Succeeds exactly when the element type has nonzero size and the
    /// slice is unique (strong and weak count both 1): the buffer's length,
    /// capacity and allocator are reconstructed from the header, which
    /// keeps its counts, and no destructor runs and nothing is freed.  On
    /// failure the original slice comes back untouched: a non-destructive,
    /// retryable refusal.
    pub fn try_into_buffer(this: Self, heap: &mut Heap<T, Alloc>) -> (r: Result<
        Buffer<T, Alloc>,
        ArcSlice<T, Alloc>,
    >)
        requires
            old(heap).wf(),
            this.valid(old(heap)@),
            this.inited(old(heap)@),
        ensures
            final(heap).wf(),
            r is Ok <==> (size_of::<T>() != 0 && old(heap)@.recs[this.addr()].prefix.strong == 1
                && old(heap)@.recs[this.addr()].prefix.weak == 1),
            r matches Ok(b) ==> ({
                let rec = old(heap)@.recs[this.addr()];
                &&& b.start_addr() == this.addr()
                &&& b.length() == this.length()
                &&& b.cap() == rec.prefix.capacity
                &&& b.alloc_state() == rec.prefix.allocator.unwrap()
                &&& final(heap)@ == (HeapModel {
                    recs: old(heap)@.recs.insert(
                        this.addr(),
                        AllocRecord {
                            prefix: AllocPrefix { allocator: None, ..rec.prefix },
                            ..rec
                        },
                    ),
                    ..old(heap)@
                })
                &&& (rec.slots == rec.prefix.capacity && this.length() <= rec.prefix.capacity
                    ==> b.wf(final(heap)@))
            }),
            r matches Err(s) ==> s.addr() == this.addr() && s.length() == this.length()
                && final(heap)@ == old(heap)@,
    {
        let addr = this.inner.start.ptr;
        let unique = {
            let prefix = this.inner.start.prefix(heap);
            prefix.strong == 1 && prefix.weak == 1
        };
        if core::mem::size_of::<T>() == 0 || !unique {
            Err(ArcSlice { inner: this.inner })
        } else {
            let rec = heap.take_record(addr);
            let AllocRecord { prefix, payload, slots } = rec;
            let AllocPrefix { strong, weak, capacity, origin, allocator } = prefix;
            let a = match allocator {
                Some(a) => a,
                None => vstd::pervasive::unreached(),
            };
            let rec2 = AllocRecord {
                prefix: AllocPrefix { strong, weak, capacity, origin, allocator: None },
                payload,
                slots,
            };
            proof {
                lemma_recs_wf_insert(heap@.recs, addr, rec2);
                assert(old(heap)@.recs.remove(addr).insert(addr, rec2) =~= old(heap)@.recs.insert(
                    addr,
                    rec2,
                ));
            }
            heap.put_record(addr, rec2);
            Ok(Buffer { start: this.inner.start, len: this.inner.length, capacity, allocator: a })
        }
    }
}

impl<T, Alloc: IAlloc> WeakSlice<T, Alloc> {
    /// The payload address of the range.
    pub closed spec fn addr(self) -> usize {
        self.inner.start.ptr
    }

    /// The number of elements of the range.
    pub closed spec fn length(self) -> usize {
        self.inner.length
    }

    /// The handle points at a live allocation that a weak observer may
    /// legally hold.
    pub open spec fn valid(self, m: HeapModel<T, Alloc>) -> bool {
        &&& m.recs.contains_key(self.addr())
        &&& m.recs[self.addr()].prefix.weak >= 1
        &&& m.recs[self.addr()].prefix.allocator is Some
    }

    /// A new weak observer of the same range.
    pub fn clone_in(&self, heap: &mut Heap<T, Alloc>) -> (r: WeakSlice<T, Alloc>)
        requires
            old(heap).wf(),
            self.valid(old(heap)@),
            old(heap)@.recs[self.addr()].prefix.weak <= usize::MAX - 2,
        ensures
            final(heap).wf(),
            r.addr() == self.addr(),
            r.length() == self.length(),
            final(heap)@ == (HeapModel {
                recs: old(heap)@.recs.insert(
                    self.addr(),
                    rec_with_weak(
                        old(heap)@.recs[self.addr()],
                        (old(heap)@.recs[self.addr()].prefix.weak + 1) as usize,
                    ),
                ),
                ..old(heap)@
            }),
    {
        let addr = self.inner.start.ptr;
        let mut rec = heap.take_record(addr);
        rec.prefix.weak = rec.prefix.weak + 1;
        proof {
            lemma_recs_wf_insert(heap@.recs, addr, rec);
            assert(old(heap)@.recs.remove(addr).insert(addr, rec) =~= old(heap)@.recs.insert(
                addr,
                rec,
            ));
        }
        heap.put_record(addr, rec);
        WeakSlice { inner: self.inner }
    }

    /// Gives up this weak observer; the same transition as
    /// [`crate::Weak::drop_in`].
    pub fn drop_in(self, heap: &mut Heap<T, Alloc>)
        requires
            old(heap).wf(),
            self.valid(old(heap)@),
        ensures
            final(heap).wf(),
            final(heap)@ == spec_drop_weak(old(heap)@, self.addr()),
    {
        let addr = self.inner.start.ptr;
        let mut rec = heap.take_record(addr);
        if rec.prefix.weak != 1 {
            rec.prefix.weak = rec.prefix.weak - 1;
            proof {
                lemma_recs_wf_insert(heap@.recs, addr, rec);
                assert(old(heap)@.recs.remove(addr).insert(addr, rec) =~= old(heap)@.recs.insert(
                    addr,
                    rec,
                ));
            }
            heap.put_record(addr, rec);
        } else {
            let mut a = match rec.prefix.allocator {
                Some(a) => a,
                None => vstd::pervasive::unreached(),
            };
            a.free(rec.prefix.origin);
            heap.note_free();
            proof {
                lemma_recs_wf_remove(old(heap)@.recs, addr);
            }
        }
    }

    /// Attempts to upgrade this observer into a strong owner of the range;
    /// the same protocol as [`crate::Weak::upgrade`], never resurrecting a
    /// range whose strong count has reached zero.
    pub fn upgrade(&self, heap: &mut Heap<T, Alloc>) -> (r: Option<ArcSlice<T, Alloc>>)
        requires
            old(heap).wf(),
            self.valid(old(heap)@),
            old(heap)@.recs[self.addr()].prefix.strong <= usize::MAX / 2 - 2,
        ensures
            final(heap).wf(),
            r is None <==> old(heap)@.recs[self.addr()].prefix.strong == 0,
            r is None ==> final(heap)@ == old(heap)@,
            r matches Some(s) ==> s.addr() == self.addr() && s.length() == self.length()
                && final(heap)@ == (HeapModel {
                recs: old(heap)@.recs.insert(
                    self.addr(),
                    rec_with_strong(
                        old(heap)@.recs[self.addr()],
                        (old(heap)@.recs[self.addr()].prefix.strong + 1) as usize,
                    ),
                ),
                ..old(heap)@
            }),
    {
        let addr = self.inner.start.ptr;
        let mut rec = heap.take_record(addr);
        let prior = rec.prefix.strong;
        rec.prefix.strong = prior + USIZE_TOP_BIT;
        if prior == 0 || prior == USIZE_TOP_BIT {
            rec.prefix.strong = 0;
            proof {
                lemma_recs_wf_insert(heap@.recs, addr, rec);
                assert(rec == old(heap)@.recs[addr]);
            }
            heap.put_record(addr, rec);
            proof {
                assert(heap@.recs =~= old(heap)@.recs);
            }
            None
        } else {
            rec.prefix.strong = rec.prefix.strong + 1;
            rec.prefix.strong = rec.prefix.strong - USIZE_TOP_BIT;
            proof {
                lemma_recs_wf_insert(heap@.recs, addr, rec);
                assert(old(heap)@.recs.remove(addr).insert(addr, rec) =~= old(heap)@.recs.insert(
                    addr,
                    rec,
                ));
            }
            heap.put_record(addr, rec);
            Some(ArcSlice { inner: self.inner })
        }
    }

    /// Resurrects a strong handle by force, bypassing the upgrade
    /// protocol's safety check: the strong count is incremented even from
    /// zero, and on that resurrection one weak reference is re-added to
    /// stand for the strong owners.  For `Copy` element types the real
    /// backing memory stays readable until the weak count drops; in this
    /// model a payload destroyed by the last strong drop stays destroyed,
    /// so a handle resurrected after that point holds the range without
    /// its values.  A deliberate escape hatch, not a primary path.
    pub fn force_upgrade(&self, heap: &mut Heap<T, Alloc>) -> (r: ArcSlice<T, Alloc>) where
        T: Copy,

        requires
            old(heap).wf(),
            self.valid(old(heap)@),
            old(heap)@.recs[self.addr()].prefix.strong <= usize::MAX / 2 - 2,
            old(heap)@.recs[self.addr()].prefix.weak <= usize::MAX - 2,
        ensures
            final(heap).wf(),
            r.addr() == self.addr(),
            r.length() == self.length(),
            ({
                let rec = old(heap)@.recs[self.addr()];
                let strong2 = (rec.prefix.strong + 1) as usize;
                final(heap)@ == (HeapModel {
                    recs: old(heap)@.recs.insert(
                        self.addr(),
                        if rec.prefix.strong == 0 {
                            rec_with_weak(
                                rec_with_strong(rec, strong2),
                                (rec.prefix.weak + 1) as usize,
                            )
                        } else {
                            rec_with_strong(rec, strong2)
                        },
                    ),
                    ..old(heap)@
                })
            }),
    {
        let addr = self.inner.start.ptr;
        let mut rec = heap.take_record(addr);
        let prior = rec.prefix.strong;
        rec.prefix.strong = prior + 1;
        if prior == 0 || prior == USIZE_TOP_BIT {
            rec.prefix.weak = rec.prefix.weak + 1;
        }
        proof {
            lemma_recs_wf_insert(heap@.recs, addr, rec);
            assert(old(heap)@.recs.remove(addr).insert(addr, rec) =~= old(heap)@.recs.insert(
                addr,
                rec,
            ));
        }
        heap.put_record(addr, rec);
        ArcSlice { inner: self.inner }
    }
}

} // verus!
