//! The single-value strong / weak pointer family.
//!
//! An [`Arc`] is a strong owner of one payload value; a [`Weak`] observes
//! the same allocation without keeping the payload alive.  Both wrap one
//! owning address; the counters in the allocation's header govern the whole
//! lifecycle: the payload destructor runs exactly when the strong count
//! goes from 1 to 0, the memory is freed exactly when the weak count goes
//! from 1 to 0.  Since handles carry no destructors in this model, dropping
//! and cloning are the explicit heap operations [`Arc::drop_in`],
//! [`Arc::clone_in`], [`Weak::drop_in`] and [`Weak::clone_in`].

use vstd::prelude::*;

verus! {

use crate::allocator::{AllocationError, IAlloc};
use crate::heap::{AllocPrefix, AllocRecord, Heap, HeapModel, bump, rec_wf, rec_with_strong,
    rec_with_weak, recs_frame, lemma_recs_wf_insert, lemma_recs_wf_remove, spec_drop_strong,
    spec_drop_weak, same_counters};
use crate::ptr::{AllocPtr, can_allocate, spec_slot_layout, spec_payload_addr,
    allocate_array_failure};

/// The strong counter's top bit, repurposed by the weak-upgrade protocol as
/// a transient "upgrade in progress" marker.
pub const USIZE_TOP_BIT: usize = usize::MAX / 2 + 1;

/// A strong, reference-counted owner of a single value.
pub struct Arc<T, Alloc: IAlloc> {
    ptr: AllocPtr<T, Alloc>,
}

/// A weak observer of an [`Arc`] allocation: keeps the backing memory, not
/// the payload, alive, and must be upgraded to reach the value.
pub struct Weak<T, Alloc: IAlloc> {
    ptr: AllocPtr<T, Alloc>,
}

impl<T, Alloc: IAlloc> Arc<T, Alloc> {
    /// The payload address this handle wraps.
    pub closed spec fn addr(self) -> usize {
        self.ptr.ptr
    }

    /// The handle points at a live allocation that a strong owner may
    /// legally hold: the strong count acknowledges at least one owner and
    /// the header owns its allocator.
    pub open spec fn valid(self, m: HeapModel<T, Alloc>) -> bool {
        &&& m.recs.contains_key(self.addr())
        &&& m.recs[self.addr()].prefix.strong >= 1
        &&& m.recs[self.addr()].prefix.allocator is Some
    }

    /// The payload of the allocation has been written (and not destroyed):
    /// exactly one value.
    pub open spec fn inited(self, m: HeapModel<T, Alloc>) -> bool {
        m.recs[self.addr()].payload matches Some(v) && v@.len() == 1
    }

    /// The payload value.
    pub open spec fn value(self, m: HeapModel<T, Alloc>) -> T {
        m.recs[self.addr()].payload.unwrap()@[0]
    }
}

/// What a fresh allocation with an unwritten payload looks like: as
/// [`arc_new_post`], except that the payload slot is still empty, so the
/// whole new record is pinned down exactly.
pub open spec fn arc_uninit_post<T, Alloc: IAlloc>(
    a0: Alloc,
    m0: HeapModel<T, Alloc>,
    m1: HeapModel<T, Alloc>,
    arc: Arc<T, Alloc>,
) -> bool {
    let layout = spec_slot_layout::<T, Alloc>(1);
    let origin = a0.alloc_addr(layout);
    &&& arc.addr() == spec_payload_addr::<T, Alloc>(origin)
    &&& !m0.recs.contains_key(arc.addr())
    &&& m1 == (HeapModel {
        recs: m0.recs.insert(
            arc.addr(),
            AllocRecord {
                prefix: AllocPrefix {
                    strong: 1,
                    weak: 1,
                    capacity: 1,
                    origin,
                    allocator: Some(a0.alloc_post(layout)),
                },
                payload: None,
                slots: 1,
            },
        ),
        alloc_calls: bump(m0.alloc_calls),
        ..m0
    })
}

/// What a fresh single-value allocation looks like: the heap gained exactly
/// one record at the address `arc` wraps, holding the allocator (in its
/// post-allocation state), both counts at 1, a capacity slot of 1, and the
/// value as its payload; nothing else changed but the allocate-call count.
pub open spec fn arc_new_post<T, Alloc: IAlloc>(
    a0: Alloc,
    m0: HeapModel<T, Alloc>,
    value: T,
    m1: HeapModel<T, Alloc>,
    arc: Arc<T, Alloc>,
) -> bool {
    let layout = spec_slot_layout::<T, Alloc>(1);
    let origin = a0.alloc_addr(layout);
    &&& arc.addr() == spec_payload_addr::<T, Alloc>(origin)
    &&& !m0.recs.contains_key(arc.addr())
    &&& m1.recs.contains_key(arc.addr())
    &&& recs_frame(m0.recs, m1.recs, arc.addr())
    &&& m1.recs[arc.addr()].prefix == (AllocPrefix {
        strong: 1,
        weak: 1,
        capacity: 1,
        origin,
        allocator: Some(a0.alloc_post(layout)),
    })
    &&& m1.recs[arc.addr()].slots == 1
    &&& (m1.recs[arc.addr()].payload matches Some(v) && v@ == seq![value])
    &&& m1.alloc_calls == bump(m0.alloc_calls)
    &&& m1.free_calls == m0.free_calls
    &&& m1.realloc_calls == m0.realloc_calls
    &&& m1.destructs == m0.destructs
}

impl<T, Alloc: IAlloc> Arc<T, Alloc> {
    /// Attempts to allocate a slot and store `value` in it.  Fails exactly
    /// when the allocation cannot be placed, and then returns `value` and
    /// the allocator so nothing is lost.
    pub fn try_new_in(heap: &mut Heap<T, Alloc>, value: T, allocator: Alloc) -> (r: Result<
        Arc<T, Alloc>,
        (T, Alloc),
    >)
        requires
            old(heap).wf(),
        ensures
            final(heap).wf(),
            r is Ok <==> can_allocate::<T, Alloc>(allocator, old(heap)@, 1),
            r matches Ok(arc) ==> arc_new_post(allocator, old(heap)@, value, final(heap)@, arc)
                && arc.valid(final(heap)@) && arc.inited(final(heap)@) && arc.value(final(heap)@)
                == value,
            r matches Err((v, a)) ==> v == value && a.live() == allocator.live()
                && allocate_array_failure::<T, Alloc>(
                allocator,
                old(heap)@,
                1,
                a,
                final(heap)@,
            ),
    {
        let mut a = allocator;
        match AllocPtr::<T, Alloc>::allocate(heap, &mut a) {
            Some(ptr) => {
                let mut rec = heap.take_record(ptr.ptr);
                rec.prefix.allocator = Some(a);
                let mut v: Vec<T> = Vec::new();
                v.push(value);
                rec.payload = Some(v);
                proof {
                    lemma_recs_wf_insert(heap@.recs, ptr.ptr, rec);
                }
                heap.put_record(ptr.ptr, rec);
                Ok(Arc { ptr })
            },
            None => Err((value, a)),
        }
    }

    /// Allocates a slot and stores `value` in it.  The caller must know the
    /// allocation will succeed; the fallible entry point is
    /// [`Arc::try_new_in`].
    pub fn new_in(heap: &mut Heap<T, Alloc>, value: T, allocator: Alloc) -> (arc: Arc<T, Alloc>)
        requires
            old(heap).wf(),
            can_allocate::<T, Alloc>(allocator, old(heap)@, 1),
        ensures
            final(heap).wf(),
            arc_new_post(allocator, old(heap)@, value, final(heap)@, arc),
            arc.valid(final(heap)@),
            arc.inited(final(heap)@),
            arc.value(final(heap)@) == value,
    {
        match Self::try_new_in(heap, value, allocator) {
            Ok(arc) => arc,
            Err(_) => vstd::pervasive::unreached(),
        }
    }

    /// A new strong handle to the same allocation: the strong count goes up
    /// by one and nothing else changes.
    pub fn clone_in(&self, heap: &mut Heap<T, Alloc>) -> (r: Arc<T, Alloc>)
        requires
            old(heap).wf(),
            self.valid(old(heap)@),
            old(heap)@.recs[self.addr()].prefix.strong <= usize::MAX / 2 - 2,
        ensures
            final(heap).wf(),
            r.addr() == self.addr(),
            final(heap)@ == (HeapModel {
                recs: old(heap)@.recs.insert(
                    self.addr(),
                    rec_with_strong(
                        old(heap)@.recs[self.addr()],
                        (old(heap)@.recs[self.addr()].prefix.strong + 1) as usize,
                    ),
                ),
                ..old(heap)@
            }),
    {
        let addr = self.ptr.ptr;
        let mut rec = heap.take_record(addr);
        rec.prefix.strong = rec.prefix.strong + 1;
        proof {
            lemma_recs_wf_insert(heap@.recs, addr, rec);
            assert(old(heap)@.recs.remove(addr).insert(addr, rec) =~= old(heap)@.recs.insert(
                addr,
                rec,
            ));
        }
        heap.put_record(addr, rec);
        Arc { ptr: self.ptr }
    }

    /// Gives up this strong handle: the strong count goes down by one; on
    /// the transition to zero the payload destructor runs (exactly once per
    /// allocation, since a destroyed record keeps strong count 0 and no
    /// payload), and the strong owners' implicit weak reference is dropped,
    /// freeing the allocation through its embedded allocator if no weak
    /// observer is left.
    pub fn drop_in(self, heap: &mut Heap<T, Alloc>)
        requires
            old(heap).wf(),
            self.valid(old(heap)@),
        ensures
            final(heap).wf(),
            final(heap)@ == spec_drop_strong(old(heap)@, self.addr()),
    {
        let addr = self.ptr.ptr;
        let mut rec = heap.take_record(addr);
        if rec.prefix.strong != 1 {
            rec.prefix.strong = rec.prefix.strong - 1;
            proof {
                lemma_recs_wf_insert(heap@.recs, addr, rec);
                assert(old(heap)@.recs.remove(addr).insert(addr, rec) =~= old(heap)@.recs.insert(
                    addr,
                    rec,
                ));
            }
            heap.put_record(addr, rec);
        } else {
            rec.prefix.strong = 0;
            let had_payload = rec.payload.is_some();
            rec.payload = None;
            if had_payload {
                heap.note_destruct();
            }
            if rec.prefix.weak != 1 {
                rec.prefix.weak = rec.prefix.weak - 1;
                proof {
                    lemma_recs_wf_insert(heap@.recs, addr, rec);
                    assert(old(heap)@.recs.remove(addr).insert(addr, rec)
                        =~= old(heap)@.recs.insert(addr, rec));
                }
                heap.put_record(addr, rec);
            } else {
                let mut a = match rec.prefix.allocator {
                    Some(a) => a,
                    None => vstd::pervasive::unreached(),
                };
                a.free(rec.prefix.origin);
                heap.note_free();
                proof {
                    lemma_recs_wf_remove(old(heap)@.recs, addr);
                }
            }
        }
    }

    /// Attempts to allocate a slot and initialize it with the outcome of a
    /// construction step.  On allocation failure the outcome and the
    /// allocator come back untouched; when the construction step itself
    /// had failed, the allocation is kept and handed back as a handle with
    /// an unwritten payload rather than freed.
    #[allow(clippy::type_complexity)]
    pub fn try_make_in(heap: &mut Heap<T, Alloc>, outcome: Result<T, ()>, allocator: Alloc) -> (r:
        Result<Arc<T, Alloc>, Result<Arc<T, Alloc>, (Result<T, ()>, Alloc)>>)
        requires
            old(heap).wf(),
        ensures
            final(heap).wf(),
            !can_allocate::<T, Alloc>(allocator, old(heap)@, 1) ==> (r matches Err(Err((o, a)))
                && o == outcome && allocate_array_failure::<T, Alloc>(
                allocator,
                old(heap)@,
                1,
                a,
                final(heap)@,
            )),
            can_allocate::<T, Alloc>(allocator, old(heap)@, 1) && outcome is Ok ==> (r matches Ok(
                arc,
            ) && arc_new_post(allocator, old(heap)@, outcome->Ok_0, final(heap)@, arc)
                && arc.valid(final(heap)@) && arc.inited(final(heap)@)),
            can_allocate::<T, Alloc>(allocator, old(heap)@, 1) && outcome is Err ==> (r matches Err(
                Ok(arc),
            ) && arc_uninit_post(allocator, old(heap)@, final(heap)@, arc) && arc.valid(
                final(heap)@,
            )),
    {
        let mut a = allocator;
        match AllocPtr::<T, Alloc>::allocate(heap, &mut a) {
            None => Err(Err((outcome, a))),
            Some(ptr) => {
                let mut rec = heap.take_record(ptr.ptr);
                rec.prefix.allocator = Some(a);
                match outcome {
                    Ok(value) => {
                        let mut v: Vec<T> = Vec::new();
                        v.push(value);
                        rec.payload = Some(v);
                        proof {
                            lemma_recs_wf_insert(heap@.recs, ptr.ptr, rec);
                        }
                        heap.put_record(ptr.ptr, rec);
                        Ok(Arc { ptr })
                    },
                    Err(_) => {
                        proof {
                            lemma_recs_wf_insert(heap@.recs, ptr.ptr, rec);
                        }
                        heap.put_record(ptr.ptr, rec);
                        proof {
                            assert(heap@.recs =~= old(heap)@.recs.insert(
                                ptr.ptr,
                                heap@.recs[ptr.ptr],
                            ));
                        }
                        Err(Ok(Arc { ptr }))
                    },
                }
            },
        }
    }

    /// Allocates a slot and initializes it with the outcome of a
    /// construction step; the caller must know the allocation will succeed.
    /// A failed construction step hands the unwritten allocation back.
    pub fn make_in(heap: &mut Heap<T, Alloc>, outcome: Result<T, ()>, allocator: Alloc) -> (r:
        Result<Arc<T, Alloc>, Arc<T, Alloc>>)
        requires
            old(heap).wf(),
            can_allocate::<T, Alloc>(allocator, old(heap)@, 1),
        ensures
            final(heap).wf(),
            outcome is Ok ==> (r matches Ok(arc) && arc_new_post(
                allocator,
                old(heap)@,
                outcome->Ok_0,
                final(heap)@,
                arc,
            )),
            outcome is Err ==> (r matches Err(arc) && arc_uninit_post(
                allocator,
                old(heap)@,
                final(heap)@,
                arc,
            )),
    {
        match Self::try_make_in(heap, outcome, allocator) {
            Ok(arc) => Ok(arc),
            Err(Ok(arc)) => Err(arc),
            Err(Err(_)) => vstd::pervasive::unreached(),
        }
    }

    /// The current strong count; observational only.
    pub fn strong_count(this: &Self, heap: &Heap<T, Alloc>) -> (r: usize)
        requires
            heap@.recs.contains_key(this.addr()),
        ensures
            r == heap@.recs[this.addr()].prefix.strong,
    {
        this.ptr.prefix(heap).strong
    }

    /// The current weak count; observational only.  All strong owners of a
    /// value together share one weak reference, so this can never be 0 for
    /// a live allocation.
    pub fn weak_count(this: &Self, heap: &Heap<T, Alloc>) -> (r: usize)
        requires
            heap@.recs.contains_key(this.addr()),
        ensures
            r == heap@.recs[this.addr()].prefix.weak,
    {
        this.ptr.prefix(heap).weak
    }

    /// Whether `this` is the sole owner of its allocation, weak observers
    /// included.
    pub fn is_unique(this: &Self, heap: &Heap<T, Alloc>) -> (r: bool)
        requires
            heap@.recs.contains_key(this.addr()),
        ensures
            r == (heap@.recs[this.addr()].prefix.strong == 1 && heap@.recs[
                this.addr()
            ].prefix.weak == 1),
    {
        let prefix = this.ptr.prefix(heap);
        prefix.strong == 1 && prefix.weak == 1
    }

    /// A borrow of the payload value.
    pub fn get<'a>(this: &Self, heap: &'a Heap<T, Alloc>) -> (r: &'a T)
        requires
            heap@.recs.contains_key(this.addr()),
            this.inited(heap@),
        ensures
            *r == this.value(heap@),
    {
        let rec = heap.record(this.ptr.ptr);
        let v = rec.payload.as_ref().unwrap();
        &v[0]
    }

    /// Uniqueness-gated exclusive update: replaces the payload value and
    /// returns the previous one, but only if no other strong or weak
    /// handle exists; otherwise the input comes back untouched.  This is
    /// the runtime re-check that stands in for exclusive borrowing.
    pub fn try_replace(this: &Self, heap: &mut Heap<T, Alloc>, value: T) -> (r: Result<T, T>)
        requires
            old(heap).wf(),
            old(heap)@.recs.contains_key(this.addr()),
            this.inited(old(heap)@),
        ensures
            final(heap).wf(),
            r is Ok <==> (old(heap)@.recs[this.addr()].prefix.strong == 1 && old(heap)@.recs[
                this.addr()
            ].prefix.weak == 1),
            r matches Err(v) ==> v == value && final(heap)@ == old(heap)@,
            r matches Ok(prev) ==> {
                let addr = this.addr();
                &&& prev == this.value(old(heap)@)
                &&& final(heap)@.recs.contains_key(addr)
                &&& recs_frame(old(heap)@.recs, final(heap)@.recs, addr)
                &&& final(heap)@.recs[addr].prefix == old(heap)@.recs[addr].prefix
                &&& final(heap)@.recs[addr].slots == old(heap)@.recs[addr].slots
                &&& (final(heap)@.recs[addr].payload matches Some(v) && v@ == seq![value])
                &&& same_counters(old(heap)@, final(heap)@)
            },
    {
        let addr = this.ptr.ptr;
        let unique = {
            let prefix = this.ptr.prefix(heap);
            prefix.strong == 1 && prefix.weak == 1
        };
        if !unique {
            Err(value)
        } else {
            let rec = heap.take_record(addr);
            let AllocRecord { prefix, payload, slots } = rec;
            let mut v = match payload {
                Some(v) => v,
                None => vstd::pervasive::unreached(),
            };
            let prev = match v.pop() {
                Some(p) => p,
                None => vstd::pervasive::unreached(),
            };
            v.push(value);
            let rec2 = AllocRecord { prefix, payload: Some(v), slots };
            proof {
                lemma_recs_wf_insert(heap@.recs, addr, rec2);
                assert(v@ =~= seq![value]);
            }
            heap.put_record(addr, rec2);
            Ok(prev)
        }
    }

    /// Exclusive update without the runtime gate, for callers who have
    /// proven uniqueness independently: the precondition demands that no
    /// other strong or weak handle exists.
    pub fn replace_unchecked(this: &Self, heap: &mut Heap<T, Alloc>, value: T) -> (prev: T)
        requires
            old(heap).wf(),
            old(heap)@.recs.contains_key(this.addr()),
            this.inited(old(heap)@),
            old(heap)@.recs[this.addr()].prefix.strong == 1,
            old(heap)@.recs[this.addr()].prefix.weak == 1,
        ensures
            final(heap).wf(),
            prev == this.value(old(heap)@),
            final(heap)@.recs.contains_key(this.addr()),
            recs_frame(old(heap)@.recs, final(heap)@.recs, this.addr()),
            final(heap)@.recs[this.addr()].prefix == old(heap)@.recs[this.addr()].prefix,
            final(heap)@.recs[this.addr()].slots == old(heap)@.recs[this.addr()].slots,
            (final(heap)@.recs[this.addr()].payload matches Some(v) && v@ == seq![value]),
            same_counters(old(heap)@, final(heap)@),
    {
        match Self::try_replace(this, heap, value) {
            Ok(prev) => prev,
            Err(_) => vstd::pervasive::unreached(),
        }
    }

    /// Copy-on-write entry point: if other handles share the allocation,
    /// the value and the embedded allocator are duplicated into a fresh
    /// allocation and `this` is moved onto it (dropping its share of the
    /// old one); afterwards `this` is the unique owner.  Fails only if
    /// that fresh allocation cannot be placed.
    pub fn make_mut(this: &mut Self, heap: &mut Heap<T, Alloc>) -> (r: Result<
        (),
        AllocationError,
    >) where T: Clone, Alloc: Clone
        requires
            old(heap).wf(),
            old(this).valid(old(heap)@),
            old(this).inited(old(heap)@),
        ensures
            final(heap).wf(),
            ({
                let rec = old(heap)@.recs[old(this).addr()];
                rec.prefix.strong == 1 && rec.prefix.weak == 1
            }) ==> r is Ok && *final(this) == *old(this) && final(heap)@ == old(heap)@,
            r is Ok ==> {
                &&& final(this).valid(final(heap)@)
                &&& final(this).inited(final(heap)@)
                &&& final(heap)@.recs[final(this).addr()].prefix.strong == 1
                &&& final(heap)@.recs[final(this).addr()].prefix.weak == 1
                &&& vstd::pervasive::cloned(
                    old(this).value(old(heap)@),
                    final(this).value(final(heap)@),
                )
            },
            r is Ok && !(old(heap)@.recs[old(this).addr()].prefix.strong == 1 && old(
                heap,
            )@.recs[old(this).addr()].prefix.weak == 1) ==> {
                let rec = old(heap)@.recs[old(this).addr()];
                &&& final(this).addr() != old(this).addr()
                &&& !old(heap)@.recs.contains_key(final(this).addr())
                &&& final(heap)@.recs.contains_key(old(this).addr())
                &&& final(heap)@.recs[old(this).addr()] == if rec.prefix.strong > 1 {
                    rec_with_strong(rec, (rec.prefix.strong - 1) as usize)
                } else {
                    crate::heap::rec_destroyed(rec)
                }
            },
            r is Err ==> {
                &&& !(old(heap)@.recs[old(this).addr()].prefix.strong == 1 && old(
                    heap,
                )@.recs[old(this).addr()].prefix.weak == 1)
                &&& *final(this) == *old(this)
                &&& final(heap)@.recs == old(heap)@.recs
                &&& final(heap)@.destructs == old(heap)@.destructs
                &&& final(heap)@.realloc_calls == old(heap)@.realloc_calls
            },
    {
        let addr = this.ptr.ptr;
        let unique = {
            let prefix = this.ptr.prefix(heap);
            prefix.strong == 1 && prefix.weak == 1
        };
        if unique {
            return Ok(());
        }
        let (value2, allocator2) = {
            let rec = heap.record(addr);
            let a2 = rec.prefix.allocator.as_ref().unwrap().clone();
            let v = rec.payload.as_ref().unwrap();
            let t2 = v[0].clone();
            (t2, a2)
        };
        match Arc::try_new_in(heap, value2, allocator2) {
            Ok(new_arc) => {
                let old_ptr = this.ptr;
                *this = new_arc;
                let old_handle = Arc::<T, Alloc> { ptr: old_ptr };
                old_handle.drop_in(heap);
                Ok(())
            },
            Err(_) => Err(AllocationError()),
        }
    }

    /// Takes the value out of the allocation if `this` is its sole owner,
    /// freeing the allocation without running the payload destructor (the
    /// value is moved out, not destroyed).  Otherwise returns `this`
    /// untouched.
    pub fn try_into_inner(this: Self, heap: &mut Heap<T, Alloc>) -> (r: Result<T, Self>)
        requires
            old(heap).wf(),
            this.valid(old(heap)@),
            this.inited(old(heap)@),
        ensures
            final(heap).wf(),
            r is Ok <==> (old(heap)@.recs[this.addr()].prefix.strong == 1 && old(heap)@.recs[
                this.addr()
            ].prefix.weak == 1),
            r matches Ok(v) ==> v == this.value(old(heap)@) && final(heap)@ == (HeapModel {
                recs: old(heap)@.recs.remove(this.addr()),
                free_calls: bump(old(heap)@.free_calls),
                ..old(heap)@
            }),
            r matches Err(arc) ==> arc.addr() == this.addr() && final(heap)@ == old(heap)@,
    {
        let addr = this.ptr.ptr;
        let unique = {
            let prefix = this.ptr.prefix(heap);
            prefix.strong == 1 && prefix.weak == 1
        };
        if !unique {
            Err(this)
        } else {
            let rec = heap.take_record(addr);
            let AllocRecord { prefix, payload, slots: _ } = rec;
            let mut v = match payload {
                Some(v) => v,
                None => vstd::pervasive::unreached(),
            };
            let value = match v.pop() {
                Some(p) => p,
                None => vstd::pervasive::unreached(),
            };
            let mut a = match prefix.allocator {
                Some(a) => a,
                None => vstd::pervasive::unreached(),
            };
            a.free(prefix.origin);
            heap.note_free();
            proof {
                lemma_recs_wf_remove(old(heap)@.recs, addr);
            }
            Ok(value)
        }
    }

    /// Constructs an additional weak observer of this allocation: the weak
    /// count goes up by one and nothing else changes.
    pub fn downgrade(this: &Self, heap: &mut Heap<T, Alloc>) -> (r: Weak<T, Alloc>)
        requires
            old(heap).wf(),
            this.valid(old(heap)@),
            old(heap)@.recs[this.addr()].prefix.weak <= usize::MAX - 2,
        ensures
            final(heap).wf(),
            r.addr() == this.addr(),
            final(heap)@ == (HeapModel {
                recs: old(heap)@.recs.insert(
                    this.addr(),
                    rec_with_weak(
                        old(heap)@.recs[this.addr()],
                        (old(heap)@.recs[this.addr()].prefix.weak + 1) as usize,
                    ),
                ),
                ..old(heap)@
            }),
    {
        let addr = this.ptr.ptr;
        let mut rec = heap.take_record(addr);
        rec.prefix.weak = rec.prefix.weak + 1;
        proof {
            lemma_recs_wf_insert(heap@.recs, addr, rec);
            assert(old(heap)@.recs.remove(addr).insert(addr, rec) =~= old(heap)@.recs.insert(
                addr,
                rec,
            ));
        }
        heap.put_record(addr, rec);
        Weak { ptr: this.ptr }
    }

    /// Increments the strong count of the allocation at `ptr` directly,
    /// returning the previous count.  The caller asserts that a strong
    /// handle to this allocation legitimately exists.
    pub fn increment_strong_count(heap: &mut Heap<T, Alloc>, ptr: AllocPtr<T, Alloc>) -> (r: usize)
        requires
            old(heap).wf(),
            old(heap)@.recs.contains_key(ptr.ptr),
            old(heap)@.recs[ptr.ptr].prefix.strong <= usize::MAX / 2 - 2,
        ensures
            final(heap).wf(),
            r == old(heap)@.recs[ptr.ptr].prefix.strong,
            final(heap)@ == (HeapModel {
                recs: old(heap)@.recs.insert(
                    ptr.ptr,
                    rec_with_strong(
                        old(heap)@.recs[ptr.ptr],
                        (old(heap)@.recs[ptr.ptr].prefix.strong + 1) as usize,
                    ),
                ),
                ..old(heap)@
            }),
    {
        let mut rec = heap.take_record(ptr.ptr);
        let prev = rec.prefix.strong;
        rec.prefix.strong = prev + 1;
        proof {
            lemma_recs_wf_insert(heap@.recs, ptr.ptr, rec);
            assert(old(heap)@.recs.remove(ptr.ptr).insert(ptr.ptr, rec) =~= old(
                heap,
            )@.recs.insert(ptr.ptr, rec));
        }
        heap.put_record(ptr.ptr, rec);
        prev
    }

    /// Increments the weak count directly, returning the previous count.
    pub fn increment_weak_count(this: &Self, heap: &mut Heap<T, Alloc>) -> (r: usize)
        requires
            old(heap).wf(),
            this.valid(old(heap)@),
            old(heap)@.recs[this.addr()].prefix.weak <= usize::MAX - 2,
        ensures
            final(heap).wf(),
            r == old(heap)@.recs[this.addr()].prefix.weak,
            final(heap)@ == (HeapModel {
                recs: old(heap)@.recs.insert(
                    this.addr(),
                    rec_with_weak(
                        old(heap)@.recs[this.addr()],
                        (old(heap)@.recs[this.addr()].prefix.weak + 1) as usize,
                    ),
                ),
                ..old(heap)@
            }),
    {
        let addr = this.ptr.ptr;
        let mut rec = heap.take_record(addr);
        let prev = rec.prefix.weak;
        rec.prefix.weak = prev + 1;
        proof {
            lemma_recs_wf_insert(heap@.recs, addr, rec);
            assert(old(heap)@.recs.remove(addr).insert(addr, rec) =~= old(heap)@.recs.insert(
                addr,
                rec,
            ));
        }
        heap.put_record(addr, rec);
        prev
    }

    /// A borrow of the allocator this allocation was made with.
    pub fn allocator<'a>(this: &Self, heap: &'a Heap<T, Alloc>) -> (r: &'a Alloc)
        requires
            heap@.recs.contains_key(this.addr()),
            heap@.recs[this.addr()].prefix.allocator is Some,
        ensures
            *r == heap@.recs[this.addr()].prefix.allocator.unwrap(),
    {
        this.ptr.prefix(heap).allocator.as_ref().unwrap()
    }

    /// The owning address, without giving up the handle.
    pub fn as_raw(this: &Self) -> (r: AllocPtr<T, Alloc>)
        ensures
            r.ptr == this.addr(),
    {
        this.ptr
    }

    /// Releases tracked ownership: hands the owning address out and leaks
    /// the handle's share of the counts.  Every release must be matched by
    /// exactly one later [`Arc::from_raw`].
    pub fn into_raw(this: Self) -> (r: AllocPtr<T, Alloc>)
        ensures
            r.ptr == this.addr(),
    {
        this.ptr
    }

    /// Resumes the tracked ownership given up by [`Arc::into_raw`].
    pub fn from_raw(ptr: AllocPtr<T, Alloc>) -> (r: Self)
        ensures
            r.addr() == ptr.ptr,
    {
        Arc { ptr }
    }
}

impl<T, Alloc: IAlloc> Weak<T, Alloc> {
    /// The payload address this handle wraps.
    pub closed spec fn addr(self) -> usize {
        self.ptr.ptr
    }

    /// The handle points at a live allocation that a weak observer may
    /// legally hold.
    pub open spec fn valid(self, m: HeapModel<T, Alloc>) -> bool {
        &&& m.recs.contains_key(self.addr())
        &&& m.recs[self.addr()].prefix.weak >= 1
        &&& m.recs[self.addr()].prefix.allocator is Some
    }

    /// A new weak observer of the same allocation.
    pub fn clone_in(&self, heap: &mut Heap<T, Alloc>) -> (r: Weak<T, Alloc>)
        requires
            old(heap).wf(),
            self.valid(old(heap)@),
            old(heap)@.recs[self.addr()].prefix.weak <= usize::MAX - 2,
        ensures
            final(heap).wf(),
            r.addr() == self.addr(),
            final(heap)@ == (HeapModel {
                recs: old(heap)@.recs.insert(
                    self.addr(),
                    rec_with_weak(
                        old(heap)@.recs[self.addr()],
                        (old(heap)@.recs[self.addr()].prefix.weak + 1) as usize,
                    ),
                ),
                ..old(heap)@
            }),
    {
        let addr = self.ptr.ptr;
        let mut rec = heap.take_record(addr);
        rec.prefix.weak = rec.prefix.weak + 1;
        proof {
            lemma_recs_wf_insert(heap@.recs, addr, rec);
            assert(old(heap)@.recs.remove(addr).insert(addr, rec) =~= old(heap)@.recs.insert(
                addr,
                rec,
            ));
        }
        heap.put_record(addr, rec);
        Weak { ptr: self.ptr }
    }

    /// Gives up this weak observer: the weak count goes down by one, and on
    /// the transition to zero the backing memory is freed through the
    /// allocator embedded in the header (exactly once per allocation, since
    /// the record disappears with it).
    pub fn drop_in(self, heap: &mut Heap<T, Alloc>)
        requires
            old(heap).wf(),
            self.valid(old(heap)@),
        ensures
            final(heap).wf(),
            final(heap)@ == spec_drop_weak(old(heap)@, self.addr()),
    {
        let addr = self.ptr.ptr;
        let mut rec = heap.take_record(addr);
        if rec.prefix.weak != 1 {
            rec.prefix.weak = rec.prefix.weak - 1;
            proof {
                lemma_recs_wf_insert(heap@.recs, addr, rec);
                assert(old(heap)@.recs.remove(addr).insert(addr, rec) =~= old(heap)@.recs.insert(
                    addr,
                    rec,
                ));
            }
            heap.put_record(addr, rec);
        } else {
            let mut a = match rec.prefix.allocator {
                Some(a) => a,
                None => vstd::pervasive::unreached(),
            };
            a.free(rec.prefix.origin);
            heap.note_free();
            proof {
                lemma_recs_wf_remove(old(heap)@.recs, addr);
            }
        }
    }

    /// Attempts to upgrade this observer into a strong owner.
    ///
    /// The strong counter's top bit serves the real, concurrent algorithm
    /// as a transient "upgrade in progress" marker: the counter is
    /// atomically OR-ed with the top bit, and the observed prior value
    /// decides.  While the counter stays below the top bit — which the heap
    /// invariant guarantees — OR-ing the bit in equals adding
    /// [`USIZE_TOP_BIT`] and clearing it equals subtracting it, which is
    /// how this model writes those two steps.
    ///
    /// The upgrade fails exactly when no strong owner exists at the call —
    /// the marker is then cleared by storing a plain 0, so a destroyed
    /// value is never resurrected — and otherwise admits one new strong
    /// owner: the count observed afterwards is exactly one higher.
    pub fn upgrade(&self, heap: &mut Heap<T, Alloc>) -> (r: Option<Arc<T, Alloc>>)
        requires
            old(heap).wf(),
            self.valid(old(heap)@),
            old(heap)@.recs[self.addr()].prefix.strong <= usize::MAX / 2 - 2,
        ensures
            final(heap).wf(),
            r is None <==> old(heap)@.recs[self.addr()].prefix.strong == 0,
            r is None ==> final(heap)@ == old(heap)@,
            r matches Some(arc) ==> arc.addr() == self.addr() && final(heap)@ == (HeapModel {
                recs: old(heap)@.recs.insert(
                    self.addr(),
                    rec_with_strong(
                        old(heap)@.recs[self.addr()],
                        (old(heap)@.recs[self.addr()].prefix.strong + 1) as usize,
                    ),
                ),
                ..old(heap)@
            }),
    {
        let addr = self.ptr.ptr;
        let mut rec = heap.take_record(addr);
        let prior = rec.prefix.strong;
        rec.prefix.strong = prior + USIZE_TOP_BIT;
        if prior == 0 || prior == USIZE_TOP_BIT {
            rec.prefix.strong = 0;
            proof {
                lemma_recs_wf_insert(heap@.recs, addr, rec);
                assert(rec == old(heap)@.recs[addr]);
            }
            heap.put_record(addr, rec);
            proof {
                assert(heap@.recs =~= old(heap)@.recs);
            }
            None
        } else {
            rec.prefix.strong = rec.prefix.strong + 1;
            rec.prefix.strong = rec.prefix.strong - USIZE_TOP_BIT;
            proof {
                lemma_recs_wf_insert(heap@.recs, addr, rec);
                assert(old(heap)@.recs.remove(addr).insert(addr, rec) =~= old(heap)@.recs.insert(
                    addr,
                    rec,
                ));
            }
            heap.put_record(addr, rec);
            Some(Arc { ptr: self.ptr })
        }
    }

    /// Releases tracked ownership of this observer; see [`Arc::into_raw`].
    pub fn into_raw(this: Self) -> (r: AllocPtr<T, Alloc>)
        ensures
            r.ptr == this.addr(),
    {
        this.ptr
    }

    /// Resumes the tracked ownership given up by [`Weak::into_raw`].
    pub fn from_raw(ptr: AllocPtr<T, Alloc>) -> (r: Self)
        ensures
            r.addr() == ptr.ptr,
    {
        Weak { ptr }
    }
}

/// Cloning a strong handle and then dropping the clone leaves the heap —
/// both counts, the payload, and the payload address of every allocation —
/// exactly as it was.  The two sides are precisely the transitions that
/// [`Arc::clone_in`] and [`Arc::drop_in`] promise.
pub proof fn lemma_clone_then_drop<T, Alloc: IAlloc>(m: HeapModel<T, Alloc>, addr: usize)
    requires
        m.wf(),
        m.recs.contains_key(addr),
        1 <= m.recs[addr].prefix.strong <= usize::MAX / 2 - 2,
    ensures
        spec_drop_strong(
            HeapModel {
                recs: m.recs.insert(
                    addr,
                    rec_with_strong(m.recs[addr], (m.recs[addr].prefix.strong + 1) as usize),
                ),
                ..m
            },
            addr,
        ) == m,
{
    let rec = m.recs[addr];
    let s = rec.prefix.strong;
    let m1 = HeapModel { recs: m.recs.insert(addr, rec_with_strong(rec, (s + 1) as usize)), ..m };
    let m2 = spec_drop_strong(m1, addr);
    assert(rec_with_strong(rec_with_strong(rec, (s + 1) as usize), s) == rec);
    assert(m2.recs =~= m.recs);
}

} // verus!

