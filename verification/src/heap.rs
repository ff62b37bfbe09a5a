//! The allocation-header convention and the heap model.
//!
//! Every allocation consists of an [`AllocPrefix`] (strong count, weak
//! count, capacity slot, origin address, allocator slot) directly before
//! the payload.  Shared memory is modelled by [`Heap`]: a map from payload
//! addresses to [`AllocRecord`] values, together with counters for the
//! allocator calls and payload destructions the owner families perform.
//! Handles (strong and weak pointers, slices, the atomic slot) store only
//! an address; every operation on them takes the heap and states how the
//! record at that address changes.

use vstd::prelude::*;

verus! {

use std::collections::HashMap;
use vstd::layout::layout_for_type_is_valid;
use crate::allocator::IAlloc;
use crate::layout::{spec_round_up, round_up_to, lemma_round_up, lemma_pow2_fits_usize};

broadcast use vstd::std_specs::hash::group_hash_axioms;

/// The prefix common to all allocations of this crate.
///
/// The counters of the real type are atomics; the model holds plain values
/// and presents every operation as one indivisible transition on the heap.
pub struct AllocPrefix<Alloc> {
    /// The strong count for reference-counted owners.
    pub strong: usize,
    /// The weak count; at least 1 for as long as the allocation lives,
    /// because all strong owners together hold one implicit weak reference.
    pub weak: usize,
    /// A slot reinterpreted by the owning container; a buffer turned into a
    /// slice owner stores its capacity here.
    pub capacity: usize,
    /// The address the allocator returned; freed through, and possibly
    /// below, the payload address.
    pub origin: usize,
    /// A slot for the allocator instance; empty until an owning family
    /// writes the allocator into it.
    pub allocator: Option<Alloc>,
}

/// One allocation: its header, its payload values (present until the
/// payload destructor has run), and the number of element slots it was
/// created with.
pub struct AllocRecord<T, Alloc> {
    /// The header preceding the payload.
    pub prefix: AllocPrefix<Alloc>,
    /// The payload: `None` before initialization and again after the
    /// destructor has run.
    pub payload: Option<Vec<T>>,
    /// The element capacity the allocation was made with.
    pub slots: usize,
}

impl<Alloc> AllocPrefix<Alloc> {
    /// The offset between the start of the header and a following field of
    /// type `T`: the header size, padded up to `T`'s alignment.
    pub fn skip_to<T>() -> (r: usize)
        ensures
            r == spec_round_up(
                vstd::layout::size_of::<AllocPrefix<Alloc>>() as int,
                vstd::layout::align_of::<T>() as int,
            ),
    {
        layout_for_type_is_valid::<AllocPrefix<Alloc>>();
        layout_for_type_is_valid::<T>();
        proof {
            broadcast use vstd::layout::align_properties;

            lemma_pow2_fits_usize(core::mem::align_of::<T>());
            lemma_round_up(
                vstd::layout::size_of::<AllocPrefix<Alloc>>() as int,
                vstd::layout::align_of::<T>() as int,
            );
        }
        round_up_to(
            core::mem::size_of::<AllocPrefix<Alloc>>(),
            core::mem::align_of::<T>(),
        )
    }
}

/// The mathematical state of a heap: the records by payload address, and
/// how many allocator calls and payload destructions have been observed.
pub ghost struct HeapModel<T, Alloc> {
    /// The live allocations, keyed by payload address.
    pub recs: Map<usize, AllocRecord<T, Alloc>>,
    /// How many times an allocator's `allocate` was invoked through the heap.
    pub alloc_calls: usize,
    /// How many times an allocator's `free` was invoked through the heap.
    pub free_calls: usize,
    /// How many times an allocator's `realloc` was invoked through the heap.
    pub realloc_calls: usize,
    /// How many payload destructors have run.
    pub destructs: usize,
}

/// Saturating increment for the observation counters.
pub open spec fn bump(n: usize) -> usize {
    if n == usize::MAX {
        n
    } else {
        (n + 1) as usize
    }
}

/// What holds of every record of a well-formed heap.
pub open spec fn rec_wf<T, Alloc: IAlloc>(addr: usize, rec: AllocRecord<T, Alloc>) -> bool {
    &&& addr != 0
    &&& 1 <= rec.prefix.weak <= usize::MAX - 1
    &&& rec.prefix.strong <= usize::MAX / 2 - 1
    &&& (rec.prefix.strong == 0 ==> rec.payload is None)
    &&& (rec.prefix.allocator matches Some(a) ==> a.live().contains(rec.prefix.origin))
    &&& 1 <= rec.prefix.origin
}

/// Every allocation of the map is a well-formed record.
pub open spec fn recs_wf<T, Alloc: IAlloc>(recs: Map<usize, AllocRecord<T, Alloc>>) -> bool {
    forall|addr: usize| #[trigger] recs.contains_key(addr) ==> rec_wf(addr, recs[addr])
}

impl<T, Alloc: IAlloc> HeapModel<T, Alloc> {
    /// The heap invariant: every live allocation is a well-formed record.
    pub open spec fn wf(self) -> bool {
        recs_wf(self.recs)
    }
}

/// Storing one well-formed record preserves the invariant.
pub proof fn lemma_recs_wf_insert<T, Alloc: IAlloc>(
    recs: Map<usize, AllocRecord<T, Alloc>>,
    addr: usize,
    rec: AllocRecord<T, Alloc>,
)
    requires
        recs_wf(recs),
        rec_wf(addr, rec),
    ensures
        recs_wf(recs.insert(addr, rec)),
{
    assert forall|k: usize| #[trigger] recs.insert(addr, rec).contains_key(k) implies rec_wf(
        k,
        recs.insert(addr, rec)[k],
    ) by {
        if k != addr {
            assert(recs.contains_key(k));
        }
    }
}

/// Removing a record preserves the invariant.
pub proof fn lemma_recs_wf_remove<T, Alloc: IAlloc>(
    recs: Map<usize, AllocRecord<T, Alloc>>,
    addr: usize,
)
    requires
        recs_wf(recs),
    ensures
        recs_wf(recs.remove(addr)),
{
    assert forall|k: usize| #[trigger] recs.remove(addr).contains_key(k) implies rec_wf(
        k,
        recs.remove(addr)[k],
    ) by {
        assert(recs.contains_key(k));
    }
}

/// For any live allocation the weak count is at least 1: the strong owners
/// collectively hold one implicit weak reference, so the weak count can
/// reach 0 only at the moment the allocation is freed and removed.
pub proof fn lemma_live_allocation_has_weak<T, Alloc: IAlloc>(
    m: HeapModel<T, Alloc>,
    addr: usize,
)
    requires
        m.wf(),
        m.recs.contains_key(addr),
    ensures
        m.recs[addr].prefix.weak >= 1,
{
}

/// The record `rec` with its strong count set to `strong`.
pub open spec fn rec_with_strong<T, Alloc>(rec: AllocRecord<T, Alloc>, strong: usize) -> AllocRecord<
    T,
    Alloc,
> {
    AllocRecord { prefix: AllocPrefix { strong, ..rec.prefix }, ..rec }
}

/// The record `rec` with its weak count set to `weak`.
pub open spec fn rec_with_weak<T, Alloc>(rec: AllocRecord<T, Alloc>, weak: usize) -> AllocRecord<
    T,
    Alloc,
> {
    AllocRecord { prefix: AllocPrefix { weak, ..rec.prefix }, ..rec }
}

/// The record `rec` after its payload destructor: strong count 0, the
/// implicit weak reference of the strong owners given up, the payload gone.
pub open spec fn rec_destroyed<T, Alloc>(rec: AllocRecord<T, Alloc>) -> AllocRecord<T, Alloc> {
    AllocRecord {
        prefix: AllocPrefix { strong: 0, weak: (rec.prefix.weak - 1) as usize, ..rec.prefix },
        payload: None,
        ..rec
    }
}

/// The heap after one strong owner of the allocation at `addr` is dropped.
///
/// With other strong owners left, only the strong count goes down.  When the
/// last strong owner goes, the payload destructor runs (observed by the
/// `destructs` counter if a payload was ever written), and the strong
/// owners' implicit weak reference is dropped in turn: with other weak
/// observers left the record stays, destroyed; otherwise the allocation is
/// freed through its embedded allocator and the record disappears.
pub open spec fn spec_drop_strong<T, Alloc: IAlloc>(
    m: HeapModel<T, Alloc>,
    addr: usize,
) -> HeapModel<T, Alloc> {
    let rec = m.recs[addr];
    let destructs = if rec.payload is Some {
        bump(m.destructs)
    } else {
        m.destructs
    };
    if rec.prefix.strong > 1 {
        HeapModel {
            recs: m.recs.insert(addr, rec_with_strong(rec, (rec.prefix.strong - 1) as usize)),
            ..m
        }
    } else if rec.prefix.weak > 1 {
        HeapModel { recs: m.recs.insert(addr, rec_destroyed(rec)), destructs, ..m }
    } else {
        HeapModel { recs: m.recs.remove(addr), destructs, free_calls: bump(m.free_calls), ..m }
    }
}

/// The heap after one weak observer of the allocation at `addr` is dropped:
/// the weak count goes down, and on the transition to zero the allocation
/// is freed through its embedded allocator and the record disappears.
pub open spec fn spec_drop_weak<T, Alloc: IAlloc>(
    m: HeapModel<T, Alloc>,
    addr: usize,
) -> HeapModel<T, Alloc> {
    let rec = m.recs[addr];
    if rec.prefix.weak > 1 {
        HeapModel { recs: m.recs.insert(addr, rec_with_weak(rec, (rec.prefix.weak - 1) as usize)), ..m }
    } else {
        HeapModel { recs: m.recs.remove(addr), free_calls: bump(m.free_calls), ..m }
    }
}

/// The payload destructor runs exactly once per allocation, exactly when
/// the strong count goes from 1 to 0: a strong drop observes a destructor
/// run (in `destructs`) if and only if it is the last one and a payload is
/// present — and once the strong count has reached 0, the invariant says
/// the payload is gone, so no later transition can run it again.
pub proof fn lemma_destructor_exactly_once<T, Alloc: IAlloc>(m: HeapModel<T, Alloc>, addr: usize)
    requires
        m.wf(),
        m.recs.contains_key(addr),
    ensures
        spec_drop_strong(m, addr).destructs == if m.recs[addr].prefix.strong == 1
            && m.recs[addr].payload is Some {
            bump(m.destructs)
        } else {
            m.destructs
        },
        m.recs[addr].prefix.strong == 0 ==> m.recs[addr].payload is None,
{
}

/// The backing memory is freed exactly once per allocation, exactly when
/// the weak count goes from 1 to 0: a weak drop frees (observed in
/// `free_calls`) if and only if it is the last one, and the record then
/// disappears, so nothing can free the same allocation again.
pub proof fn lemma_freed_exactly_once<T, Alloc: IAlloc>(m: HeapModel<T, Alloc>, addr: usize)
    requires
        m.wf(),
        m.recs.contains_key(addr),
    ensures
        spec_drop_weak(m, addr).free_calls == if m.recs[addr].prefix.weak == 1 {
            bump(m.free_calls)
        } else {
            m.free_calls
        },
        m.recs[addr].prefix.weak == 1 ==> !spec_drop_weak(m, addr).recs.contains_key(addr),
        m.recs[addr].prefix.weak != 1 ==> spec_drop_weak(m, addr).recs.contains_key(addr),
{
}

/// The two maps agree everywhere except possibly at `addr`, and no key was
/// added or removed besides possibly `addr`.
pub open spec fn recs_frame<T, Alloc>(
    m0: Map<usize, AllocRecord<T, Alloc>>,
    m1: Map<usize, AllocRecord<T, Alloc>>,
    addr: usize,
) -> bool {
    forall|k: usize| k != addr ==> (#[trigger] m0.contains_key(k) <==> m1.contains_key(k)) && (
    m0.contains_key(k) ==> m1[k] == m0[k])
}

/// The observation counters of the two states agree.
pub open spec fn same_counters<T, Alloc>(m0: HeapModel<T, Alloc>, m1: HeapModel<T, Alloc>) -> bool {
    &&& m1.alloc_calls == m0.alloc_calls
    &&& m1.free_calls == m0.free_calls
    &&& m1.realloc_calls == m0.realloc_calls
    &&& m1.destructs == m0.destructs
}

/// The heap: all live allocations, keyed by payload address, plus counters
/// observing the traffic between the owner families and their allocators.
pub struct Heap<T, Alloc> {
    records: HashMap<usize, AllocRecord<T, Alloc>>,
    alloc_calls: usize,
    free_calls: usize,
    realloc_calls: usize,
    destructs: usize,
}

impl<T, Alloc> View for Heap<T, Alloc> {
    type V = HeapModel<T, Alloc>;

    closed spec fn view(&self) -> HeapModel<T, Alloc> {
        HeapModel {
            recs: self.records@,
            alloc_calls: self.alloc_calls,
            free_calls: self.free_calls,
            realloc_calls: self.realloc_calls,
            destructs: self.destructs,
        }
    }
}

impl<T, Alloc: IAlloc> Heap<T, Alloc> {
    /// The heap invariant; see [`HeapModel::wf`].
    pub open spec fn wf(&self) -> bool {
        self@.wf()
    }

    /// An empty heap with all observation counters at zero.
    pub fn new() -> (r: Heap<T, Alloc>)
        ensures
            r@.recs == Map::<usize, AllocRecord<T, Alloc>>::empty(),
            r@.alloc_calls == 0,
            r@.free_calls == 0,
            r@.realloc_calls == 0,
            r@.destructs == 0,
            r.wf(),
    {
        Heap {
            records: HashMap::new(),
            alloc_calls: 0,
            free_calls: 0,
            realloc_calls: 0,
            destructs: 0,
        }
    }

    /// Whether an allocation lives at `addr`.
    pub fn contains(&self, addr: usize) -> (r: bool)
        ensures
            r == self@.recs.contains_key(addr),
    {
        self.records.contains_key(&addr)
    }

    /// How many times `allocate` has been called through this heap.
    pub fn alloc_calls(&self) -> (r: usize)
        ensures
            r == self@.alloc_calls,
    {
        self.alloc_calls
    }

    /// How many times `free` has been called through this heap.
    pub fn free_calls(&self) -> (r: usize)
        ensures
            r == self@.free_calls,
    {
        self.free_calls
    }

    /// How many times `realloc` has been called through this heap.
    pub fn realloc_calls(&self) -> (r: usize)
        ensures
            r == self@.realloc_calls,
    {
        self.realloc_calls
    }

    /// How many payload destructors have run.
    pub fn destructs(&self) -> (r: usize)
        ensures
            r == self@.destructs,
    {
        self.destructs
    }

    /// A borrow of the record at `addr`.
    pub(crate) fn record(&self, addr: usize) -> (r: &AllocRecord<T, Alloc>)
        requires
            self@.recs.contains_key(addr),
        ensures
            *r == self@.recs[addr],
    {
        self.records.get(&addr).unwrap()
    }

    /// Removes and returns the record at `addr`.
    pub(crate) fn take_record(&mut self, addr: usize) -> (r: AllocRecord<T, Alloc>)
        requires
            old(self)@.recs.contains_key(addr),
        ensures
            r == old(self)@.recs[addr],
            final(self)@ == (HeapModel { recs: old(self)@.recs.remove(addr), ..old(self)@ }),
    {
        let r = self.records.remove(&addr).unwrap();
        r
    }

    /// Stores `rec` at `addr`, replacing any record already there.
    pub(crate) fn put_record(&mut self, addr: usize, rec: AllocRecord<T, Alloc>)
        ensures
            final(self)@ == (HeapModel { recs: old(self)@.recs.insert(addr, rec), ..old(self)@ }),
    {
        self.records.insert(addr, rec);
    }

    /// Notes one `allocate` call.
    pub(crate) fn note_allocate(&mut self)
        ensures
            final(self)@ == (HeapModel { alloc_calls: bump(old(self)@.alloc_calls), ..old(self)@ }),
    {
        if self.alloc_calls < usize::MAX {
            self.alloc_calls = self.alloc_calls + 1;
        }
    }

    /// Notes one `free` call.
    pub(crate) fn note_free(&mut self)
        ensures
            final(self)@ == (HeapModel { free_calls: bump(old(self)@.free_calls), ..old(self)@ }),
    {
        if self.free_calls < usize::MAX {
            self.free_calls = self.free_calls + 1;
        }
    }

    /// Notes one `realloc` call.
    pub(crate) fn note_realloc(&mut self)
        ensures
            final(self)@ == (HeapModel {
                realloc_calls: bump(old(self)@.realloc_calls),
                ..old(self)@
            }),
    {
        if self.realloc_calls < usize::MAX {
            self.realloc_calls = self.realloc_calls + 1;
        }
    }

    /// Notes one payload destruction.
    pub(crate) fn note_destruct(&mut self)
        ensures
            final(self)@ == (HeapModel { destructs: bump(old(self)@.destructs), ..old(self)@ }),
    {
        if self.destructs < usize::MAX {
            self.destructs = self.destructs + 1;
        }
    }
}

} // verus!
