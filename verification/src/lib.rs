//! A verified model of an allocation-header convention shared by a family of
//! reference-counted owning handles.
//!
//! Every allocation is preceded by a header that carries a strong count, a
//! weak count, a capacity slot, the address originally returned by the
//! allocator, and the allocator instance itself.  Strong and weak pointers,
//! their slice-valued analogs, a growable buffer and an atomically swappable
//! owning slot all share that convention, so they can be converted into one
//! another without copying the payload.
//!
//! Raw shared memory is modelled by an explicit [`Heap`] value: a map from
//! payload addresses to allocation records.  Every operation that the real
//! code performs through a raw pointer takes the heap as an argument and
//! states in its contract exactly how the record at its address changes.

mod allocator;
mod arc;
mod heap;
mod layout;
mod ptr;
mod slice;
mod slot;

pub use allocator::{AllocationError, BumpAlloc, IAlloc};
pub use arc::{Arc, USIZE_TOP_BIT, Weak, arc_new_post, arc_uninit_post, lemma_clone_then_drop};
pub use heap::{AllocPrefix, AllocRecord, Heap, HeapModel, bump, lemma_destructor_exactly_once,
    lemma_freed_exactly_once, lemma_live_allocation_has_weak, lemma_recs_wf_insert,
    lemma_recs_wf_remove, rec_destroyed, rec_wf, rec_with_strong, rec_with_weak, recs_frame,
    recs_wf, same_counters, spec_drop_strong, spec_drop_weak};
pub use layout::{Layout, lemma_is_pow2_nonzero, lemma_pow2_fits_usize, lemma_round_up,
    round_up_to, spec_round_up};
pub use ptr::{AllocPtr, AllocSlice, allocate_array_failure, allocate_array_success, can_allocate,
    fresh_record, slot_layout_fits, spec_payload_addr, spec_slot_layout, spec_slot_size};
pub use slice::{ArcSlice, Buffer, WeakSlice};
pub use slot::{AtomicArc, MemOrder};
