use stabby_alloc::{Arc, BumpAlloc, Heap, IAlloc, Layout};

#[test]
fn counting_allocator_scenario() {
    // Construct a strong pointer over 42 with a counting allocator: one
    // allocate call; clone to strong 2; drop one; drop the other, which
    // runs the destructor and frees exactly once.
    let mut heap: Heap<u64, BumpAlloc> = Heap::new();
    let arc = Arc::new_in(&mut heap, 42u64, BumpAlloc::new());
    assert_eq!(heap.alloc_calls(), 1);
    assert_eq!(*Arc::get(&arc, &heap), 42);
    assert_eq!(Arc::strong_count(&arc, &heap), 1);
    assert_eq!(Arc::weak_count(&arc, &heap), 1);

    let arc2 = arc.clone_in(&mut heap);
    assert_eq!(Arc::strong_count(&arc, &heap), 2);

    arc2.drop_in(&mut heap);
    assert_eq!(Arc::strong_count(&arc, &heap), 1);
    assert_eq!(heap.destructs(), 0);
    assert_eq!(heap.free_calls(), 0);

    let raw = Arc::as_raw(&arc);
    arc.drop_in(&mut heap);
    assert_eq!(heap.destructs(), 1);
    assert_eq!(heap.free_calls(), 1);
    assert_eq!(heap.alloc_calls(), 1);
    assert!(!heap.contains(raw.ptr));
}

#[test]
fn clone_then_drop_leaves_counts_and_address() {
    let mut heap: Heap<u32, BumpAlloc> = Heap::new();
    let arc = Arc::new_in(&mut heap, 5u32, BumpAlloc::new());
    let addr_before = Arc::as_raw(&arc).ptr;
    let strong_before = Arc::strong_count(&arc, &heap);
    let weak_before = Arc::weak_count(&arc, &heap);

    let clone = arc.clone_in(&mut heap);
    clone.drop_in(&mut heap);

    assert_eq!(Arc::as_raw(&arc).ptr, addr_before);
    assert_eq!(Arc::strong_count(&arc, &heap), strong_before);
    assert_eq!(Arc::weak_count(&arc, &heap), weak_before);
    assert_eq!(*Arc::get(&arc, &heap), 5);
    arc.drop_in(&mut heap);
}

#[test]
fn upgrade_while_strong_exists() {
    let mut heap: Heap<u64, BumpAlloc> = Heap::new();
    let arc = Arc::new_in(&mut heap, 9u64, BumpAlloc::new());
    let weak = Arc::downgrade(&arc, &mut heap);
    assert_eq!(Arc::weak_count(&arc, &heap), 2);

    let upgraded = weak.upgrade(&mut heap);
    let strong2 = upgraded.expect("a strong owner exists, upgrade must succeed");
    assert_eq!(Arc::strong_count(&arc, &heap), 2);
    assert_eq!(*Arc::get(&strong2, &heap), 9);

    strong2.drop_in(&mut heap);
    weak.drop_in(&mut heap);
    arc.drop_in(&mut heap);
}

#[test]
fn upgrade_after_last_strong_drop_is_absent() {
    // Downgrade, drop the strong pointer, then upgrade: absent.
    let mut heap: Heap<u64, BumpAlloc> = Heap::new();
    let arc = Arc::new_in(&mut heap, 1u64, BumpAlloc::new());
    let weak = Arc::downgrade(&arc, &mut heap);
    arc.drop_in(&mut heap);
    assert_eq!(heap.destructs(), 1);

    assert!(weak.upgrade(&mut heap).is_none());
    assert!(weak.upgrade(&mut heap).is_none());

    assert_eq!(heap.free_calls(), 0);
    weak.drop_in(&mut heap);
    assert_eq!(heap.free_calls(), 1);
}

#[test]
fn try_new_in_reports_allocation_failure() {
    // An allocator whose region is exhausted fails, returning the value
    // and the allocator.
    let mut heap: Heap<u64, BumpAlloc> = Heap::new();
    let exhausted = BumpAlloc::with_base(usize::MAX / 2);
    match Arc::try_new_in(&mut heap, 42u64, exhausted) {
        Ok(_) => panic!("allocation cannot succeed at the top of the address space"),
        Err((value, _allocator)) => assert_eq!(value, 42),
    }
    assert_eq!(heap.destructs(), 0);
}

#[test]
fn try_into_inner_requires_uniqueness() {
    let mut heap: Heap<u64, BumpAlloc> = Heap::new();
    let arc = Arc::new_in(&mut heap, 33u64, BumpAlloc::new());
    let arc2 = arc.clone_in(&mut heap);

    let arc = match Arc::try_into_inner(arc, &mut heap) {
        Ok(_) => panic!("not unique: the handle must come back"),
        Err(arc) => arc,
    };
    arc2.drop_in(&mut heap);

    match Arc::try_into_inner(arc, &mut heap) {
        Ok(value) => assert_eq!(value, 33),
        Err(_) => panic!("unique: the value must come out"),
    }
    // The value was moved out, not destroyed; the memory was freed.
    assert_eq!(heap.destructs(), 0);
    assert_eq!(heap.free_calls(), 1);
}

#[test]
fn try_replace_is_uniqueness_gated() {
    let mut heap: Heap<u64, BumpAlloc> = Heap::new();
    let arc = Arc::new_in(&mut heap, 10u64, BumpAlloc::new());
    let arc2 = arc.clone_in(&mut heap);

    match Arc::try_replace(&arc, &mut heap, 11) {
        Ok(_) => panic!("shared: the write must be refused"),
        Err(value) => assert_eq!(value, 11),
    }
    assert_eq!(*Arc::get(&arc, &heap), 10);

    arc2.drop_in(&mut heap);
    match Arc::try_replace(&arc, &mut heap, 11) {
        Ok(prev) => assert_eq!(prev, 10),
        Err(_) => panic!("unique: the write must succeed"),
    }
    assert_eq!(*Arc::get(&arc, &heap), 11);
    arc.drop_in(&mut heap);
}

#[test]
fn replace_unchecked_on_a_unique_owner() {
    let mut heap: Heap<u64, BumpAlloc> = Heap::new();
    let arc = Arc::new_in(&mut heap, 1u64, BumpAlloc::new());
    let prev = Arc::replace_unchecked(&arc, &mut heap, 2);
    assert_eq!(prev, 1);
    assert_eq!(*Arc::get(&arc, &heap), 2);
    arc.drop_in(&mut heap);
}

#[test]
fn allocator_reference_survives_construction() {
    let mut heap: Heap<u64, BumpAlloc> = Heap::new();
    let arc = Arc::new_in(&mut heap, 1u64, BumpAlloc::new());
    // The embedded allocator still owns the allocation's origin; a fresh
    // instance it hands out next does not collide with it.
    let _allocator: &BumpAlloc = Arc::allocator(&arc, &heap);
    arc.drop_in(&mut heap);
}

#[test]
fn make_mut_copies_when_shared() {
    let mut heap: Heap<u64, BumpAlloc> = Heap::new();
    let mut arc = Arc::new_in(&mut heap, 7u64, BumpAlloc::new());
    let other = arc.clone_in(&mut heap);
    let shared_addr = Arc::as_raw(&other).ptr;

    Arc::make_mut(&mut arc, &mut heap).expect("allocation succeeds");
    assert_ne!(Arc::as_raw(&arc).ptr, shared_addr);
    assert_eq!(*Arc::get(&arc, &heap), 7);
    assert!(Arc::is_unique(&arc, &heap));
    assert_eq!(Arc::strong_count(&other, &heap), 1);

    // Exclusive access after the copy: writes no longer affect `other`.
    Arc::try_replace(&arc, &mut heap, 8).expect("unique after make_mut");
    assert_eq!(*Arc::get(&other, &heap), 7);
    assert_eq!(*Arc::get(&arc, &heap), 8);

    other.drop_in(&mut heap);
    arc.drop_in(&mut heap);
}

#[test]
fn make_mut_keeps_unique_owner_in_place() {
    let mut heap: Heap<u64, BumpAlloc> = Heap::new();
    let mut arc = Arc::new_in(&mut heap, 3u64, BumpAlloc::new());
    let addr = Arc::as_raw(&arc).ptr;
    Arc::make_mut(&mut arc, &mut heap).expect("nothing to do");
    assert_eq!(Arc::as_raw(&arc).ptr, addr);
    assert_eq!(heap.alloc_calls(), 1);
    arc.drop_in(&mut heap);
}

#[test]
fn try_make_in_failed_construction_returns_uninit() {
    let mut heap: Heap<u64, BumpAlloc> = Heap::new();
    match Arc::try_make_in(&mut heap, Err(()), BumpAlloc::new()) {
        Err(Ok(uninit)) => {
            // The allocation is kept; dropping it runs no destructor.
            assert_eq!(heap.alloc_calls(), 1);
            uninit.drop_in(&mut heap);
            assert_eq!(heap.destructs(), 0);
            assert_eq!(heap.free_calls(), 1);
        },
        _ => panic!("a failed constructor must hand the allocation back"),
    }
}

#[test]
fn try_make_in_successful_construction() {
    let mut heap: Heap<u64, BumpAlloc> = Heap::new();
    match Arc::try_make_in(&mut heap, Ok(12u64), BumpAlloc::new()) {
        Ok(arc) => {
            assert_eq!(*Arc::get(&arc, &heap), 12);
            arc.drop_in(&mut heap);
        },
        _ => panic!("construction succeeded, the owner must be returned"),
    }
}

#[test]
fn increment_counts_return_previous_values() {
    let mut heap: Heap<u64, BumpAlloc> = Heap::new();
    let arc = Arc::new_in(&mut heap, 2u64, BumpAlloc::new());
    let prev = Arc::increment_strong_count(&mut heap, Arc::as_raw(&arc));
    assert_eq!(prev, 1);
    assert_eq!(Arc::strong_count(&arc, &heap), 2);
    let prev_weak = Arc::increment_weak_count(&arc, &mut heap);
    assert_eq!(prev_weak, 1);
    assert_eq!(Arc::weak_count(&arc, &heap), 2);
    // Balance the raw increments before dropping.
    let extra = Arc::from_raw(Arc::as_raw(&arc));
    extra.drop_in(&mut heap);
    let weak = stabby_alloc::Weak::from_raw(Arc::as_raw(&arc));
    weak.drop_in(&mut heap);
    arc.drop_in(&mut heap);
    assert_eq!(heap.free_calls(), 1);
}

#[test]
fn into_raw_and_from_raw_round_trip() {
    let mut heap: Heap<u64, BumpAlloc> = Heap::new();
    let arc = Arc::new_in(&mut heap, 4u64, BumpAlloc::new());
    let strong_before = Arc::strong_count(&arc, &heap);
    let raw = Arc::into_raw(arc);
    let arc = Arc::from_raw(raw);
    assert_eq!(Arc::strong_count(&arc, &heap), strong_before);
    assert_eq!(*Arc::get(&arc, &heap), 4);
    arc.drop_in(&mut heap);
}

#[test]
fn exhausted_bump_allocator_returns_null() {
    let mut a = BumpAlloc::with_base(usize::MAX / 2);
    assert_eq!(a.allocate(Layout { size: 16, align: 8 }), 0);
}

#[test]
fn zero_size_request_returns_null() {
    let mut a = BumpAlloc::new();
    assert_eq!(a.allocate(Layout { size: 0, align: 1 }), 0);
}

#[test]
fn bump_allocator_respects_alignment() {
    let mut a = BumpAlloc::new();
    let r = a.allocate(Layout { size: 10, align: 16 });
    assert_ne!(r, 0);
    assert_eq!(r % 16, 0);
    let r2 = a.allocate(Layout { size: 1, align: 1 });
    assert_ne!(r2, 0);
    assert_ne!(r2, r);
    a.free(r);
    a.free(r2);
}

#[test]
fn realloc_moves_and_preserves_failure_semantics() {
    let mut a = BumpAlloc::new();
    let layout = Layout { size: 8, align: 8 };
    let r = a.allocate(layout);
    assert_ne!(r, 0);
    let r2 = a.realloc(r, layout, 32);
    assert_ne!(r2, 0);
    assert_ne!(r2, r);
    // A hopeless request fails and leaves the address owned by the caller.
    let r3 = a.realloc(r2, layout, usize::MAX / 2);
    assert_eq!(r3, 0);
    a.free(r2);
}
