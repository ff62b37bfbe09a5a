use stabby_alloc::{Arc, AtomicArc, BumpAlloc, Heap, MemOrder};

#[test]
fn compare_exchange_scenario() {
    // Against a slot holding P1: exchanging (Some(P1), Some(P2)) succeeds
    // and returns ownership of P1; a second (Some(P1), Some(P3)) against
    // the now-P2-holding slot fails and returns a freshly owned handle to
    // P2 while P3 stays with the caller.
    let mut heap: Heap<u64, BumpAlloc> = Heap::new();
    let p1 = Arc::new_in(&mut heap, 1u64, BumpAlloc::with_base(0x1000));
    let p2 = Arc::new_in(&mut heap, 2u64, BumpAlloc::with_base(0x2000));
    let p3 = Arc::new_in(&mut heap, 3u64, BumpAlloc::with_base(0x3000));

    let p1_addr = Arc::as_raw(&p1).ptr;
    let p2_addr = Arc::as_raw(&p2).ptr;

    let slot_share = p1.clone_in(&mut heap);
    let mut slot = AtomicArc::new(Some(slot_share));

    let p2_share = p2.clone_in(&mut heap);
    let prev = match slot.compare_exchange(
        &mut heap,
        Some(&p1),
        Some(p2_share),
        MemOrder::AcqRel,
        MemOrder::Acquire,
    ) {
        Ok(prev) => prev,
        Err(_) => panic!("the slot holds P1, the exchange must succeed"),
    };
    let prev = prev.expect("the previous occupant was P1");
    assert_eq!(Arc::as_raw(&prev).ptr, p1_addr);
    assert_eq!(*Arc::get(&prev, &heap), 1);
    prev.drop_in(&mut heap);
    assert_eq!(Arc::strong_count(&p1, &heap), 1);

    let p3_share = p3.clone_in(&mut heap);
    match slot.compare_exchange(
        &mut heap,
        Some(&p1),
        Some(p3_share),
        MemOrder::AcqRel,
        MemOrder::Acquire,
    ) {
        Ok(_) => panic!("the slot holds P2 now, the exchange must fail"),
        Err((observed, returned)) => {
            let observed = observed.expect("the slot is not empty");
            assert_eq!(Arc::as_raw(&observed).ptr, p2_addr);
            assert_eq!(*Arc::get(&observed, &heap), 2);
            // The proposed new value is handed back, not leaked.
            let returned = returned.expect("the proposed value comes back");
            assert_eq!(*Arc::get(&returned, &heap), 3);
            observed.drop_in(&mut heap);
            returned.drop_in(&mut heap);
        },
    }

    slot.drop_in(&mut heap);
    assert_eq!(Arc::strong_count(&p2, &heap), 1);
    p1.drop_in(&mut heap);
    p2.drop_in(&mut heap);
    p3.drop_in(&mut heap);
    assert_eq!(heap.destructs(), 3);
    assert_eq!(heap.free_calls(), 3);
}

#[test]
fn load_reconstructs_a_counted_handle() {
    let mut heap: Heap<u64, BumpAlloc> = Heap::new();
    let p = Arc::new_in(&mut heap, 5u64, BumpAlloc::new());
    let share = p.clone_in(&mut heap);
    let slot = AtomicArc::new(Some(share));

    let loaded = slot.load(&mut heap, MemOrder::Acquire).expect("the slot is full");
    assert_eq!(*Arc::get(&loaded, &heap), 5);
    assert_eq!(Arc::strong_count(&p, &heap), 3);
    loaded.drop_in(&mut heap);

    slot.drop_in(&mut heap);
    p.drop_in(&mut heap);
    assert_eq!(heap.free_calls(), 1);
}

#[test]
fn empty_slot_loads_nothing() {
    let mut heap: Heap<u64, BumpAlloc> = Heap::new();
    let slot: AtomicArc<u64, BumpAlloc> = AtomicArc::new(None);
    assert!(slot.load(&mut heap, MemOrder::SeqCst).is_none());
    slot.drop_in(&mut heap);
}

#[test]
fn store_transfers_ownership_without_counting() {
    let mut heap: Heap<u64, BumpAlloc> = Heap::new();
    let p = Arc::new_in(&mut heap, 6u64, BumpAlloc::new());
    let share = p.clone_in(&mut heap);
    let mut slot = AtomicArc::new(None);
    slot.store(Some(share), MemOrder::Release);
    // The stored share's count is carried by the slot, not re-counted.
    assert_eq!(Arc::strong_count(&p, &heap), 2);
    slot.drop_in(&mut heap);
    assert_eq!(Arc::strong_count(&p, &heap), 1);
    p.drop_in(&mut heap);
}

#[test]
fn is_compares_by_address_identity() {
    let mut heap: Heap<u64, BumpAlloc> = Heap::new();
    let p1 = Arc::new_in(&mut heap, 1u64, BumpAlloc::with_base(0x1000));
    let p2 = Arc::new_in(&mut heap, 1u64, BumpAlloc::with_base(0x2000));

    let share = p1.clone_in(&mut heap);
    let slot = AtomicArc::new(Some(share));

    assert!(slot.is(&mut heap, Some(&p1), MemOrder::Acquire).is_ok());

    // Same payload value, different address: not the same pointer.
    match slot.is(&mut heap, Some(&p2), MemOrder::Acquire) {
        Ok(()) => panic!("identity is by address, not by value"),
        Err(observed) => {
            let observed = observed.expect("the slot is not empty");
            assert_eq!(Arc::as_raw(&observed).ptr, Arc::as_raw(&p1).ptr);
            observed.drop_in(&mut heap);
        },
    }

    slot.drop_in(&mut heap);
    p1.drop_in(&mut heap);
    p2.drop_in(&mut heap);
}
