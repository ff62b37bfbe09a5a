use stabby_alloc::{Arc, ArcSlice, Buffer, BumpAlloc, Heap};

fn filled_buffer(heap: &mut Heap<u64, BumpAlloc>) -> Buffer<u64, BumpAlloc> {
    let mut buf = match Buffer::with_capacity_in(heap, 3, BumpAlloc::new()) {
        Ok(b) => b,
        Err(_) => panic!("a fresh allocator must place a small buffer"),
    };
    buf.push(heap, 1);
    buf.push(heap, 2);
    buf.push(heap, 3);
    buf
}

#[test]
fn buffer_to_slice_preserves_address_and_contents() {
    // A strong slice of [1,2,3] from a 3-element buffer of capacity 3:
    // same contents, same payload address, no allocator call beyond the
    // buffer's own single allocation.
    let mut heap: Heap<u64, BumpAlloc> = Heap::new();
    let buf = filled_buffer(&mut heap);
    let buffer_addr = buf.start().ptr;
    assert_eq!(heap.alloc_calls(), 1);

    let slice = ArcSlice::from_buffer(&mut heap, buf);
    assert_eq!(slice.len(), 3);
    assert_eq!(slice.as_slice(&heap), &[1, 2, 3]);
    assert_eq!(heap.alloc_calls(), 1);
    assert_eq!(heap.realloc_calls(), 0);

    let raw = ArcSlice::into_raw(slice);
    assert_eq!(raw.start.ptr, buffer_addr);
    let slice = ArcSlice::from_raw(raw);
    slice.drop_in(&mut heap);
    assert_eq!(heap.free_calls(), 1);
}

#[test]
fn zero_capacity_buffer_gets_fresh_header() {
    let mut heap: Heap<u64, BumpAlloc> = Heap::new();
    let buf = match Buffer::with_capacity_in(&mut heap, 0, BumpAlloc::new()) {
        Ok(b) => b,
        Err(_) => panic!("a zero-capacity buffer allocates nothing"),
    };
    assert_eq!(heap.alloc_calls(), 0);
    let slice = ArcSlice::from_buffer(&mut heap, buf);
    // The zero-length header still had to be allocated so that
    // header-relative bookkeeping stays valid.
    assert_eq!(heap.alloc_calls(), 1);
    assert_eq!(slice.len(), 0);
    assert!(slice.is_empty());
    assert_eq!(slice.as_slice(&heap), &[] as &[u64]);
    slice.drop_in(&mut heap);
}

#[test]
fn slice_to_buffer_succeeds_iff_unique() {
    let mut heap: Heap<u64, BumpAlloc> = Heap::new();
    let buf = filled_buffer(&mut heap);
    let slice = ArcSlice::from_buffer(&mut heap, buf);
    let other = slice.clone_in(&mut heap);

    // Shared: refused, the original comes back untouched.
    let slice = match ArcSlice::try_into_buffer(slice, &mut heap) {
        Ok(_) => panic!("shared: the conversion must be refused"),
        Err(s) => s,
    };
    assert_eq!(slice.len(), 3);
    assert_eq!(ArcSlice::strong_count(&slice, &heap), 2);
    assert_eq!(slice.as_slice(&heap), &[1, 2, 3]);

    other.drop_in(&mut heap);

    // Unique: the buffer is reconstructed from the header, nothing is
    // freed and no destructor runs.
    let addr = ArcSlice::into_raw(slice).start.ptr;
    let slice = ArcSlice::from_raw(stabby_alloc::AllocSlice {
        start: stabby_alloc::AllocPtr { ptr: addr, marker: core::marker::PhantomData },
        length: 3,
    });
    let buf = match ArcSlice::try_into_buffer(slice, &mut heap) {
        Ok(b) => b,
        Err(_) => panic!("unique: the conversion must succeed"),
    };
    assert_eq!(buf.len(), 3);
    assert_eq!(buf.capacity(), 3);
    assert_eq!(buf.start().ptr, addr);
    assert_eq!(heap.free_calls(), 0);
    assert_eq!(heap.destructs(), 0);

    // Round trip: back to a slice with the same contents and address.
    let slice = ArcSlice::from_buffer(&mut heap, buf);
    assert_eq!(slice.as_slice(&heap), &[1, 2, 3]);
    assert_eq!(ArcSlice::into_raw(slice).start.ptr, addr);
}

#[test]
fn zero_size_elements_never_convert_back() {
    let mut heap: Heap<(), BumpAlloc> = Heap::new();
    let buf = match Buffer::<(), BumpAlloc>::with_capacity_in(&mut heap, 0, BumpAlloc::new()) {
        Ok(b) => b,
        Err(_) => panic!("a zero-capacity buffer allocates nothing"),
    };
    let slice = ArcSlice::from_buffer(&mut heap, buf);
    assert!(ArcSlice::is_unique(&slice, &heap));
    match ArcSlice::try_into_buffer(slice, &mut heap) {
        Ok(_) => panic!("zero-size elements cannot become a buffer"),
        Err(slice) => slice.drop_in(&mut heap),
    }
}

#[test]
fn try_set_is_uniqueness_gated() {
    let mut heap: Heap<u64, BumpAlloc> = Heap::new();
    let buf = filled_buffer(&mut heap);
    let slice = ArcSlice::from_buffer(&mut heap, buf);
    let other = slice.clone_in(&mut heap);

    match slice.try_set(&mut heap, 1, 20) {
        Ok(_) => panic!("shared: the write must be refused"),
        Err(v) => assert_eq!(v, 20),
    }
    other.drop_in(&mut heap);

    match slice.try_set(&mut heap, 1, 20) {
        Ok(prev) => assert_eq!(prev, 2),
        Err(_) => panic!("unique: the write must succeed"),
    }
    assert_eq!(slice.as_slice(&heap), &[1, 20, 3]);
    assert_eq!(*slice.get(&heap, 2), 3);
    slice.drop_in(&mut heap);
}

#[test]
fn set_unchecked_on_a_unique_slice() {
    let mut heap: Heap<u64, BumpAlloc> = Heap::new();
    let buf = filled_buffer(&mut heap);
    let slice = ArcSlice::from_buffer(&mut heap, buf);
    let prev = slice.set_unchecked(&mut heap, 0, 10);
    assert_eq!(prev, 1);
    assert_eq!(slice.as_slice(&heap), &[10, 2, 3]);
    slice.drop_in(&mut heap);
}

#[test]
fn weak_slice_upgrade_follows_strong_count() {
    let mut heap: Heap<u64, BumpAlloc> = Heap::new();
    let buf = filled_buffer(&mut heap);
    let slice = ArcSlice::from_buffer(&mut heap, buf);
    let weak = ArcSlice::downgrade(&slice, &mut heap);

    let strong2 = weak.upgrade(&mut heap).expect("a strong owner exists");
    assert_eq!(ArcSlice::strong_count(&slice, &heap), 2);
    strong2.drop_in(&mut heap);

    slice.drop_in(&mut heap);
    assert_eq!(heap.destructs(), 1);
    assert!(weak.upgrade(&mut heap).is_none());
    weak.drop_in(&mut heap);
    assert_eq!(heap.free_calls(), 1);
}

#[test]
fn weak_slice_clone_counts() {
    let mut heap: Heap<u64, BumpAlloc> = Heap::new();
    let buf = filled_buffer(&mut heap);
    let slice = ArcSlice::from_buffer(&mut heap, buf);
    let weak = ArcSlice::downgrade(&slice, &mut heap);
    let weak2 = weak.clone_in(&mut heap);
    assert_eq!(ArcSlice::weak_count(&slice, &heap), 3);
    weak2.drop_in(&mut heap);
    weak.drop_in(&mut heap);
    assert_eq!(ArcSlice::weak_count(&slice, &heap), 1);
    slice.drop_in(&mut heap);
}

#[test]
fn force_upgrade_resurrects_counts() {
    let mut heap: Heap<u64, BumpAlloc> = Heap::new();
    let buf = filled_buffer(&mut heap);
    let slice = ArcSlice::from_buffer(&mut heap, buf);
    let weak = ArcSlice::downgrade(&slice, &mut heap);
    slice.drop_in(&mut heap);
    assert_eq!(heap.destructs(), 1);

    // The forced path increments the strong count even from zero and
    // re-adds the strong owners' implicit weak reference.
    let forced = weak.force_upgrade(&mut heap);
    assert_eq!(ArcSlice::strong_count(&forced, &heap), 1);
    assert_eq!(ArcSlice::weak_count(&forced, &heap), 2);

    forced.drop_in(&mut heap);
    // The payload was already destroyed; no second destruction.
    assert_eq!(heap.destructs(), 1);
    weak.drop_in(&mut heap);
    assert_eq!(heap.free_calls(), 1);
}

#[test]
fn single_value_owner_becomes_one_element_slice() {
    let mut heap: Heap<u64, BumpAlloc> = Heap::new();
    let arc = Arc::new_in(&mut heap, 9u64, BumpAlloc::new());
    let slice = ArcSlice::from_arc(&mut heap, arc);
    assert_eq!(slice.len(), 1);
    assert_eq!(slice.as_slice(&heap), &[9]);
    slice.drop_in(&mut heap);
    assert_eq!(heap.destructs(), 1);
    assert_eq!(heap.free_calls(), 1);
}
