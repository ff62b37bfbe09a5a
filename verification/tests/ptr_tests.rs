use stabby_alloc::{AllocPtr, AllocationError, BumpAlloc, Heap};

#[test]
fn dangling_is_aligned_and_nonzero() {
    let p: AllocPtr<u64, BumpAlloc> = AllocPtr::dangling();
    assert_eq!(p.ptr, core::mem::align_of::<u64>());
    let q: AllocPtr<u8, BumpAlloc> = p.cast();
    assert_eq!(q.ptr, p.ptr);
}

#[test]
fn allocate_initializes_a_header() {
    let mut heap: Heap<u64, BumpAlloc> = Heap::new();
    let mut a = BumpAlloc::new();
    let p = AllocPtr::<u64, BumpAlloc>::allocate(&mut heap, &mut a)
        .expect("a fresh allocator must place one slot");
    assert!(heap.contains(p.ptr));
    assert_eq!(heap.alloc_calls(), 1);

    let prefix = p.prefix(&heap);
    assert_eq!(prefix.strong, 1);
    assert_eq!(prefix.weak, 1);
    assert_eq!(prefix.capacity, 1);
    assert!(prefix.origin >= 1);
    assert!(prefix.origin <= p.ptr);
    assert_eq!(p.ptr % core::mem::align_of::<u64>(), 0);

    p.free(&mut heap, &mut a);
    assert!(!heap.contains(p.ptr));
    assert_eq!(heap.free_calls(), 1);
}

#[test]
fn allocate_array_capacity_lands_in_header() {
    let mut heap: Heap<u32, BumpAlloc> = Heap::new();
    let mut a = BumpAlloc::new();
    let p = AllocPtr::<u32, BumpAlloc>::allocate_array(&mut heap, &mut a, 7)
        .expect("a fresh allocator must place a small array");
    assert_eq!(p.prefix(&heap).capacity, 7);
    p.free(&mut heap, &mut a);
}

#[test]
fn realloc_reinitializes_the_header() {
    let mut heap: Heap<u32, BumpAlloc> = Heap::new();
    let mut a = BumpAlloc::new();
    let p = AllocPtr::<u32, BumpAlloc>::allocate_array(&mut heap, &mut a, 2)
        .expect("a fresh allocator must place a small array");
    let old_addr = p.ptr;
    let p2 = p.realloc(&mut heap, &mut a, 2, 4).expect("the bump allocator has room");
    assert_eq!(heap.realloc_calls(), 1);
    assert!(heap.contains(p2.ptr));
    assert!(!heap.contains(old_addr));
    let prefix = p2.prefix(&heap);
    assert_eq!(prefix.strong, 1);
    assert_eq!(prefix.weak, 1);
    assert_eq!(prefix.capacity, 4);
    p2.free(&mut heap, &mut a);
}

#[test]
fn realloc_failure_keeps_the_allocation() {
    let mut heap: Heap<u32, BumpAlloc> = Heap::new();
    let mut a = BumpAlloc::new();
    let p = AllocPtr::<u32, BumpAlloc>::allocate_array(&mut heap, &mut a, 2)
        .expect("a fresh allocator must place a small array");
    assert!(p.realloc(&mut heap, &mut a, 2, usize::MAX / 2).is_none());
    assert!(heap.contains(p.ptr));
    p.free(&mut heap, &mut a);
}

#[test]
fn allocation_error_is_a_plain_value() {
    let e = AllocationError::default();
    assert_eq!(e, AllocationError());
    assert_eq!(e.clone(), e);
}

#[test]
fn fresh_heap_observes_nothing() {
    let heap: Heap<u64, BumpAlloc> = Heap::new();
    assert_eq!(heap.alloc_calls(), 0);
    assert_eq!(heap.free_calls(), 0);
    assert_eq!(heap.realloc_calls(), 0);
    assert_eq!(heap.destructs(), 0);
    assert!(!heap.contains(8));
}
