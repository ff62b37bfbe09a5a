use stabby_alloc::{AllocPrefix, BumpAlloc, Layout};

#[test]
fn layout_of_primitive() {
    let l = Layout::of::<u64>();
    assert_eq!(l.size, 8);
    assert_eq!(l.align, 8);
}

#[test]
fn layout_array_multiplies_size() {
    let l = Layout::array::<u32>(5);
    assert_eq!(l.size, 20);
    assert_eq!(l.align, 4);
}

#[test]
fn layout_array_zero_elements() {
    let l = Layout::array::<u64>(0);
    assert_eq!(l.size, 0);
    assert_eq!(l.align, 8);
}

#[test]
fn layout_concat_pads_to_second_alignment() {
    let a = Layout { size: 10, align: 4 };
    let b = Layout { size: 8, align: 8 };
    let c = a.concat(b);
    // 10 rounded up to 8 is 16, plus 8.
    assert_eq!(c.size, 24);
    assert_eq!(c.align, 8);
}

#[test]
fn layout_concat_without_padding() {
    let a = Layout { size: 8, align: 4 };
    let b = Layout { size: 4, align: 4 };
    let c = a.concat(b);
    assert_eq!(c.size, 12);
    assert_eq!(c.align, 4);
}

#[test]
fn layout_realign_grows_size() {
    let l = Layout { size: 10, align: 1 };
    let r = l.realign(8);
    assert_eq!(r.size, 16);
    assert_eq!(r.align, 8);
}

#[test]
fn layout_realign_exact_multiple_unchanged() {
    let l = Layout { size: 16, align: 2 };
    let r = l.realign(8);
    assert_eq!(r.size, 16);
    assert_eq!(r.align, 8);
}

#[test]
fn next_matching_seeks_alignment() {
    let l = Layout { size: 1, align: 8 };
    assert_eq!(l.next_matching(13), 16);
    assert_eq!(l.next_matching(16), 16);
}

#[test]
fn skip_to_is_aligned_and_covers_header() {
    let skip = AllocPrefix::<BumpAlloc>::skip_to::<u64>();
    assert_eq!(skip % core::mem::align_of::<u64>(), 0);
    assert!(skip >= core::mem::size_of::<AllocPrefix<BumpAlloc>>());
}
