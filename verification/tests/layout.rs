use wasm_alloc::layout::Layout;

#[test]
fn layout_keeps_size_and_alignment() {
    let layout = Layout::from_size_align(5, 1).unwrap();
    assert_eq!(layout.size(), 5);
    assert_eq!(layout.align(), 1);
    let layout = Layout::from_size_align(4096, 32).unwrap();
    assert_eq!(layout.size(), 4096);
    assert_eq!(layout.align(), 32);
}

#[test]
fn layout_of_no_bytes() {
    let layout = Layout::from_size_align(0, 8).unwrap();
    assert_eq!(layout.size(), 0);
    assert_eq!(layout.align(), 8);
}

#[test]
fn layout_takes_every_power_of_two() {
    let mut align: usize = 1;
    loop {
        let layout = Layout::from_size_align(7, align);
        assert!(layout.is_some());
        assert_eq!(layout.unwrap().align(), align);
        match align.checked_mul(2) {
            Some(next) => align = next,
            None => break,
        }
    }
    assert_eq!(align, 1 << (usize::BITS - 1));
}

#[test]
fn layout_refuses_zero_alignment() {
    assert!(Layout::from_size_align(8, 0).is_none());
}

#[test]
fn layout_refuses_what_is_no_power_of_two() {
    for align in [3usize, 5, 6, 7, 9, 10, 12, 24, 33, 48, 96, 1000, usize::MAX, usize::MAX - 1] {
        assert!(Layout::from_size_align(8, align).is_none());
    }
}

#[test]
fn layout_agrees_with_std_on_small_alignments() {
    for align in 0..=4096usize {
        assert_eq!(
            Layout::from_size_align(1, align).is_some(),
            align.is_power_of_two()
        );
    }
}

#[test]
fn layout_takes_any_size() {
    let layout = Layout::from_size_align(usize::MAX, 1).unwrap();
    assert_eq!(layout.size(), usize::MAX);
}

#[test]
fn layout_compares_by_size_and_alignment() {
    let a = Layout::from_size_align(5, 1).unwrap();
    let b = Layout::from_size_align(5, 1).unwrap();
    let c = Layout::from_size_align(5, 2).unwrap();
    let d = a;
    assert_eq!(a, b);
    assert_eq!(a, d);
    assert_ne!(a, c);
}
