use green_threads::stack::{build_layout, StackLayout, STACK_SIZE};

#[test]
fn layout_of_an_aligned_buffer() {
    let base: usize = 1 << 32;
    let top = base + STACK_SIZE;
    let layout = build_layout(base);
    assert_eq!(
        layout,
        StackLayout {
            completion_slot: top - 16,
            guard_slot: top - 24,
            entry_slot: top - 32,
        }
    );
    assert_eq!(layout.entry_slot % 16, 0);
}

#[test]
fn layout_rounds_an_unaligned_top_down_to_sixteen_bytes() {
    let base: usize = (1 << 32) + 5;
    let aligned_top = base + STACK_SIZE - 5;
    let layout = build_layout(base);
    assert_eq!(layout.completion_slot, aligned_top - 16);
    assert_eq!(layout.guard_slot, aligned_top - 24);
    assert_eq!(layout.entry_slot, aligned_top - 32);
    assert_eq!(layout.entry_slot % 16, 0);
    // The whole frame stays inside the buffer.
    assert!(base <= layout.entry_slot);
    assert!(aligned_top <= base + STACK_SIZE);
}
