use vpe::blocks::{
    check_without_memory, clone_copies, destroy_blocks, push_block_sizes, recreate_blocks,
    BlockState, FrameCopy,
};

fn copies(base: u64, n: u64) -> Vec<FrameCopy> {
    (0..n)
        .map(|i| FrameCopy { allocation: base + i, descriptor_set: base + 100 + i })
        .collect()
}

fn block(size: usize, base: u64, n: u64) -> BlockState {
    BlockState::new(size, 0, 1, 900 + base, copies(base, n))
}

#[test]
fn block_state_new_keeps_its_arguments() {
    let b = BlockState::new(128, 2, 1, 77, copies(10, 3));
    assert_eq!(b.size, 128);
    assert_eq!(b.binding, 2);
    assert_eq!(b.set, 1);
    assert_eq!(b.layout, 77);
    assert_eq!(b.copies, copies(10, 3));
    assert_eq!(b.frame_count(), 3);
}

#[test]
fn descriptor_set_is_keyed_by_frame() {
    let b = block(64, 10, 3);
    assert_eq!(b.descriptor_set(0), 110);
    assert_eq!(b.descriptor_set(1), 111);
    assert_eq!(b.descriptor_set(2), 112);
}

#[test]
fn update_targets_the_allocation_of_the_frame() {
    let b = block(64, 10, 3);
    assert_eq!(b.update(0), Some(10));
    assert_eq!(b.update(2), Some(12));
    assert_eq!(b.update(3), None);
    assert_eq!(block(64, 10, 0).update(0), None);
}

#[test]
fn destroy_memory_returns_all_copies_and_keeps_the_layout() {
    let mut b = block(64, 10, 3);
    let released = b.destroy_memory();
    assert_eq!(released, copies(10, 3));
    assert_eq!(b.frame_count(), 0);
    assert_eq!((b.size, b.binding, b.set, b.layout), (64, 0, 1, 910));
    assert_eq!(b.destroy_memory(), Vec::new());
}

#[test]
fn recreate_memory_swaps_the_copies() {
    let mut b = block(64, 10, 3);
    let released = b.recreate_memory(copies(50, 2));
    assert_eq!(released, copies(10, 3));
    assert_eq!(b.copies, copies(50, 2));
    assert_eq!((b.size, b.binding, b.set, b.layout), (64, 0, 1, 910));
}

#[test]
fn destroy_then_recreate_leaks_nothing() {
    let mut b = block(64, 10, 3);
    let first = b.destroy_memory();
    let leftover = b.recreate_memory(copies(20, 2));
    assert!(leftover.is_empty());
    let second = b.destroy_memory();
    assert_eq!(first, copies(10, 3));
    assert_eq!(second, copies(20, 2));
}

#[test]
fn clone_copies_copies() {
    assert_eq!(clone_copies(&copies(5, 4)), copies(5, 4));
    assert_eq!(clone_copies(&Vec::new()), Vec::new());
}

#[test]
fn destroy_blocks_releases_block_by_block() {
    let mut blocks = vec![block(16, 10, 2), block(32, 20, 0), block(64, 30, 3)];
    let mut released = copies(1, 1);
    destroy_blocks(&mut blocks, &mut released);
    let mut expected = copies(1, 1);
    expected.extend(copies(10, 2));
    expected.extend(copies(30, 3));
    assert_eq!(released, expected);
    assert!(check_without_memory(&blocks));
    assert_eq!(blocks.iter().map(|b| b.size).collect::<Vec<_>>(), vec![16, 32, 64]);
    assert_eq!(blocks.iter().map(|b| b.layout).collect::<Vec<_>>(), vec![910, 920, 930]);
}

#[test]
fn recreate_blocks_takes_the_supply_from_start() {
    let mut blocks = vec![block(16, 10, 1), block(32, 20, 1)];
    let supply = vec![copies(100, 2), copies(200, 2), copies(300, 2), copies(400, 2)];
    let mut released = Vec::new();
    recreate_blocks(&mut blocks, &supply, 1, &mut released);
    assert_eq!(blocks[0].copies, copies(200, 2));
    assert_eq!(blocks[1].copies, copies(300, 2));
    let mut expected = copies(10, 1);
    expected.extend(copies(20, 1));
    assert_eq!(released, expected);
    assert_eq!(blocks[0].size, 16);
    assert_eq!(blocks[1].layout, 920);
}

#[test]
fn check_without_memory_sees_any_copy() {
    assert!(check_without_memory(&Vec::new()));
    assert!(check_without_memory(&vec![block(1, 1, 0), block(1, 2, 0)]));
    assert!(!check_without_memory(&vec![block(1, 1, 0), block(1, 2, 1)]));
}

#[test]
fn push_block_sizes_appends_in_order() {
    let mut sizes = vec![7];
    push_block_sizes(&mut sizes, &vec![block(16, 1, 0), block(64, 2, 0)]);
    assert_eq!(sizes, vec![7, 16, 64]);
}
