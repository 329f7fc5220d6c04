use vpe::dirty::{DynamicDirtyState, StaticDirtyState};

#[test]
fn mesh_holds_vertex_and_index_buffer() {
    let mesh = DynamicDirtyState::mesh();
    assert!(mesh.contains(DynamicDirtyState::vb()));
    assert!(mesh.contains(DynamicDirtyState::ib()));
    assert!(!mesh.contains(DynamicDirtyState::bs()));
    assert_eq!(mesh.bits(), 3);
}

#[test]
fn dynamic_masks_have_their_bits() {
    assert_eq!(DynamicDirtyState::empty().bits(), 0);
    assert_eq!(DynamicDirtyState::vb().bits(), 0b001);
    assert_eq!(DynamicDirtyState::ib().bits(), 0b010);
    assert_eq!(DynamicDirtyState::bs().bits(), 0b100);
    assert_eq!(DynamicDirtyState::position().bits(), 0b100);
    assert_eq!(DynamicDirtyState::mesh().bits(), 0b011);
    assert_eq!(DynamicDirtyState::all().bits(), 0b111);
}

#[test]
fn position_is_the_block_state_bit() {
    assert_eq!(DynamicDirtyState::position(), DynamicDirtyState::bs());
    assert!(DynamicDirtyState::position().contains(DynamicDirtyState::bs()));
    assert!(DynamicDirtyState::bs().contains(DynamicDirtyState::position()));
}

#[test]
fn all_holds_every_composite() {
    let all = DynamicDirtyState::all();
    assert!(all.contains(DynamicDirtyState::mesh()));
    assert!(all.contains(DynamicDirtyState::position()));
    assert!(all.contains(DynamicDirtyState::empty()));
    assert_eq!(DynamicDirtyState::mesh().union(DynamicDirtyState::position()), all);
}

#[test]
fn dynamic_union_and_difference() {
    let vb = DynamicDirtyState::vb();
    let bs = DynamicDirtyState::bs();
    let both = vb.union(bs);
    assert_eq!(both.bits(), 0b101);
    assert!(both.contains(vb));
    assert!(both.contains(bs));
    assert!(!both.contains(DynamicDirtyState::ib()));
    assert_eq!(both.difference(vb), bs);
    assert_eq!(both.difference(both), DynamicDirtyState::empty());
    assert_eq!(vb.difference(bs), vb);
}

#[test]
fn dynamic_insert_adds_marks() {
    let mut d = DynamicDirtyState::empty();
    assert!(d.is_empty());
    d.insert(DynamicDirtyState::ib());
    assert!(!d.is_empty());
    assert_eq!(d.bits(), 0b010);
    d.insert(DynamicDirtyState::ib());
    assert_eq!(d.bits(), 0b010);
    d.insert(DynamicDirtyState::position());
    assert_eq!(d.bits(), 0b110);
}

#[test]
fn dynamic_from_bits_refuses_unknown_bits() {
    assert_eq!(DynamicDirtyState::from_bits(0), Some(DynamicDirtyState::empty()));
    assert_eq!(DynamicDirtyState::from_bits(5).map(|d| d.bits()), Some(5));
    assert_eq!(DynamicDirtyState::from_bits(7), Some(DynamicDirtyState::all()));
    assert_eq!(DynamicDirtyState::from_bits(8), None);
    assert_eq!(DynamicDirtyState::from_bits(0b1001), None);
    assert_eq!(DynamicDirtyState::from_bits(u32::MAX), None);
}

#[test]
fn dynamic_from_bits_truncate_drops_unknown_bits() {
    assert_eq!(DynamicDirtyState::from_bits_truncate(0b1001).bits(), 0b001);
    assert_eq!(DynamicDirtyState::from_bits_truncate(u32::MAX), DynamicDirtyState::all());
    assert_eq!(DynamicDirtyState::from_bits_truncate(8), DynamicDirtyState::empty());
    assert_eq!(DynamicDirtyState::from_bits_truncate(6).bits(), 6);
}

#[test]
fn static_masks_have_their_bits() {
    assert_eq!(StaticDirtyState::empty().bits(), 0);
    assert_eq!(StaticDirtyState::vib().bits(), 0b01);
    assert_eq!(StaticDirtyState::bs().bits(), 0b10);
    assert_eq!(StaticDirtyState::all().bits(), 0b11);
}

#[test]
fn static_contains_union_insert() {
    let all = StaticDirtyState::vib().union(StaticDirtyState::bs());
    assert_eq!(all, StaticDirtyState::all());
    assert!(all.contains(StaticDirtyState::vib()));
    assert!(!StaticDirtyState::vib().contains(StaticDirtyState::bs()));
    assert!(!StaticDirtyState::vib().contains(all));
    let mut d = StaticDirtyState::empty();
    assert!(d.is_empty());
    d.insert(StaticDirtyState::bs());
    assert_eq!(d.bits(), 2);
    assert!(!d.is_empty());
}

#[test]
fn static_from_bits() {
    assert_eq!(StaticDirtyState::from_bits(3), Some(StaticDirtyState::all()));
    assert_eq!(StaticDirtyState::from_bits(4), None);
    assert_eq!(StaticDirtyState::from_bits_truncate(4), StaticDirtyState::empty());
    assert_eq!(StaticDirtyState::from_bits_truncate(7), StaticDirtyState::all());
}
