use nex_editor::transform::map::{Mapping, StepMap};

#[test]
fn test_step_map_basic() {
    // Simulate inserting 5 characters at position 10
    let map = StepMap::new(10, 10, 5);

    // Position before the insertion - unchanged
    assert_eq!(map.map(5).pos, 5);
    assert!(!map.map(5).deleted);

    // Position at insertion point - becomes end of new content
    let result = map.map(10);
    assert_eq!(result.pos, 15);
    assert!(result.replaced);

    // Position after insertion - shifted
    assert_eq!(map.map(20).pos, 25);
}

#[test]
fn test_step_map_delete() {
    // Simulate deleting 5 characters from position 10 to 15
    let map = StepMap::new(10, 15, 0);

    // Position before deletion - unchanged
    assert_eq!(map.map(5).pos, 5);

    // Position at deletion start - deleted
    let result = map.map(10);
    assert!(result.deleted);

    // Position after deletion - shifted back
    assert_eq!(map.map(20).pos, 15);
}

#[test]
fn test_step_map_compose() {
    // Insert 3 chars at position 5
    let map1 = StepMap::new(5, 5, 3);
    // Delete 2 chars at position 8
    let map2 = StepMap::new(8, 10, 0);

    let composed = map1.compose(&map2);

    // Overlapping edits collapse to the earliest stable boundary.
    assert_eq!(composed.maps(5), 5);
}

#[test]
fn test_mapping() {
    let mut mapping = Mapping::new();

    // Insert 5 chars at position 10
    mapping.add_map(StepMap::new(10, 10, 5));
    // Delete 3 chars at position 8
    mapping.add_map(StepMap::new(8, 11, 0));

    // Map a position before all changes
    assert_eq!(mapping.maps(5), 5);

    // Position 10: after first insert -> 15, then shifts back by the delete.
    assert_eq!(mapping.map(10).pos, 12);
    assert!(!mapping.map(10).deleted);
}

#[test]
fn test_mapping_invert() {
    let mut mapping = Mapping::new();

    // Insert 5 chars at position 10
    mapping.add_map(StepMap::new(10, 10, 5));

    // Invert the mapping
    let inverted = mapping.invert();

    // Inverted should delete the 5 chars we inserted
    assert_eq!(inverted.maps.len(), 1);
    let inv_map = &inverted.maps[0];
    assert_eq!(inv_map.from, 10);
    assert_eq!(inv_map.to, 15);
    assert_eq!(inv_map.new_size, 0);
}

#[test]
fn identity_map_keeps_every_position() {
    let map = StepMap::identity(7);
    assert_eq!(map.map(3).pos, 3);
    assert_eq!(map.map(7).pos, 7);
    assert_eq!(map.map(9).pos, 9);
}

#[test]
fn inverse_map_undoes_a_replacement() {
    // Replace 10..15 by 2 units, then undo it.
    let map = StepMap::new(10, 15, 2);
    let mut forward = Mapping::new();
    forward.add_map(map);
    let back = forward.invert();
    let after = map.map(20).pos;
    assert_eq!(after, 17);
    assert_eq!(back.maps[0].map(after).pos, 20);
}

#[test]
fn step_map_is_monotone_on_samples() {
    let map = StepMap::new(4, 8, 1);
    let mut prev = 0;
    for p in 0..20usize {
        let q = map.map(p).pos;
        assert!(q >= prev);
        prev = q;
    }
}

#[test]
fn mapping_fits_reports_overflow() {
    let mut mapping = Mapping::new();
    mapping.add_map(StepMap::new(0, 0, usize::MAX));
    assert!(mapping.fits(0));
    assert!(!mapping.fits(1));
}

#[test]
fn a_cloned_mapping_grows_on_its_own() {
    let mut m = Mapping::new();
    m.add_map(StepMap::new(0, 0, 2));
    let mut m2 = m.clone();
    m2.add_map(StepMap::new(1, 3, 0));
    assert_eq!(m.len(), 1);
    assert_eq!(m2.len(), m.len() + 1);
    assert_eq!(Mapping::new().len(), 0);
    assert_eq!(m2.maps[0], m.maps[0]);
}

#[test]
fn a_deleted_position_stays_deleted() {
    let mut m = Mapping::new();
    m.add_map(StepMap::new(2, 6, 0));
    m.add_map(StepMap::new(0, 0, 5));
    let r = m.map(4);
    assert!(r.deleted);
    assert_eq!(r.pos, 2);
}
