use sv32_paging::inactive::InactivePageTable0;
use sv32_paging::machine::Machine;

fn used_frames(m: &Machine) -> usize {
    let mut count = 0;
    let n = m.frame_count();
    let mut f = 0;
    while f < n {
        if m.frame_in_use(f) {
            count += 1;
        }
        f += 1;
    }
    count
}

#[test]
fn map_then_get_entry_is_present_with_target() {
    let mut m = Machine::new(8);
    let space = InactivePageTable0::new_bare(&mut m);
    let mut view = space.edit_begin(&m);
    let e = view.map(&mut m, 0x1000, 0x2000);
    assert!(e.present(&m));
    assert_eq!(e.target(&m), 0x2000);
    let found = view.get_entry(&m, 0x1000).expect("mapping must be found");
    assert!(found.present(&m));
    assert_eq!(found.target(&m), 0x2000);
    // The leaf slot holds exactly ppn 2 | valid | readable | writable.
    assert_eq!(m.read_phys(found.frame, found.index), 0x807);
    space.edit_finish(&mut m, view);
}

#[test]
fn map_allocates_one_leaf_table() {
    let mut m = Machine::new(8);
    let space = InactivePageTable0::new_bare(&mut m);
    let before = used_frames(&m);
    let mut view = space.edit_begin(&m);
    view.map(&mut m, 0x1000, 0x2000);
    assert_eq!(used_frames(&m), before + 1);
    // A second page in the same 4 MiB region reuses the leaf table.
    view.map(&mut m, 0x3000, 0x6000);
    assert_eq!(used_frames(&m), before + 1);
    space.edit_finish(&mut m, view);
}

#[test]
fn unmap_removes_the_translation() {
    let mut m = Machine::new(8);
    let space = InactivePageTable0::new_bare(&mut m);
    let mut view = space.edit_begin(&m);
    view.map(&mut m, 0x1000, 0x2000);
    view.unmap(&mut m, 0x1000);
    assert!(view.get_entry(&m, 0x1000).is_none());
    space.edit_finish(&mut m, view);
}

#[test]
fn unmap_leaves_other_pages_of_the_table() {
    let mut m = Machine::new(8);
    let space = InactivePageTable0::new_bare(&mut m);
    let mut view = space.edit_begin(&m);
    view.map(&mut m, 0x1000, 0x2000);
    view.map(&mut m, 0x4000, 0x5000);
    view.unmap(&mut m, 0x1000);
    assert!(view.get_entry(&m, 0x1000).is_none());
    let kept = view.get_entry(&m, 0x4000).expect("second mapping survives");
    assert_eq!(kept.target(&m), 0x5000);
    space.edit_finish(&mut m, view);
}

#[test]
fn lookup_without_table_level_finds_nothing() {
    let mut m = Machine::new(8);
    let space = InactivePageTable0::new_bare(&mut m);
    let mut view = space.edit_begin(&m);
    assert!(view.get_entry(&m, 0x1000).is_none());
    assert!(view.get_entry(&m, 0xFFFF_F000).is_none());
    space.edit_finish(&mut m, view);
}

#[test]
fn exhausted_allocator_is_visible_before_mapping() {
    let mut m = Machine::new(1);
    let _space = InactivePageTable0::new_bare(&mut m);
    // The only frame now backs the root table: a map needing a leaf table
    // would be fatal, and the caller can see it coming.
    assert!(!m.has_free_frame());
}
