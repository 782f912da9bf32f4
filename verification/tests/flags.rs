use sv32_paging::entry::PageEntry;
use sv32_paging::machine::Machine;

fn entry_with(m: &mut Machine, bits: u32) -> PageEntry {
    m.write_phys(1, 2, bits);
    PageEntry { frame: 1, index: 2, page: 0x1000 }
}

#[test]
fn present_writable_target_of_default_mapping() {
    let mut m = Machine::new(4);
    // ppn 2 with valid|readable|writable: the default mapping entry.
    let e = entry_with(&mut m, 0x807);
    assert!(e.present(&m));
    assert!(e.writable(&m));
    assert!(!e.user(&m));
    assert!(!e.execute(&m));
    assert_eq!(e.target(&m), 0x2000);
}

#[test]
fn writable_toggle_never_changes_target() {
    let mut m = Machine::new(4);
    let e = entry_with(&mut m, 0x807);
    e.set_writable(&mut m, true);
    e.update(&mut m);
    e.set_writable(&mut m, false);
    e.update(&mut m);
    assert_eq!(e.target(&m), 0x2000);
    assert!(!e.writable(&m));
    assert_eq!(m.read_phys(1, 2), 0x803);
    e.set_writable(&mut m, true);
    assert_eq!(e.target(&m), 0x2000);
    assert_eq!(m.read_phys(1, 2), 0x807);
}

#[test]
fn set_present_controls_both_bits() {
    let mut m = Machine::new(4);
    let e = entry_with(&mut m, 0x807);
    e.set_present(&mut m, false);
    assert!(!e.present(&m));
    assert_eq!(m.read_phys(1, 2), 0x804);
    e.set_present(&mut m, true);
    assert!(e.present(&m));
    assert_eq!(e.target(&m), 0x2000);
}

#[test]
fn accessed_and_dirty_are_clearable() {
    let mut m = Machine::new(4);
    // accessed|dirty on top of the default flags.
    let e = entry_with(&mut m, 0x8C7);
    assert!(e.accessed(&m));
    assert!(e.dirty(&m));
    e.clear_accessed(&mut m);
    assert!(!e.accessed(&m));
    assert!(e.dirty(&m));
    e.clear_dirty(&mut m);
    assert!(!e.dirty(&m));
    assert_eq!(e.target(&m), 0x2000);
}

#[test]
fn user_and_execute_flags() {
    let mut m = Machine::new(4);
    let e = entry_with(&mut m, 0x807);
    e.set_user(&mut m, true);
    assert!(e.user(&m));
    e.set_execute(&mut m, true);
    assert!(e.execute(&m));
    e.set_user(&mut m, false);
    assert!(!e.user(&m));
    assert!(e.execute(&m));
    assert_eq!(e.target(&m), 0x2000);
}

#[test]
fn set_target_replaces_frame_and_keeps_flags() {
    let mut m = Machine::new(4);
    let e = entry_with(&mut m, 0x817);
    e.set_target(&mut m, 0x5000);
    assert_eq!(e.target(&m), 0x5000);
    assert!(e.present(&m));
    assert!(e.writable(&m));
    assert!(e.user(&m));
    assert_eq!(m.read_phys(1, 2), 0x1417);
}

#[test]
fn shared_markers_are_exclusive() {
    let mut m = Machine::new(4);
    let e = entry_with(&mut m, 0x807);
    e.set_shared(&mut m, true);
    assert!(e.writable_shared(&m));
    assert!(!e.readonly_shared(&m));
    e.set_shared(&mut m, false);
    assert!(!e.writable_shared(&m));
    assert!(e.readonly_shared(&m));
    e.clear_shared(&mut m);
    assert!(!e.writable_shared(&m));
    assert!(!e.readonly_shared(&m));
    assert_eq!(e.target(&m), 0x2000);
}

#[test]
fn swapped_marker_shares_the_first_reserved_bit() {
    let mut m = Machine::new(4);
    let e = entry_with(&mut m, 0x4);
    e.set_swapped(&mut m, true);
    assert!(e.swapped(&m));
    // The marker reuses the writable-shared bit; an entry must never be
    // both swapped and shared.
    assert!(e.writable_shared(&m));
    e.set_swapped(&mut m, false);
    assert!(!e.swapped(&m));
}

#[test]
fn mmio_is_fixed_and_writes_are_ignored() {
    let mut m = Machine::new(4);
    let e = entry_with(&mut m, 0x807);
    assert_eq!(e.mmio(), 0);
    e.set_mmio(3);
    assert_eq!(e.mmio(), 0);
    assert_eq!(m.read_phys(1, 2), 0x807);
}
