use sv32_paging::active::{read_through, ActivePageTable};
use sv32_paging::inactive::InactivePageTable0;
use sv32_paging::machine::{
    get_root_page_table_ptr, root_page_table_buffer, set_root_page_table_ptr, Machine,
};

fn root_row(m: &Machine, root: usize) -> Vec<u32> {
    let mut row = Vec::new();
    let mut i = 0;
    while i < 1024 {
        row.push(m.read_phys(root, i));
        i += 1;
    }
    row
}

fn used_frames(m: &Machine) -> usize {
    let mut count = 0;
    let mut f = 0;
    while f < m.frame_count() {
        if m.frame_in_use(f) {
            count += 1;
        }
        f += 1;
    }
    count
}

#[test]
fn map_kernel_fills_the_kernel_half_and_is_idempotent() {
    let mut m = Machine::new(4);
    let mut space = InactivePageTable0::new_bare(&mut m);
    space.map_kernel(&mut m);
    // Slot 256 maps physical address zero, slot 300 the 44th superpage.
    assert_eq!(m.read_phys(0, 256), 0xF);
    assert_eq!(m.read_phys(0, 300), (44 << 20) | 0xF);
    assert_eq!(m.read_phys(0, 1023), (767 << 20) | 0xF);
    // The user half is untouched.
    assert_eq!(m.read_phys(0, 0), 0);
    assert_eq!(m.read_phys(0, 255), 0);
    let once = root_row(&m, 0);
    space.map_kernel(&mut m);
    assert_eq!(root_row(&m, 0), once);
}

#[test]
fn token_round_trip_and_translation_after_activation() {
    let mut m = Machine::new(8);
    let mut space = InactivePageTable0::new_bare(&mut m);
    // Fresh space on a fresh machine owns frame 0: mode bit plus PPN 0.
    let token = space.token();
    assert_eq!(token, 0x8000_0000);
    space.edit(&mut m, |mut view, mut mm| {
        view.map(&mut mm, 0x1000, 0x2000);
        (view, mm, ())
    });
    m.write_phys(2, 0, 0xDEAD_BEEF);
    InactivePageTable0::set_token(&mut m, token);
    InactivePageTable0::flush_tlb(&mut m);
    assert_eq!(InactivePageTable0::active_token(&m), token);
    assert_eq!(read_through(&m, 0x1000), Some(0xDEAD_BEEF));
}

#[test]
fn editing_an_inactive_space_leaves_the_active_one_unchanged() {
    let mut m = Machine::new(8);
    let a = InactivePageTable0::new_bare(&mut m);
    let mut b = InactivePageTable0::new_bare(&mut m);
    let mut view = a.edit_begin(&m);
    view.map(&mut m, 0x5000, 0x7000);
    a.edit_finish(&mut m, view);
    m.write_phys(7, 1, 77);
    InactivePageTable0::set_token(&mut m, a.token());
    InactivePageTable0::flush_tlb(&mut m);
    let before = read_through(&m, 0x5004);
    assert_eq!(before, Some(77));
    // Edit the second, inactive space: it maps the same address elsewhere.
    b.edit(&mut m, |mut bview, mut mm| {
        bview.map(&mut mm, 0x5000, 0x6000);
        (bview, mm, ())
    });
    assert_eq!(read_through(&m, 0x5004), before);
}

#[test]
fn destroy_releases_exactly_the_root_frame() {
    let mut m = Machine::new(8);
    let a = InactivePageTable0::new_bare(&mut m);
    InactivePageTable0::set_token(&mut m, a.token());
    let b = InactivePageTable0::new_bare(&mut m);
    let before = used_frames(&m);
    assert!(m.frame_in_use(1));
    b.destroy(&mut m);
    assert_eq!(used_frames(&m), before - 1);
    assert!(!m.frame_in_use(1));
    // The active space's root is untouched.
    assert!(m.frame_in_use(0));
}

#[test]
fn end_to_end_map_activate_read_switch() {
    let mut m = Machine::new(8);
    let mut a = InactivePageTable0::new_bare(&mut m);
    a.edit(&mut m, |mut view, mut mm| {
        view.map(&mut mm, 0x1000, 0x2000);
        (view, mm, ())
    });
    m.write_phys(2, 0, 1234);
    InactivePageTable0::set_token(&mut m, a.token());
    InactivePageTable0::flush_tlb(&mut m);
    assert_eq!(read_through(&m, 0x1000), Some(1234));
    // Switch to a second space that never mapped the address.
    let b = InactivePageTable0::new_bare(&mut m);
    InactivePageTable0::set_token(&mut m, b.token());
    InactivePageTable0::flush_tlb(&mut m);
    assert_eq!(read_through(&m, 0x1000), None);
}

#[test]
fn boot_root_pointer_slot_round_trips() {
    let mut m = Machine::new(8);
    set_root_page_table_ptr(&mut m, 0x3000);
    assert_eq!(get_root_page_table_ptr(&m), 0x3000);
    assert_eq!(root_page_table_buffer(&m), 3);
    let view = ActivePageTable::new(&m);
    assert_eq!(view.root, 3);
}

#[test]
fn boot_mode_redirects_walks_to_the_boot_table() {
    let mut m = Machine::new(8);
    let _a = InactivePageTable0::new_bare(&mut m);
    let b = InactivePageTable0::new_bare(&mut m);
    // Point the boot slot at b's root (frame 1) and switch walks to it.
    set_root_page_table_ptr(&mut m, 0x1000);
    m.set_with_mode(true);
    let mut view = ActivePageTable::new(&m);
    view.map(&mut m, 0x1000, 0x2000);
    m.set_with_mode(false);
    // The mapping landed in b's table.
    let mut bview = b.edit_begin(&m);
    let e = bview.get_entry(&m, 0x1000).expect("mapping went to the boot table");
    assert_eq!(e.target(&m), 0x2000);
    b.edit_finish(&mut m, bview);
}
