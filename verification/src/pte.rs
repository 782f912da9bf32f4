//! Sv32 page-table entry encoding: flag bits, the physical page number field,
//! and the little lemmas about them that the rest of the crate builds on.
//!
//! An entry is one 32-bit word. Bits 0..10 hold the flag set, bits 10..32 the
//! physical page number (PPN) of the frame the entry names. Two reserved bits
//! are repurposed by convention as cooperative-sharing / swapped markers.

use vstd::prelude::*;

verus! {

/// Valid bit: the entry is in use by the hardware walker.
pub const PTE_VALID: u32 = 0x1;
/// Readable bit.
pub const PTE_READABLE: u32 = 0x2;
/// Writable bit.
pub const PTE_WRITABLE: u32 = 0x4;
/// Executable bit.
pub const PTE_EXECUTABLE: u32 = 0x8;
/// User-accessible bit.
pub const PTE_USER: u32 = 0x10;
/// Hardware-maintained accessed bit.
pub const PTE_ACCESSED: u32 = 0x40;
/// Hardware-maintained dirty bit.
pub const PTE_DIRTY: u32 = 0x80;
/// First reserved-for-software bit: "writable shared" / "swapped" marker.
pub const PTE_RESERVED1: u32 = 0x100;
/// Second reserved-for-software bit: "read-only shared" marker.
pub const PTE_RESERVED2: u32 = 0x200;
/// Both present bits: an entry counts as present when valid and readable.
pub const PTE_PRESENT_MASK: u32 = 0x3;
/// All flag bits of an entry.
pub const PTE_FLAG_MASK: u32 = 0x3FF;
/// Default flags a fresh mapping receives: valid, readable, writable.
pub const PTE_DEFAULT_MAP: u32 = 0x7;
/// Flags of a kernel linear-mapping slot: valid, readable, writable, executable.
pub const PTE_KERNEL_MAP: u32 = 0xF;
/// Flags of an intermediate-table pointer entry: valid only.
pub const PTE_TABLE_PTR: u32 = 0x1;

/// Does `bits` have every bit of `mask` set?
pub open spec fn pte_flag(bits: u32, mask: u32) -> bool {
    bits & mask == mask
}

/// An entry is present when both the valid and the readable bit are set.
pub open spec fn pte_present(bits: u32) -> bool {
    pte_flag(bits, PTE_PRESENT_MASK)
}

/// A valid entry with any of the readable/writable/executable bits is a leaf
/// mapping; with none of them it points at a next-level table.
pub open spec fn pte_leaf(bits: u32) -> bool {
    bits & 0xE != 0
}

/// A pointer to a next-level table: valid, but not a leaf.
pub open spec fn pte_table(bits: u32) -> bool {
    pte_flag(bits, PTE_VALID) && !pte_leaf(bits)
}

/// The physical page number an entry names.
pub open spec fn pte_ppn(bits: u32) -> u32 {
    bits >> 10
}

/// The base physical address of the frame an entry names.
pub open spec fn pte_target(bits: u32) -> usize {
    (pte_ppn(bits) as usize) << 12
}

/// The entry word for a given physical page number and flag set.
pub open spec fn pte_make(ppn: u32, flags: u32) -> u32 {
    (ppn << 10) | (flags & PTE_FLAG_MASK)
}

/// `bits` with the bits of `mask` set (when `value`) or cleared (when not).
pub open spec fn set_flag(bits: u32, mask: u32, value: bool) -> u32 {
    if value {
        bits | mask
    } else {
        bits & !mask
    }
}

/// Building an entry puts the page number and the flags in their fields.
pub proof fn lemma_pte_make_fields(ppn: u32, flags: u32)
    by (bit_vector)
    requires
        ppn < 0x100000,
    ensures
        pte_ppn(pte_make(ppn, flags)) == ppn,
        pte_make(ppn, flags) & PTE_FLAG_MASK == flags & PTE_FLAG_MASK,
{
}

/// A table-pointer entry is valid, is no leaf, and names the table's frame.
pub proof fn lemma_table_pte(ppn: u32)
    by (bit_vector)
    requires
        ppn < 0x100000,
    ensures
        pte_table(pte_make(ppn, PTE_TABLE_PTR)),
        !pte_leaf(pte_make(ppn, PTE_TABLE_PTR)),
        pte_ppn(pte_make(ppn, PTE_TABLE_PTR)) == ppn,
        pte_make(ppn, PTE_TABLE_PTR) != 0,
{
}

/// An entry with the default mapping flags is present, writable, a leaf, and
/// names the mapped frame.
pub proof fn lemma_mapped_pte(ppn: u32)
    by (bit_vector)
    requires
        ppn < 0x100000,
    ensures
        pte_present(pte_make(ppn, PTE_DEFAULT_MAP)),
        pte_flag(pte_make(ppn, PTE_DEFAULT_MAP), PTE_WRITABLE),
        pte_leaf(pte_make(ppn, PTE_DEFAULT_MAP)),
        !pte_table(pte_make(ppn, PTE_DEFAULT_MAP)),
        pte_ppn(pte_make(ppn, PTE_DEFAULT_MAP)) == ppn,
        pte_make(ppn, PTE_DEFAULT_MAP) != 0,
{
}

/// A kernel linear-mapping entry is a present, executable leaf.
pub proof fn lemma_kernel_pte(ppn: u32)
    by (bit_vector)
    requires
        ppn < 0x100000,
    ensures
        pte_present(pte_make(ppn, PTE_KERNEL_MAP)),
        pte_leaf(pte_make(ppn, PTE_KERNEL_MAP)),
        !pte_table(pte_make(ppn, PTE_KERNEL_MAP)),
        pte_ppn(pte_make(ppn, PTE_KERNEL_MAP)) == ppn,
{
}

/// The all-zero word is no valid entry of any kind.
pub proof fn lemma_null_pte()
    by (bit_vector)
    ensures
        !pte_flag(0u32, PTE_VALID),
        !pte_present(0u32),
        !pte_leaf(0u32),
        !pte_table(0u32),
{
}

/// Setting or clearing flag bits never touches bits outside the mask.
pub proof fn lemma_set_flag_other(bits: u32, mask: u32, other: u32, value: bool)
    by (bit_vector)
    requires
        other & mask == 0,
    ensures
        set_flag(bits, mask, value) & other == bits & other,
{
}

/// Setting flag bits sets exactly them; clearing clears exactly them.
pub proof fn lemma_set_flag_sets(bits: u32, mask: u32, value: bool)
    by (bit_vector)
    ensures
        value ==> set_flag(bits, mask, value) & mask == mask,
        !value ==> set_flag(bits, mask, value) & mask == 0,
{
}

/// Flag mutation within the flag field never changes the page number.
pub proof fn lemma_set_flag_ppn(bits: u32, mask: u32, value: bool)
    by (bit_vector)
    requires
        mask <= PTE_FLAG_MASK,
    ensures
        pte_ppn(set_flag(bits, mask, value)) == pte_ppn(bits),
{
}

/// Restricting a word to the flag field twice is the same as doing it once.
pub proof fn lemma_flag_mask_idempotent(bits: u32)
    by (bit_vector)
    ensures
        (bits & PTE_FLAG_MASK) & PTE_FLAG_MASK == bits & PTE_FLAG_MASK,
{
}

/// The page number of a 32-bit physical address fits the PPN field.
pub proof fn lemma_addr_ppn(addr: usize)
    by (bit_vector)
    requires
        addr < 0x1_0000_0000,
    ensures
        addr >> 12 < 0x100000,
{
}

/// Clearing both reserved bits at once leaves neither set.
pub proof fn lemma_clear_shared_bits(bits: u32)
    by (bit_vector)
    ensures
        !pte_flag(set_flag(bits, PTE_RESERVED1 | PTE_RESERVED2, false), PTE_RESERVED1),
        !pte_flag(set_flag(bits, PTE_RESERVED1 | PTE_RESERVED2, false), PTE_RESERVED2),
{
}

/// Toggling the writable flag on and then off never changes which frame the
/// entry targets.
pub proof fn lemma_writable_toggle_preserves_target(bits: u32)
    ensures
        pte_target(set_flag(set_flag(bits, PTE_WRITABLE, true), PTE_WRITABLE, false))
            == pte_target(bits),
{
    lemma_set_flag_ppn(bits, PTE_WRITABLE, true);
    lemma_set_flag_ppn(set_flag(bits, PTE_WRITABLE, true), PTE_WRITABLE, false);
}

/// Build an entry word from a physical page number and flags.
pub fn make_pte(ppn: u32, flags: u32) -> (r: u32)
    requires
        ppn < 0x100000,
    ensures
        r == pte_make(ppn, flags),
{
    (ppn << 10) | (flags & PTE_FLAG_MASK)
}

} // verus!
