//! A typed view over one page-table slot: flag semantics independent of the
//! raw bit layout, and in-place mutation through the machine model.

use vstd::prelude::*;
use crate::machine::{Machine, FRAME_WORDS};
use crate::pte::{
    pte_flag, pte_ppn, pte_present, pte_target, pte_make, set_flag,
    lemma_pte_make_fields, lemma_set_flag_other, lemma_set_flag_sets, lemma_set_flag_ppn,
    lemma_flag_mask_idempotent, lemma_addr_ppn, lemma_clear_shared_bits,
    make_pte,
    PTE_PRESENT_MASK, PTE_WRITABLE, PTE_EXECUTABLE, PTE_USER, PTE_ACCESSED, PTE_DIRTY,
    PTE_RESERVED1, PTE_RESERVED2, PTE_FLAG_MASK,
};

verus! {

/// One slot of a page table: the frame and index locating the slot, and the
/// virtual page whose translation the slot holds.
#[derive(Clone, Copy)]
pub struct PageEntry {
    /// Frame number of the table holding the slot.
    pub frame: usize,
    /// Index of the slot within its table.
    pub index: usize,
    /// Base address of the virtual page this slot is the entry of.
    pub page: usize,
}

impl PageEntry {
    /// The slot lies within a frame of the machine.
    pub open spec fn wf(self, m: Machine) -> bool {
        &&& self.frame < m.n_frames()
        &&& self.index < FRAME_WORDS
    }

    /// The raw contents of the slot.
    pub open spec fn bits(self, m: Machine) -> u32 {
        m.word(self.frame as int, self.index as int)
    }

    /// Everything but this slot's word and this entry's view is unchanged.
    pub open spec fn only_slot_changed(self, pre: Machine, post: Machine) -> bool {
        &&& post.wf()
        &&& post.n_frames() == pre.n_frames()
        &&& post.usage() == pre.usage()
        &&& post.same_regs(pre)
        &&& forall|g: int, j: int|
            0 <= g < pre.n_frames() && 0 <= j < 1024
                && !(g == self.frame && j == self.index)
                ==> post.word(g, j) == pre.word(g, j)
    }

    /// Set or clear the flag bits of `mask` in this slot.
    fn write_flag(&self, m: &mut Machine, mask: u32, value: bool)
        requires
            old(m).wf(),
            self.wf(*old(m)),
            mask <= PTE_FLAG_MASK,
        ensures
            self.only_slot_changed(*old(m), *final(m)),
            self.bits(*final(m)) == set_flag(self.bits(*old(m)), mask, value),
            pte_ppn(self.bits(*final(m))) == pte_ppn(self.bits(*old(m))),
    {
        let b = self.read_raw(m);
        let nb: u32 = if value { b | mask } else { b & !mask };
        m.write_phys(self.frame, self.index, nb);
        proof {
            lemma_set_flag_ppn(b, mask, value);
        }
    }

    /// Read the raw slot word.
    fn read_raw(&self, m: &Machine) -> (b: u32)
        requires
            m.wf(),
            self.wf(*m),
        ensures
            b == self.bits(*m),
    {
        m.read_phys(self.frame, self.index)
    }

    /// Invalidate the cached translation of this entry's page on this core;
    /// must follow any mutation. The functional model holds no cache, so the
    /// machine value is unchanged.
    pub fn update(&self, m: &mut Machine)
        ensures
            *final(m) == *old(m),
    {
        m.flush_page(self.page);
    }

    /// The hardware-maintained accessed bit.
    pub fn accessed(&self, m: &Machine) -> (b: bool)
        requires
            m.wf(),
            self.wf(*m),
        ensures
            b == pte_flag(self.bits(*m), PTE_ACCESSED),
    {
        self.read_raw(m) & PTE_ACCESSED == PTE_ACCESSED
    }

    /// The hardware-maintained dirty bit.
    pub fn dirty(&self, m: &Machine) -> (b: bool)
        requires
            m.wf(),
            self.wf(*m),
        ensures
            b == pte_flag(self.bits(*m), PTE_DIRTY),
    {
        self.read_raw(m) & PTE_DIRTY == PTE_DIRTY
    }

    /// Clear the accessed bit (page-replacement bookkeeping).
    pub fn clear_accessed(&self, m: &mut Machine)
        requires
            old(m).wf(),
            self.wf(*old(m)),
        ensures
            self.only_slot_changed(*old(m), *final(m)),
            self.bits(*final(m)) == set_flag(self.bits(*old(m)), PTE_ACCESSED, false),
            !pte_flag(self.bits(*final(m)), PTE_ACCESSED),
            pte_ppn(self.bits(*final(m))) == pte_ppn(self.bits(*old(m))),
    {
        self.write_flag(m, PTE_ACCESSED, false);
        proof {
            lemma_set_flag_sets(self.bits(*old(m)), PTE_ACCESSED, false);
        }
    }

    /// Clear the dirty bit (page-replacement bookkeeping).
    pub fn clear_dirty(&self, m: &mut Machine)
        requires
            old(m).wf(),
            self.wf(*old(m)),
        ensures
            self.only_slot_changed(*old(m), *final(m)),
            self.bits(*final(m)) == set_flag(self.bits(*old(m)), PTE_DIRTY, false),
            !pte_flag(self.bits(*final(m)), PTE_DIRTY),
            pte_ppn(self.bits(*final(m))) == pte_ppn(self.bits(*old(m))),
    {
        self.write_flag(m, PTE_DIRTY, false);
        proof {
            lemma_set_flag_sets(self.bits(*old(m)), PTE_DIRTY, false);
        }
    }

    /// The writable flag.
    pub fn writable(&self, m: &Machine) -> (b: bool)
        requires
            m.wf(),
            self.wf(*m),
        ensures
            b == pte_flag(self.bits(*m), PTE_WRITABLE),
    {
        self.read_raw(m) & PTE_WRITABLE == PTE_WRITABLE
    }

    /// An entry is present when it is valid and readable.
    pub fn present(&self, m: &Machine) -> (b: bool)
        requires
            m.wf(),
            self.wf(*m),
        ensures
            b == pte_present(self.bits(*m)),
    {
        self.read_raw(m) & PTE_PRESENT_MASK == PTE_PRESENT_MASK
    }

    /// Set or clear the writable flag; the targeted frame is unchanged.
    pub fn set_writable(&self, m: &mut Machine, value: bool)
        requires
            old(m).wf(),
            self.wf(*old(m)),
        ensures
            self.only_slot_changed(*old(m), *final(m)),
            self.bits(*final(m)) == set_flag(self.bits(*old(m)), PTE_WRITABLE, value),
            pte_flag(self.bits(*final(m)), PTE_WRITABLE) == value,
            pte_ppn(self.bits(*final(m))) == pte_ppn(self.bits(*old(m))),
    {
        self.write_flag(m, PTE_WRITABLE, value);
        proof {
            lemma_set_flag_sets(self.bits(*old(m)), PTE_WRITABLE, value);
        }
    }

    /// Set or clear both present bits; the targeted frame is unchanged.
    pub fn set_present(&self, m: &mut Machine, value: bool)
        requires
            old(m).wf(),
            self.wf(*old(m)),
        ensures
            self.only_slot_changed(*old(m), *final(m)),
            self.bits(*final(m)) == set_flag(self.bits(*old(m)), PTE_PRESENT_MASK, value),
            pte_present(self.bits(*final(m))) == value,
            pte_ppn(self.bits(*final(m))) == pte_ppn(self.bits(*old(m))),
    {
        self.write_flag(m, PTE_PRESENT_MASK, value);
        proof {
            lemma_set_flag_sets(self.bits(*old(m)), PTE_PRESENT_MASK, value);
        }
    }

    /// The base physical address of the frame this entry targets.
    pub fn target(&self, m: &Machine) -> (t: usize)
        requires
            m.wf(),
            self.wf(*m),
        ensures
            t == pte_target(self.bits(*m)),
    {
        let b = self.read_raw(m);
        ((b >> 10) as usize) << 12
    }

    /// Replace the targeted frame while preserving the existing flags.
    pub fn set_target(&self, m: &mut Machine, target: usize)
        requires
            old(m).wf(),
            self.wf(*old(m)),
            target < 0x1_0000_0000,
        ensures
            self.only_slot_changed(*old(m), *final(m)),
            pte_ppn(self.bits(*final(m))) == target >> 12,
            self.bits(*final(m)) & PTE_FLAG_MASK == self.bits(*old(m)) & PTE_FLAG_MASK,
    {
        let b = self.read_raw(m);
        proof {
            lemma_addr_ppn(target);
        }
        let ppn: u32 = (target >> 12) as u32;
        let nb = make_pte(ppn, b & PTE_FLAG_MASK);
        m.write_phys(self.frame, self.index, nb);
        proof {
            lemma_pte_make_fields(ppn, b & PTE_FLAG_MASK);
            lemma_flag_mask_idempotent(b);
        }
    }

    /// The writable-shared marker (first reserved bit).
    pub fn writable_shared(&self, m: &Machine) -> (b: bool)
        requires
            m.wf(),
            self.wf(*m),
        ensures
            b == pte_flag(self.bits(*m), PTE_RESERVED1),
    {
        self.read_raw(m) & PTE_RESERVED1 == PTE_RESERVED1
    }

    /// The read-only-shared marker (second reserved bit).
    pub fn readonly_shared(&self, m: &Machine) -> (b: bool)
        requires
            m.wf(),
            self.wf(*m),
        ensures
            b == pte_flag(self.bits(*m), PTE_RESERVED2),
    {
        self.read_raw(m) & PTE_RESERVED2 == PTE_RESERVED2
    }

    /// Mark the entry shared: writable-shared when `writable`, read-only
    /// shared otherwise; exactly one of the two markers ends up set.
    pub fn set_shared(&self, m: &mut Machine, writable: bool)
        requires
            old(m).wf(),
            self.wf(*old(m)),
        ensures
            self.only_slot_changed(*old(m), *final(m)),
            self.bits(*final(m)) == set_flag(
                set_flag(self.bits(*old(m)), PTE_RESERVED1, writable),
                PTE_RESERVED2,
                !writable,
            ),
            pte_flag(self.bits(*final(m)), PTE_RESERVED1) == writable,
            pte_flag(self.bits(*final(m)), PTE_RESERVED2) == !writable,
            pte_ppn(self.bits(*final(m))) == pte_ppn(self.bits(*old(m))),
    {
        self.write_flag(m, PTE_RESERVED1, writable);
        let ghost mid = self.bits(*m);
        self.write_flag(m, PTE_RESERVED2, !writable);
        proof {
            lemma_set_flag_sets(self.bits(*old(m)), PTE_RESERVED1, writable);
            assert(PTE_RESERVED1 & PTE_RESERVED2 == 0) by (bit_vector);
            lemma_set_flag_other(mid, PTE_RESERVED2, PTE_RESERVED1, !writable);
            lemma_set_flag_sets(mid, PTE_RESERVED2, !writable);
        }
    }

    /// Remove both sharing markers.
    pub fn clear_shared(&self, m: &mut Machine)
        requires
            old(m).wf(),
            self.wf(*old(m)),
        ensures
            self.only_slot_changed(*old(m), *final(m)),
            self.bits(*final(m)) == set_flag(self.bits(*old(m)), PTE_RESERVED1 | PTE_RESERVED2, false),
            !pte_flag(self.bits(*final(m)), PTE_RESERVED1),
            !pte_flag(self.bits(*final(m)), PTE_RESERVED2),
            pte_ppn(self.bits(*final(m))) == pte_ppn(self.bits(*old(m))),
    {
        proof {
            assert(PTE_RESERVED1 | PTE_RESERVED2 <= PTE_FLAG_MASK) by (bit_vector);
        }
        self.write_flag(m, PTE_RESERVED1 | PTE_RESERVED2, false);
        proof {
            lemma_clear_shared_bits(self.bits(*old(m)));
        }
    }

    /// The swapped marker: the entry's page was evicted and the entry
    /// repurposed. Shares its bit with the writable-shared marker; an entry
    /// must never be both swapped and shared.
    pub fn swapped(&self, m: &Machine) -> (b: bool)
        requires
            m.wf(),
            self.wf(*m),
        ensures
            b == pte_flag(self.bits(*m), PTE_RESERVED1),
    {
        self.read_raw(m) & PTE_RESERVED1 == PTE_RESERVED1
    }

    /// Set or clear the swapped marker.
    pub fn set_swapped(&self, m: &mut Machine, value: bool)
        requires
            old(m).wf(),
            self.wf(*old(m)),
        ensures
            self.only_slot_changed(*old(m), *final(m)),
            self.bits(*final(m)) == set_flag(self.bits(*old(m)), PTE_RESERVED1, value),
            pte_flag(self.bits(*final(m)), PTE_RESERVED1) == value,
            pte_ppn(self.bits(*final(m))) == pte_ppn(self.bits(*old(m))),
    {
        self.write_flag(m, PTE_RESERVED1, value);
        proof {
            lemma_set_flag_sets(self.bits(*old(m)), PTE_RESERVED1, value);
        }
    }

    /// The user-accessible flag.
    pub fn user(&self, m: &Machine) -> (b: bool)
        requires
            m.wf(),
            self.wf(*m),
        ensures
            b == pte_flag(self.bits(*m), PTE_USER),
    {
        self.read_raw(m) & PTE_USER == PTE_USER
    }

    /// Set or clear the user-accessible flag.
    pub fn set_user(&self, m: &mut Machine, value: bool)
        requires
            old(m).wf(),
            self.wf(*old(m)),
        ensures
            self.only_slot_changed(*old(m), *final(m)),
            self.bits(*final(m)) == set_flag(self.bits(*old(m)), PTE_USER, value),
            pte_flag(self.bits(*final(m)), PTE_USER) == value,
            pte_ppn(self.bits(*final(m))) == pte_ppn(self.bits(*old(m))),
    {
        self.write_flag(m, PTE_USER, value);
        proof {
            lemma_set_flag_sets(self.bits(*old(m)), PTE_USER, value);
        }
    }

    /// The executable flag.
    pub fn execute(&self, m: &Machine) -> (b: bool)
        requires
            m.wf(),
            self.wf(*m),
        ensures
            b == pte_flag(self.bits(*m), PTE_EXECUTABLE),
    {
        self.read_raw(m) & PTE_EXECUTABLE == PTE_EXECUTABLE
    }

    /// Set or clear the executable flag.
    pub fn set_execute(&self, m: &mut Machine, value: bool)
        requires
            old(m).wf(),
            self.wf(*old(m)),
        ensures
            self.only_slot_changed(*old(m), *final(m)),
            self.bits(*final(m)) == set_flag(self.bits(*old(m)), PTE_EXECUTABLE, value),
            pte_flag(self.bits(*final(m)), PTE_EXECUTABLE) == value,
            pte_ppn(self.bits(*final(m))) == pte_ppn(self.bits(*old(m))),
    {
        self.write_flag(m, PTE_EXECUTABLE, value);
        proof {
            lemma_set_flag_sets(self.bits(*old(m)), PTE_EXECUTABLE, value);
        }
    }

    /// Memory-mapped-I/O attribute: this architecture variant has no hardware
    /// support for it and always reports zero.
    pub fn mmio(&self) -> (r: u8)
        ensures
            r == 0,
    {
        0
    }

    /// Memory-mapped-I/O attribute writes are ignored on this variant.
    pub fn set_mmio(&self, value: u8) {
        let _ = value;
    }
}

} // verus!
