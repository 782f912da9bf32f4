//! The machine model: physical frames, the frame allocator's bookkeeping,
//! and the execution core's translation registers.
//!
//! A [`Machine`] value stands for everything the paging layer touches outside
//! its own structs: every physical frame's contents (as 32-bit words), which
//! frames the external allocator has handed out, the `satp`-style register
//! selecting the active root table, the well-known boot root-table pointer
//! slot, and the boot-time switch that redirects table walks to it.

use vstd::prelude::*;
use vstd::pervasive::VecAdditionalExecFns;

verus! {

/// Number of 32-bit words in one physical frame (4 KiB).
pub const FRAME_WORDS: usize = 1024;

/// Largest number of frames the model carries: 2^20 frames of 4 KiB cover the
/// whole 32-bit physical address range.
pub const MAX_FRAMES: usize = 0x100000;

/// Everything outside the paging structures themselves: physical memory,
/// allocator bookkeeping, and the translation registers of one core.
pub struct Machine {
    words: Vec<u32>,
    used: Vec<bool>,
    satp: usize,
    root_ptr: usize,
    page_table_with_mode: bool,
}

impl Machine {
    /// All physical memory, frame by frame: word `i` of frame `f` is at
    /// position `f * 1024 + i`.
    pub closed spec fn mem(self) -> Seq<u32> {
        self.words@
    }

    /// Which frames the allocator has handed out.
    pub closed spec fn usage(self) -> Seq<bool> {
        self.used@
    }

    /// The register selecting the active root table.
    pub closed spec fn satp_value(self) -> usize {
        self.satp
    }

    /// The well-known boot root-table pointer slot.
    pub closed spec fn root_ptr_value(self) -> usize {
        self.root_ptr
    }

    /// The boot-time switch: when set, table walks start from the boot
    /// root-table pointer rather than from a handle's own root.
    pub closed spec fn with_mode(self) -> bool {
        self.page_table_with_mode
    }

    /// How many frames physical memory holds.
    pub open spec fn n_frames(self) -> int {
        self.usage().len() as int
    }

    /// Word `i` of frame `f`.
    pub open spec fn word(self, f: int, i: int) -> u32 {
        self.mem()[f * 1024 + i]
    }

    /// Is frame `f` handed out by the allocator?
    pub open spec fn frame_used(self, f: int) -> bool {
        self.usage()[f]
    }

    /// Well-formedness: one row of 1024 words per frame, and no more frames
    /// than the 32-bit physical address range holds.
    pub open spec fn wf(self) -> bool {
        &&& self.mem().len() == self.usage().len() * 1024
        &&& self.usage().len() <= MAX_FRAMES
    }

    /// Does the allocator still have a frame to give?
    pub open spec fn has_free(self) -> bool {
        exists|f: int| 0 <= f < self.n_frames() && !self.frame_used(f)
    }

    /// The registers (active-table selector, boot pointer, boot switch) agree.
    pub open spec fn same_regs(self, other: Machine) -> bool {
        &&& self.satp_value() == other.satp_value()
        &&& self.root_ptr_value() == other.root_ptr_value()
        &&& self.with_mode() == other.with_mode()
    }

    /// A machine with `n_frames` zeroed, unallocated frames and cleared
    /// registers.
    pub fn new(n_frames: usize) -> (m: Machine)
        requires
            n_frames <= MAX_FRAMES,
        ensures
            m.wf(),
            m.n_frames() == n_frames,
            forall|f: int, i: int|
                0 <= f < n_frames && 0 <= i < 1024 ==> m.word(f, i) == 0,
            forall|f: int| 0 <= f < n_frames ==> !m.frame_used(f),
            m.satp_value() == 0,
            m.root_ptr_value() == 0,
            !m.with_mode(),
    {
        let total: usize = n_frames * 1024;
        let mut words: Vec<u32> = Vec::new();
        while words.len() < total
            invariant
                words@.len() <= total,
                forall|k: int| 0 <= k < words@.len() ==> words@[k] == 0,
            decreases total - words.len(),
        {
            words.push(0);
        }
        let mut used: Vec<bool> = Vec::new();
        while used.len() < n_frames
            invariant
                used@.len() <= n_frames,
                forall|k: int| 0 <= k < used@.len() ==> !used@[k],
            decreases n_frames - used.len(),
        {
            used.push(false);
        }
        let m = Machine { words, used, satp: 0, root_ptr: 0, page_table_with_mode: false };
        proof {
            assert forall|f: int, i: int|
                0 <= f < n_frames && 0 <= i < 1024 implies m.word(f, i) == 0 by {
                lemma_word_index_bounds(f, i, n_frames as int);
            }
        }
        m
    }

    /// Read word `index` of frame `frame`.
    pub fn read_phys(&self, frame: usize, index: usize) -> (w: u32)
        requires
            self.wf(),
            frame < self.n_frames(),
            index < FRAME_WORDS,
        ensures
            w == self.word(frame as int, index as int),
    {
        proof {
            lemma_word_index_bounds(frame as int, index as int, self.n_frames());
        }
        let idx: usize = frame * 1024 + index;
        self.words[idx]
    }

    /// Write word `index` of frame `frame`.
    pub fn write_phys(&mut self, frame: usize, index: usize, value: u32)
        requires
            old(self).wf(),
            frame < old(self).n_frames(),
            index < FRAME_WORDS,
        ensures
            final(self).wf(),
            final(self).n_frames() == old(self).n_frames(),
            final(self).mem() == old(self).mem().update(frame * 1024 + index, value),
            final(self).word(frame as int, index as int) == value,
            forall|g: int, j: int|
                0 <= g < old(self).n_frames() && 0 <= j < 1024
                    && !(g == frame && j == index)
                    ==> final(self).word(g, j) == old(self).word(g, j),
            final(self).usage() == old(self).usage(),
            final(self).same_regs(*old(self)),
    {
        proof {
            lemma_word_index_bounds(frame as int, index as int, old(self).n_frames());
        }
        let idx: usize = frame * 1024 + index;
        self.words.set(idx, value);
        proof {
            assert forall|g: int, j: int|
                0 <= g < old(self).n_frames() && 0 <= j < 1024
                    && !(g == frame && j == index)
                    implies self.word(g, j) == old(self).word(g, j) by {
                lemma_word_index_bounds(g, j, old(self).n_frames());
                if g * 1024 + j == frame * 1024 + index {
                    lemma_word_index_injective(g, j, frame as int, index as int);
                }
            }
        }
    }

    /// Set every word of frame `frame` to zero.
    pub fn zero_frame(&mut self, frame: usize)
        requires
            old(self).wf(),
            frame < old(self).n_frames(),
        ensures
            final(self).wf(),
            final(self).n_frames() == old(self).n_frames(),
            forall|i: int| 0 <= i < 1024 ==> final(self).word(frame as int, i) == 0,
            forall|g: int, j: int|
                0 <= g < old(self).n_frames() && 0 <= j < 1024 && g != frame
                    ==> final(self).word(g, j) == old(self).word(g, j),
            final(self).usage() == old(self).usage(),
            final(self).same_regs(*old(self)),
    {
        let mut i: usize = 0;
        while i < FRAME_WORDS
            invariant
                i <= 1024,
                frame < old(self).n_frames(),
                self.wf(),
                self.n_frames() == old(self).n_frames(),
                self.usage() == old(self).usage(),
                self.same_regs(*old(self)),
                forall|k: int| 0 <= k < i ==> self.word(frame as int, k) == 0,
                forall|g: int, j: int|
                    0 <= g < old(self).n_frames() && 0 <= j < 1024 && g != frame
                        ==> self.word(g, j) == old(self).word(g, j),
            decreases 1024 - i,
        {
            self.write_phys(frame, i, 0);
            i = i + 1;
        }
    }

    /// Ask the allocator for one frame. Returns its number, or nothing when
    /// physical memory is exhausted.
    pub fn alloc_frame(&mut self) -> (r: Option<usize>)
        requires
            old(self).wf(),
        ensures
            final(self).wf(),
            final(self).n_frames() == old(self).n_frames(),
            final(self).mem() == old(self).mem(),
            final(self).same_regs(*old(self)),
            r is Some <==> old(self).has_free(),
            r matches Some(f) ==> {
                &&& f < old(self).n_frames()
                &&& !old(self).frame_used(f as int)
                &&& final(self).usage() == old(self).usage().update(f as int, true)
            },
            r is None ==> final(self).usage() == old(self).usage(),
    {
        let n = self.used.len();
        let mut i: usize = 0;
        while i < n
            invariant
                *self == *old(self),
                old(self).wf(),
                n == self.usage().len(),
                i <= n,
                forall|k: int| 0 <= k < i ==> self.frame_used(k),
            decreases n - i,
        {
            if !self.used[i] {
                proof {
                    assert(0 <= i < old(self).n_frames() && !old(self).frame_used(i as int));
                }
                self.used.set(i, true);
                return Some(i);
            }
            i = i + 1;
        }
        None
    }

    /// Return one previously allocated frame to the allocator.
    pub fn dealloc_frame(&mut self, frame: usize)
        requires
            old(self).wf(),
            frame < old(self).n_frames(),
            old(self).frame_used(frame as int),
        ensures
            final(self).wf(),
            final(self).n_frames() == old(self).n_frames(),
            final(self).mem() == old(self).mem(),
            final(self).same_regs(*old(self)),
            final(self).usage() == old(self).usage().update(frame as int, false),
    {
        self.used.set(frame, false);
    }

    /// Is frame `frame` currently handed out by the allocator?
    pub fn frame_in_use(&self, frame: usize) -> (b: bool)
        requires
            frame < self.n_frames(),
        ensures
            b == self.frame_used(frame as int),
    {
        self.used[frame]
    }

    /// Does the allocator still have a frame to give?
    pub fn has_free_frame(&self) -> (b: bool)
        requires
            self.wf(),
        ensures
            b == self.has_free(),
    {
        let n = self.used.len();
        let mut i: usize = 0;
        while i < n
            invariant
                n == self.usage().len(),
                i <= n,
                forall|k: int| 0 <= k < i ==> self.frame_used(k),
            decreases n - i,
        {
            if !self.used[i] {
                proof {
                    assert(0 <= i < self.n_frames() && !self.frame_used(i as int));
                }
                return true;
            }
            i = i + 1;
        }
        false
    }

    /// How many frames physical memory holds.
    pub fn frame_count(&self) -> (n: usize)
        ensures
            n == self.n_frames(),
    {
        self.used.len()
    }

    /// Write the register that selects the active root table.
    pub fn write_satp(&mut self, value: usize)
        ensures
            final(self).satp_value() == value,
            final(self).mem() == old(self).mem(),
            final(self).usage() == old(self).usage(),
            final(self).root_ptr_value() == old(self).root_ptr_value(),
            final(self).with_mode() == old(self).with_mode(),
            final(self).wf() == old(self).wf(),
    {
        self.satp = value;
    }

    /// Read the register that selects the active root table.
    pub fn read_satp(&self) -> (r: usize)
        ensures
            r == self.satp_value(),
    {
        self.satp
    }

    /// Read the boot-time switch that redirects walks to the boot root table.
    pub fn read_with_mode(&self) -> (b: bool)
        ensures
            b == self.with_mode(),
    {
        self.page_table_with_mode
    }

    /// Set the boot-time switch; documented to be flipped once during boot.
    pub fn set_with_mode(&mut self, on: bool)
        ensures
            final(self).with_mode() == on,
            final(self).mem() == old(self).mem(),
            final(self).usage() == old(self).usage(),
            final(self).satp_value() == old(self).satp_value(),
            final(self).root_ptr_value() == old(self).root_ptr_value(),
            final(self).wf() == old(self).wf(),
    {
        self.page_table_with_mode = on;
    }

    /// Global translation-cache invalidation point. The functional model
    /// carries no cache state, so the machine value is unchanged; on hardware
    /// this is the fence that orders a structural change before later walks.
    pub fn flush_all(&mut self)
        ensures
            *final(self) == *old(self),
    {
    }

    /// Translation-cache invalidation point for the page containing `vaddr`;
    /// the functional model is unchanged, as for [`Machine::flush_all`].
    pub fn flush_page(&mut self, vaddr: usize)
        ensures
            *final(self) == *old(self),
    {
        let _ = vaddr;
    }
}

/// Install `ptr` into the well-known boot root-table pointer slot, fencing
/// first as the boot path does.
pub fn set_root_page_table_ptr(m: &mut Machine, ptr: usize)
    ensures
        final(m).root_ptr_value() == ptr,
        final(m).mem() == old(m).mem(),
        final(m).usage() == old(m).usage(),
        final(m).satp_value() == old(m).satp_value(),
        final(m).with_mode() == old(m).with_mode(),
        final(m).wf() == old(m).wf(),
{
    m.flush_all();
    m.root_ptr = ptr;
}

/// Read the well-known boot root-table pointer slot.
pub fn get_root_page_table_ptr(m: &Machine) -> (r: usize)
    ensures
        r == m.root_ptr_value(),
{
    m.root_ptr
}

/// The boot root table as a frame handle: the frame number the boot pointer
/// slot names, for use with the machine's slot accessors.
pub fn root_page_table_buffer(m: &Machine) -> (f: usize)
    ensures
        f == m.root_ptr_value() >> 12,
{
    m.root_ptr >> 12
}

/// Is paged translation switched on in the active-table register?
pub open spec fn satp_mode_on(m: Machine) -> bool {
    m.satp_value() & 0x8000_0000 != 0
}

/// The root-table frame the active-table register selects.
pub open spec fn satp_root(m: Machine) -> int {
    (m.satp_value() & 0x3FFFFF) as int
}

/// Positions of distinct words never collide: frame rows are disjoint.
pub proof fn lemma_word_index_injective(f1: int, i1: int, f2: int, i2: int)
    by (nonlinear_arith)
    requires
        0 <= i1 < 1024,
        0 <= i2 < 1024,
        f1 * 1024 + i1 == f2 * 1024 + i2,
    ensures
        f1 == f2,
        i1 == i2,
{
}

/// A word position of an in-range frame is in range of the memory sequence.
pub proof fn lemma_word_index_bounds(f: int, i: int, n: int)
    by (nonlinear_arith)
    requires
        0 <= f < n,
        0 <= i < 1024,
    ensures
        0 <= f * 1024 + i < n * 1024,
{
}

} // verus!
