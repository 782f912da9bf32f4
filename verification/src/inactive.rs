//! The inactive address space: an owned root table, its bare creation,
//! kernel mapping, activation token, scoped editing, and destruction.

use vstd::prelude::*;
use vstd::arithmetic::div_mod::{lemma_fundamental_div_mod, lemma_mod_bound};
use crate::active::{wf_space, ActivePageTable};
use crate::machine::{satp_mode_on, satp_root, Machine};
use crate::pte::{
    lemma_kernel_pte, lemma_null_pte, make_pte, pte_make, pte_ppn, pte_table, PTE_KERNEL_MAP,
};

verus! {

/// First root-table slot of the kernel half of the address space.
pub const KERNEL_BASE_SLOT: usize = 256;

/// The activation-register value for a root-table frame: translation mode
/// switched on, the frame's number in the PPN field.
pub open spec fn token_of(root: usize) -> usize {
    root | 0x8000_0000
}

/// The entry the kernel linear mapping installs in root slot `i`: a present,
/// writable, executable superpage whose frame mirrors the slot's position.
pub open spec fn kernel_slot_pte(i: int) -> u32 {
    pte_make(((i - 256) * 1024) as u32, PTE_KERNEL_MAP)
}

/// The kernel half of the root table holds exactly the linear mapping.
pub open spec fn kernel_mapped(m: Machine, root: int) -> bool {
    forall|i: int| 256 <= i < 1024 ==> #[trigger] m.word(root, i) == kernel_slot_pte(i)
}

/// How `map_kernel` changes the machine: the kernel half of the root table
/// now holds the linear mapping, the user half and all other frames and the
/// allocator and registers are untouched.
pub open spec fn map_kernel_rel(pre: Machine, post: Machine, root: int) -> bool {
    &&& post.wf()
    &&& post.n_frames() == pre.n_frames()
    &&& post.usage() == pre.usage()
    &&& post.same_regs(pre)
    &&& kernel_mapped(post, root)
    &&& forall|i: int| 0 <= i < 256 ==> #[trigger] post.word(root, i) == pre.word(root, i)
    &&& forall|g: int, j: int|
        0 <= g < pre.n_frames() && 0 <= j < 1024 && g != root
            ==> post.word(g, j) == pre.word(g, j)
}

/// An address space that is not currently driving translation. Owns exactly
/// one root-table frame; two such spaces never share a root.
#[derive(Debug)]
pub struct InactivePageTable0 {
    root_frame: usize,
}

impl InactivePageTable0 {
    /// The number of the root-table frame this space owns.
    pub closed spec fn root_id(self) -> usize {
        self.root_frame
    }

    /// The space's table structure is well formed in `m`.
    pub open spec fn wf(self, m: Machine) -> bool {
        wf_space(m, self.root_id() as int)
    }

    /// Create a bare address space: take one frame from the allocator and
    /// zero it. Ownership of the root frame passes to the returned value.
    /// Exhausted physical memory is fatal and excluded by precondition.
    pub fn new_bare(m: &mut Machine) -> (s: Self)
        requires
            old(m).wf(),
            old(m).has_free(),
        ensures
            final(m).wf(),
            s.wf(*final(m)),
            final(m).n_frames() == old(m).n_frames(),
            s.root_id() < old(m).n_frames(),
            !old(m).frame_used(s.root_id() as int),
            final(m).usage() == old(m).usage().update(s.root_id() as int, true),
            forall|i: int| 0 <= i < 1024 ==> final(m).word(s.root_id() as int, i) == 0,
            forall|g: int, j: int|
                0 <= g < old(m).n_frames() && 0 <= j < 1024 && g != s.root_id()
                    ==> final(m).word(g, j) == old(m).word(g, j),
            final(m).same_regs(*old(m)),
    {
        let target = m.alloc_frame().unwrap();
        m.zero_frame(target);
        let s = InactivePageTable0 { root_frame: target };
        proof {
            lemma_null_pte();
        }
        s
    }

    /// Install the kernel's half of the address space: fill the upper root
    /// slots with the linear superpage mapping every space shares. Idempotent
    /// and does not disturb the user half.
    pub fn map_kernel(&mut self, m: &mut Machine)
        requires
            old(m).wf(),
            old(self).wf(*old(m)),
        ensures
            map_kernel_rel(*old(m), *final(m), old(self).root_id() as int),
            final(self).wf(*final(m)),
            *final(self) == *old(self),
    {
        let root = self.root_frame;
        let mut i: usize = KERNEL_BASE_SLOT;
        while i < 1024
            invariant
                256 <= i <= 1024,
                root == old(self).root_id(),
                root < old(m).n_frames(),
                m.wf(),
                m.n_frames() == old(m).n_frames(),
                m.usage() == old(m).usage(),
                m.same_regs(*old(m)),
                forall|k: int| 256 <= k < i ==> #[trigger] m.word(root as int, k) == kernel_slot_pte(k),
                forall|j: int|
                    0 <= j < 1024 && (j < 256 || i <= j)
                        ==> #[trigger] m.word(root as int, j) == old(m).word(root as int, j),
                forall|g: int, j: int|
                    0 <= g < old(m).n_frames() && 0 <= j < 1024 && g != root
                        ==> m.word(g, j) == old(m).word(g, j),
            decreases 1024 - i,
        {
            let ppn: u32 = ((i - 256) as u32) * 1024;
            let slot = make_pte(ppn, PTE_KERNEL_MAP);
            m.write_phys(root, i, slot);
            i = i + 1;
        }
        proof {
            let root_g = old(self).root_id() as int;
            assert forall|i2: int|
                0 <= i2 < 1024 && pte_table(#[trigger] m.word(root_g, i2)) implies {
                &&& 0 <= pte_ppn(m.word(root_g, i2)) < m.n_frames()
                &&& m.frame_used(pte_ppn(m.word(root_g, i2)) as int)
                &&& pte_ppn(m.word(root_g, i2)) != root_g
            } by {
                if 256 <= i2 < 1024 {
                    lemma_kernel_pte(((i2 - 256) * 1024) as u32);
                } else {
                    assert(m.word(root_g, i2) == old(m).word(root_g, i2));
                    assert(pte_table(old(m).word(root_g, i2)));
                }
            }
        }
    }

    /// The hardware activation value of this space: its root frame number
    /// with the translation mode set.
    pub fn token(&self) -> (t: usize)
        requires
            self.root_id() < 0x100000,
        ensures
            t == token_of(self.root_id()),
    {
        self.root_frame | 0x8000_0000
    }

    /// Install an activation value into the register selecting the active
    /// table; core-wide, not scoped to any one space.
    pub fn set_token(m: &mut Machine, token: usize)
        ensures
            final(m).satp_value() == token,
            final(m).mem() == old(m).mem(),
            final(m).usage() == old(m).usage(),
            final(m).root_ptr_value() == old(m).root_ptr_value(),
            final(m).with_mode() == old(m).with_mode(),
            final(m).wf() == old(m).wf(),
    {
        m.write_satp(token);
    }

    /// Read the activation register of this core.
    pub fn active_token(m: &Machine) -> (t: usize)
        ensures
            t == m.satp_value(),
    {
        m.read_satp()
    }

    /// Global translation-cache invalidation; used after switching the
    /// active table. The functional model is unchanged.
    pub fn flush_tlb(m: &mut Machine)
        ensures
            *final(m) == *old(m),
    {
        m.flush_all();
    }

    /// Open a scoped edit of this inactive space: on this directly-indexed
    /// variant the view is constructed straight over the candidate root, so
    /// nothing is redirected and nothing needs restoring. The boot-time
    /// walk redirection must be off, or the view would walk the boot table.
    pub fn edit_begin(&self, m: &Machine) -> (t: ActivePageTable)
        requires
            !m.with_mode(),
        ensures
            t.root == self.root_id(),
            t.walk_root(*m) == self.root_id() as int,
            t.cached is None,
    {
        ActivePageTable { root: self.root_frame, cached: None }
    }

    /// Edit this inactive space through the active-space interface, in one
    /// scope: the supplied operation receives a view walking this space's
    /// root together with the machine, and whatever it establishes about
    /// them is carried to the caller; the translation cache is invalidated
    /// on the way out. The view and the machine travel by value, so the
    /// operation cannot leak the temporary view past the scope.
    pub fn edit<T, F: FnOnce(ActivePageTable, Machine) -> (ActivePageTable, Machine, T)>(
        &mut self,
        m: &mut Machine,
        f: F,
    ) -> (r: T)
        requires
            !old(m).with_mode(),
            call_requires(
                f,
                ((ActivePageTable { root: old(self).root_id(), cached: None }), *old(m)),
            ),
        ensures
            *final(self) == *old(self),
            exists|v2: ActivePageTable|
                call_ensures(
                    f,
                    ((ActivePageTable { root: old(self).root_id(), cached: None }), *old(m)),
                    (v2, *final(m), r),
                ),
    {
        let view = ActivePageTable { root: self.root_frame, cached: None };
        let mut taken = Machine::new(0);
        core::mem::swap(m, &mut taken);
        let (v2, mm2, t) = f(view, taken);
        let mut back = mm2;
        core::mem::swap(m, &mut back);
        m.flush_all();
        proof {
            assert(call_ensures(
                f,
                ((ActivePageTable { root: old(self).root_id(), cached: None }), *old(m)),
                (v2, *m, t),
            ));
        }
        t
    }

    /// Close a scoped edit: give the view back and invalidate the
    /// translation cache, so no stale cached entry of the edit survives.
    pub fn edit_finish(&self, m: &mut Machine, view: ActivePageTable)
        ensures
            *final(m) == *old(m),
    {
        let _ = view;
        m.flush_all();
    }

    /// Destroy the space, releasing exactly its root frame back to the
    /// allocator. The root must not back the currently active register
    /// value.
    pub fn destroy(self, m: &mut Machine)
        requires
            old(m).wf(),
            self.root_id() < old(m).n_frames(),
            old(m).frame_used(self.root_id() as int),
            satp_mode_on(*old(m)) ==> satp_root(*old(m)) != self.root_id() as int,
        ensures
            final(m).wf(),
            final(m).n_frames() == old(m).n_frames(),
            final(m).mem() == old(m).mem(),
            final(m).same_regs(*old(m)),
            final(m).usage() == old(m).usage().update(self.root_id() as int, false),
    {
        m.dealloc_frame(self.root_frame);
    }
}

/// A token made from a root frame selects exactly that root once installed:
/// the mode bit is set and the register's PPN field reads the frame back.
pub proof fn lemma_token_round_trip(m: Machine, root: usize)
    requires
        m.satp_value() == token_of(root),
        root < 0x100000,
    ensures
        satp_mode_on(m),
        satp_root(m) == root,
{
    assert((root | 0x8000_0000usize) & 0x3FFFFF == root && (root | 0x8000_0000usize)
        & 0x8000_0000 != 0) by (bit_vector)
        requires
            root < 0x100000usize,
    ;
}

/// Installing the kernel mapping twice yields the same machine as
/// installing it once: the second run changes nothing.
pub proof fn lemma_map_kernel_idempotent(m0: Machine, m1: Machine, m2: Machine, root: int)
    requires
        m0.wf(),
        0 <= root < m0.n_frames(),
        map_kernel_rel(m0, m1, root),
        map_kernel_rel(m1, m2, root),
    ensures
        m2.mem() =~= m1.mem(),
        m2.usage() == m1.usage(),
        m2.same_regs(m1),
{
    assert(m2.mem().len() == m1.mem().len());
    assert forall|idx: int| 0 <= idx < m1.mem().len() implies m2.mem()[idx] == m1.mem()[idx] by {
        let g = idx / 1024;
        let j = idx % 1024;
        lemma_fundamental_div_mod(idx, 1024);
        lemma_mod_bound(idx, 1024);
        assert(idx == g * 1024 + j);
        assert(0 <= g < m1.n_frames());
        assert(m2.word(g, j) == m2.mem()[idx]);
        assert(m1.word(g, j) == m1.mem()[idx]);
        if g == root {
            if 256 <= j < 1024 {
                assert(m2.word(g, j) == kernel_slot_pte(j));
                assert(m1.word(g, j) == kernel_slot_pte(j));
            } else {
                assert(m2.word(root, j) == m1.word(root, j));
            }
        } else {
            assert(m2.word(g, j) == m1.word(g, j));
        }
    }
}

} // verus!
