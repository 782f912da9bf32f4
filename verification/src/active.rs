//! The active address-space view: map, unmap and entry lookup as two-level
//! Sv32 table walks over the machine model, each structural change followed
//! by its translation-cache invalidation point.

use vstd::prelude::*;
use crate::entry::PageEntry;
use crate::machine::{
    get_root_page_table_ptr, satp_mode_on, satp_root, Machine,
};
use crate::pte::{
    lemma_addr_ppn, lemma_mapped_pte, lemma_table_pte, make_pte,
    pte_flag, pte_leaf, pte_make, pte_ppn, pte_present, pte_table,
    PTE_DEFAULT_MAP, PTE_PRESENT_MASK, PTE_TABLE_PTR, PTE_VALID,
};

verus! {

/// Index into the root (level-1) table for a virtual address.
pub open spec fn vpn1(vaddr: usize) -> int {
    ((vaddr >> 22) & 0x3FF) as int
}

/// Index into the leaf (level-0) table for a virtual address.
pub open spec fn vpn0(vaddr: usize) -> int {
    ((vaddr >> 12) & 0x3FF) as int
}

/// Index of the 32-bit word a virtual address falls in within its page.
pub open spec fn word_index(vaddr: usize) -> int {
    ((vaddr >> 2) & 0x3FF) as int
}

/// Base address of the virtual page containing `vaddr`.
pub open spec fn page_base(vaddr: usize) -> usize {
    (vaddr >> 12) << 12
}

/// Table indices and the in-page word index are always below 1024.
pub proof fn lemma_vpn_bounds(vaddr: usize)
    by (bit_vector)
    ensures
        (vaddr >> 22) & 0x3FF < 1024,
        (vaddr >> 12) & 0x3FF < 1024,
        (vaddr >> 2) & 0x3FF < 1024,
{
}

/// The root-table slot a virtual address walks through.
pub open spec fn l1_pte(m: Machine, root: int, vaddr: usize) -> u32 {
    m.word(root, vpn1(vaddr))
}

/// Does the walk for `vaddr` find a leaf table under `root`?
pub open spec fn has_leaf_table(m: Machine, root: int, vaddr: usize) -> bool {
    pte_table(l1_pte(m, root, vaddr))
}

/// The frame of the leaf table the walk for `vaddr` reaches.
pub open spec fn leaf_table(m: Machine, root: int, vaddr: usize) -> int {
    pte_ppn(l1_pte(m, root, vaddr)) as int
}

/// The leaf-table slot holding the translation of `vaddr`'s page.
pub open spec fn leaf_pte(m: Machine, root: int, vaddr: usize) -> u32 {
    m.word(leaf_table(m, root, vaddr), vpn0(vaddr))
}

/// What looking up `vaddr` under `root` yields: the raw leaf entry, or
/// nothing when an intermediate level is absent or the slot is all zero.
pub open spec fn entry_lookup(m: Machine, root: int, vaddr: usize) -> Option<u32> {
    if has_leaf_table(m, root, vaddr) && leaf_pte(m, root, vaddr) != 0 {
        Some(leaf_pte(m, root, vaddr))
    } else {
        None
    }
}

/// A well-formed address space under `root`: the root frame is allocated,
/// and every table pointer in it names an allocated frame other than the
/// root itself.
pub open spec fn wf_space(m: Machine, root: int) -> bool {
    &&& 0 <= root < m.n_frames()
    &&& m.frame_used(root)
    &&& forall|i: int|
        0 <= i < 1024 && pte_table(#[trigger] m.word(root, i)) ==> {
            &&& 0 <= pte_ppn(m.word(root, i)) < m.n_frames()
            &&& m.frame_used(pte_ppn(m.word(root, i)) as int)
            &&& pte_ppn(m.word(root, i)) != root
        }
}

/// Is frame `f` part of the table structure of the space under `root`?
pub open spec fn in_space(m: Machine, root: int, f: int) -> bool {
    ||| f == root
    ||| exists|i: int|
        0 <= i < 1024 && pte_table(#[trigger] m.word(root, i)) && pte_ppn(m.word(root, i)) == f
}

/// The inputs on which `map` is defined: a well-formed space, 32-bit
/// addresses, no superpage in the way, the page not already mapped, and a
/// free frame when a leaf table must be created (out of memory during paging
/// is fatal and excluded here).
pub open spec fn map_pre(m: Machine, root: int, vaddr: usize, target: usize) -> bool {
    &&& m.wf()
    &&& wf_space(m, root)
    &&& vaddr < 0x1_0000_0000
    &&& target < 0x1_0000_0000
    &&& !pte_leaf(l1_pte(m, root, vaddr))
    &&& has_leaf_table(m, root, vaddr) ==> leaf_pte(m, root, vaddr) == 0
    &&& !has_leaf_table(m, root, vaddr) ==> m.has_free()
}

/// How `map(vaddr, target)` changes the machine: the leaf slot of `vaddr`
/// now holds a present, writable entry for `target`'s frame; at most one
/// fresh frame was taken for a missing leaf table; nothing else moved.
pub open spec fn map_rel(pre: Machine, post: Machine, root: int, vaddr: usize, target: usize) -> bool {
    &&& post.wf()
    &&& wf_space(post, root)
    &&& post.n_frames() == pre.n_frames()
    &&& post.same_regs(pre)
    &&& entry_lookup(post, root, vaddr) == Some(pte_make((target >> 12) as u32, PTE_DEFAULT_MAP))
    &&& if has_leaf_table(pre, root, vaddr) {
        &&& post.usage() == pre.usage()
        &&& leaf_table(post, root, vaddr) == leaf_table(pre, root, vaddr)
        &&& forall|g: int, j: int|
            0 <= g < pre.n_frames() && 0 <= j < 1024
                && !(g == leaf_table(pre, root, vaddr) && j == vpn0(vaddr))
                ==> post.word(g, j) == pre.word(g, j)
    } else {
        exists|fresh: int|
            {
                &&& 0 <= fresh < pre.n_frames()
                &&& !pre.frame_used(fresh)
                &&& post.usage() == pre.usage().update(fresh, true)
                &&& leaf_table(post, root, vaddr) == fresh
                &&& post.word(root, vpn1(vaddr)) == pte_make(fresh as u32, PTE_TABLE_PTR)
                &&& forall|i: int|
                    0 <= i < 1024 && i != vpn0(vaddr) ==> #[trigger] post.word(fresh, i) == 0
                &&& forall|g: int, j: int|
                    0 <= g < pre.n_frames() && 0 <= j < 1024 && g != fresh
                        && !(g == root && j == vpn1(vaddr))
                        ==> post.word(g, j) == pre.word(g, j)
            }
    }
}

/// The inputs on which `unmap` is defined: the page must be mapped;
/// unmapping a missing page is a programmer error, not a runtime condition.
pub open spec fn unmap_pre(m: Machine, root: int, vaddr: usize) -> bool {
    &&& m.wf()
    &&& wf_space(m, root)
    &&& vaddr < 0x1_0000_0000
    &&& has_leaf_table(m, root, vaddr)
    &&& leaf_pte(m, root, vaddr) != 0
}

/// How `unmap(vaddr)` changes the machine: exactly the leaf slot of `vaddr`
/// is cleared.
pub open spec fn unmap_rel(pre: Machine, post: Machine, root: int, vaddr: usize) -> bool {
    &&& post.wf()
    &&& wf_space(post, root)
    &&& post.n_frames() == pre.n_frames()
    &&& post.usage() == pre.usage()
    &&& post.same_regs(pre)
    &&& entry_lookup(post, root, vaddr) is None
    &&& forall|g: int, j: int|
        0 <= g < pre.n_frames() && 0 <= j < 1024
            && !(g == leaf_table(pre, root, vaddr) && j == vpn0(vaddr))
            ==> post.word(g, j) == pre.word(g, j)
}

/// The transient handle to whichever table currently governs translation:
/// the root it walks from, and the most recently resolved entry, absent
/// until a lookup succeeds.
pub struct ActivePageTable {
    /// Frame number of the root table this view walks.
    pub root: usize,
    /// The most recently resolved entry, for mutation without a new lookup.
    pub cached: Option<PageEntry>,
}

impl ActivePageTable {
    /// The root frame a walk starts from: the boot root table while the
    /// boot-time switch is set, this view's own root otherwise.
    pub open spec fn walk_root(self, m: Machine) -> int {
        if m.with_mode() {
            (m.root_ptr_value() >> 12) as int
        } else {
            self.root as int
        }
    }

    /// A view over the table the boot root-table pointer names. The caller
    /// must be the only holder of such a view on this core.
    pub fn new(m: &Machine) -> (t: ActivePageTable)
        ensures
            t.root == m.root_ptr_value() >> 12,
            t.cached is None,
    {
        ActivePageTable { root: get_root_page_table_ptr(m) >> 12, cached: None }
    }

    /// The frame of the table a walk starts from right now.
    fn get_raw_table(&self, m: &Machine) -> (r: usize)
        ensures
            r as int == self.walk_root(*m),
    {
        if m.read_with_mode() {
            get_root_page_table_ptr(m) >> 12
        } else {
            self.root
        }
    }

    /// Look up the entry for the page containing `vaddr` without allocating.
    /// Returns nothing when an intermediate table level is absent or the
    /// slot is unused; a found entry is also cached on the view.
    pub fn get_entry(&mut self, m: &Machine, vaddr: usize) -> (r: Option<PageEntry>)
        requires
            m.wf(),
            wf_space(*m, old(self).walk_root(*m)),
            vaddr < 0x1_0000_0000,
        ensures
            final(self).root == old(self).root,
            match r {
                Some(e) => {
                    &&& entry_lookup(*m, old(self).walk_root(*m), vaddr) == Some(e.bits(*m))
                    &&& e.wf(*m)
                    &&& e.frame as int == leaf_table(*m, old(self).walk_root(*m), vaddr)
                    &&& e.index as int == vpn0(vaddr)
                    &&& e.page == page_base(vaddr)
                    &&& final(self).cached == Some(e)
                },
                None => {
                    &&& entry_lookup(*m, old(self).walk_root(*m), vaddr) is None
                    &&& final(self).cached == old(self).cached
                },
            },
    {
        proof {
            lemma_vpn_bounds(vaddr);
        }
        let root = self.get_raw_table(m);
        let i1: usize = (vaddr >> 22) & 0x3FF;
        let l1 = m.read_phys(root, i1);
        if l1 & PTE_VALID == PTE_VALID && l1 & 0xE == 0 {
            let tf: usize = (l1 >> 10) as usize;
            let i0: usize = (vaddr >> 12) & 0x3FF;
            let b = m.read_phys(tf, i0);
            if b != 0 {
                let e = PageEntry { frame: tf, index: i0, page: (vaddr >> 12) << 12 };
                self.cached = Some(e);
                Some(e)
            } else {
                None
            }
        } else {
            None
        }
    }

    /// Install a mapping of the page containing `vaddr` to the frame
    /// containing `target`, with the default flags (present, readable,
    /// writable), allocating the leaf table if it is missing, and invalidate
    /// the page's cached translation. Returns the installed entry.
    pub fn map(&mut self, m: &mut Machine, vaddr: usize, target: usize) -> (e: PageEntry)
        requires
            map_pre(*old(m), old(self).walk_root(*old(m)), vaddr, target),
        ensures
            map_rel(*old(m), *final(m), old(self).walk_root(*old(m)), vaddr, target),
            final(self).root == old(self).root,
            e.wf(*final(m)),
            e.frame as int == leaf_table(*final(m), old(self).walk_root(*old(m)), vaddr),
            e.index as int == vpn0(vaddr),
            e.page == page_base(vaddr),
            final(self).cached == Some(e),
    {
        proof {
            lemma_vpn_bounds(vaddr);
            lemma_addr_ppn(target);
        }
        let ghost root_g = old(self).walk_root(*old(m));
        let root = self.get_raw_table(m);
        let i1: usize = (vaddr >> 22) & 0x3FF;
        let i0: usize = (vaddr >> 12) & 0x3FF;
        let ppn_t: u32 = (target >> 12) as u32;
        let l1 = m.read_phys(root, i1);
        let tf: usize;
        if l1 & PTE_VALID == PTE_VALID {
            proof {
                assert(pte_table(l1));
            }
            tf = (l1 >> 10) as usize;
        } else {
            let fresh = m.alloc_frame().unwrap();
            m.zero_frame(fresh);
            let slot = make_pte(fresh as u32, PTE_TABLE_PTR);
            m.write_phys(root, i1, slot);
            proof {
                lemma_table_pte(fresh as u32);
                assert(m.word(root as int, i1 as int) == slot);
            }
            tf = fresh;
        }
        let ghost m3 = *m;
        let leaf = make_pte(ppn_t, PTE_DEFAULT_MAP);
        m.write_phys(tf, i0, leaf);
        proof {
            lemma_mapped_pte(ppn_t);
            assert(m.word(root_g, vpn1(vaddr)) == m3.word(root_g, vpn1(vaddr)));
            assert(wf_space(*m, root_g)) by {
                assert forall|i: int|
                    0 <= i < 1024 && pte_table(#[trigger] m.word(root_g, i)) implies {
                    &&& 0 <= pte_ppn(m.word(root_g, i)) < m.n_frames()
                    &&& m.frame_used(pte_ppn(m.word(root_g, i)) as int)
                    &&& pte_ppn(m.word(root_g, i)) != root_g
                } by {
                    if m.word(root_g, i) != old(m).word(root_g, i) {
                    } else {
                        assert(pte_table(old(m).word(root_g, i)));
                    }
                }
            }
        }
        m.flush_page(vaddr);
        let e = PageEntry { frame: tf, index: i0, page: (vaddr >> 12) << 12 };
        self.cached = Some(e);
        e
    }

    /// Remove the translation for the page containing `vaddr` and invalidate
    /// its cached translation. The page must be mapped.
    pub fn unmap(&mut self, m: &mut Machine, vaddr: usize)
        requires
            unmap_pre(*old(m), old(self).walk_root(*old(m)), vaddr),
        ensures
            unmap_rel(*old(m), *final(m), old(self).walk_root(*old(m)), vaddr),
            *final(self) == *old(self),
    {
        proof {
            lemma_vpn_bounds(vaddr);
        }
        let root = self.get_raw_table(m);
        let i1: usize = (vaddr >> 22) & 0x3FF;
        let i0: usize = (vaddr >> 12) & 0x3FF;
        let l1 = m.read_phys(root, i1);
        let tf: usize = (l1 >> 10) as usize;
        m.write_phys(tf, i0, 0);
        proof {
            let root_g = old(self).walk_root(*old(m));
            assert(m.word(root_g, vpn1(vaddr)) == old(m).word(root_g, vpn1(vaddr)));
            assert forall|i: int|
                0 <= i < 1024 && pte_table(#[trigger] m.word(root_g, i)) implies {
                &&& 0 <= pte_ppn(m.word(root_g, i)) < m.n_frames()
                &&& m.frame_used(pte_ppn(m.word(root_g, i)) as int)
                &&& pte_ppn(m.word(root_g, i)) != root_g
            } by {
                assert(m.word(root_g, i) == old(m).word(root_g, i));
            }
        }
        m.flush_page(vaddr);
    }
}

/// A lookup depends only on the words of the space's own table frames: two
/// machines that agree on them agree on every lookup.
pub proof fn lemma_lookup_depends_on_space(m1: Machine, m2: Machine, root: int, vaddr: usize)
    requires
        wf_space(m1, root),
        vaddr < 0x1_0000_0000,
        forall|f: int, i: int|
            0 <= i < 1024 && in_space(m1, root, f) ==> #[trigger] m2.word(f, i) == m1.word(f, i),
    ensures
        entry_lookup(m2, root, vaddr) == entry_lookup(m1, root, vaddr),
{
    lemma_vpn_bounds(vaddr);
    assert(in_space(m1, root, root));
    assert(m2.word(root, vpn1(vaddr)) == m1.word(root, vpn1(vaddr)));
    if has_leaf_table(m1, root, vaddr) {
        let t = leaf_table(m1, root, vaddr);
        assert(pte_table(m1.word(root, vpn1(vaddr))));
        assert(in_space(m1, root, t));
        assert(m2.word(t, vpn0(vaddr)) == m1.word(t, vpn0(vaddr)));
    }
}

/// Every frame of a well-formed space is allocated.
pub proof fn lemma_space_frames_used(m: Machine, root: int, f: int)
    requires
        wf_space(m, root),
        in_space(m, root, f),
    ensures
        0 <= f < m.n_frames(),
        m.frame_used(f),
{
    if f != root {
        let i = choose|i: int|
            0 <= i < 1024 && pte_table(#[trigger] m.word(root, i)) && pte_ppn(m.word(root, i)) == f;
        assert(pte_table(m.word(root, i)));
    }
}

/// Editing one space touches no frame of a disjoint one: a `map` against
/// `eroot` leaves every lookup under a disjoint, well-formed `oroot` exactly
/// as it was — the caller's own translation is undisturbed.
pub proof fn lemma_map_preserves_disjoint_space(
    pre: Machine,
    post: Machine,
    eroot: int,
    vaddr: usize,
    target: usize,
    oroot: int,
    ovaddr: usize,
)
    requires
        pre.wf(),
        wf_space(pre, eroot),
        wf_space(pre, oroot),
        map_rel(pre, post, eroot, vaddr, target),
        forall|f: int| in_space(pre, oroot, f) ==> !in_space(pre, eroot, f),
        vaddr < 0x1_0000_0000,
        ovaddr < 0x1_0000_0000,
    ensures
        entry_lookup(post, oroot, ovaddr) == entry_lookup(pre, oroot, ovaddr),
{
    lemma_vpn_bounds(vaddr);
    assert forall|f: int, i: int|
        0 <= i < 1024 && in_space(pre, oroot, f) implies #[trigger] post.word(f, i) == pre.word(f, i) by {
        lemma_space_frames_used(pre, oroot, f);
        assert(!in_space(pre, eroot, f));
        assert(f != eroot);
        if has_leaf_table(pre, eroot, vaddr) {
            let t = leaf_table(pre, eroot, vaddr);
            assert(pte_table(pre.word(eroot, vpn1(vaddr))));
            assert(in_space(pre, eroot, t));
            assert(f != t);
        } else {
            let fresh = choose|fresh: int|
                {
                    &&& 0 <= fresh < pre.n_frames()
                    &&& !pre.frame_used(fresh)
                    &&& post.usage() == pre.usage().update(fresh, true)
                    &&& leaf_table(post, eroot, vaddr) == fresh
                    &&& post.word(eroot, vpn1(vaddr)) == pte_make(fresh as u32, PTE_TABLE_PTR)
                    &&& forall|i: int|
                        0 <= i < 1024 && i != vpn0(vaddr) ==> #[trigger] post.word(fresh, i) == 0
                    &&& forall|g: int, j: int|
                        0 <= g < pre.n_frames() && 0 <= j < 1024 && g != fresh
                            && !(g == eroot && j == vpn1(vaddr))
                            ==> post.word(g, j) == pre.word(g, j)
                };
            assert(f != fresh);
        }
    }
    lemma_lookup_depends_on_space(pre, post, oroot, ovaddr);
}

/// The same for `unmap`: removing a translation in one space leaves every
/// lookup under a disjoint, well-formed space unchanged.
pub proof fn lemma_unmap_preserves_disjoint_space(
    pre: Machine,
    post: Machine,
    eroot: int,
    vaddr: usize,
    oroot: int,
    ovaddr: usize,
)
    requires
        pre.wf(),
        wf_space(pre, eroot),
        wf_space(pre, oroot),
        unmap_pre(pre, eroot, vaddr),
        unmap_rel(pre, post, eroot, vaddr),
        forall|f: int| in_space(pre, oroot, f) ==> !in_space(pre, eroot, f),
        ovaddr < 0x1_0000_0000,
    ensures
        entry_lookup(post, oroot, ovaddr) == entry_lookup(pre, oroot, ovaddr),
{
    lemma_vpn_bounds(vaddr);
    assert forall|f: int, i: int|
        0 <= i < 1024 && in_space(pre, oroot, f) implies #[trigger] post.word(f, i) == pre.word(f, i) by {
        lemma_space_frames_used(pre, oroot, f);
        let t = leaf_table(pre, eroot, vaddr);
        assert(pte_table(pre.word(eroot, vpn1(vaddr))));
        assert(in_space(pre, eroot, t));
        assert(f != t);
    }
    lemma_lookup_depends_on_space(pre, post, oroot, ovaddr);
}

/// What a load through the current translation observes: the 32-bit word
/// `vaddr` falls in, read through the table the active-table register
/// selects — directly when translation is off, through a superpage or a
/// two-level walk when it is on — or nothing where translation faults or
/// leaves the modelled physical memory.
pub open spec fn read_through_spec(m: Machine, vaddr: usize) -> Option<u32> {
    if !satp_mode_on(m) {
        if (vaddr >> 12) < m.n_frames() {
            Some(m.word((vaddr >> 12) as int, word_index(vaddr)))
        } else {
            None
        }
    } else {
        let root = satp_root(m);
        if root >= m.n_frames() {
            None
        } else {
            let l1 = m.word(root, vpn1(vaddr));
            if !pte_flag(l1, PTE_VALID) {
                None
            } else if pte_leaf(l1) {
                if pte_present(l1) && pte_ppn(l1) % 1024 == 0
                    && pte_ppn(l1) + vpn0(vaddr) < m.n_frames() {
                    Some(m.word(pte_ppn(l1) + vpn0(vaddr), word_index(vaddr)))
                } else {
                    None
                }
            } else {
                let t = pte_ppn(l1) as int;
                if t < m.n_frames() {
                    let pte = m.word(t, vpn0(vaddr));
                    if pte_present(pte) && (pte_ppn(pte) as int) < m.n_frames() {
                        Some(m.word(pte_ppn(pte) as int, word_index(vaddr)))
                    } else {
                        None
                    }
                } else {
                    None
                }
            }
        }
    }
}

/// Perform a load through the current translation, as the executing core
/// would observe it.
pub fn read_through(m: &Machine, vaddr: usize) -> (r: Option<u32>)
    requires
        m.wf(),
        vaddr < 0x1_0000_0000,
    ensures
        r == read_through_spec(*m, vaddr),
{
    proof {
        lemma_vpn_bounds(vaddr);
    }
    let iw: usize = (vaddr >> 2) & 0x3FF;
    let satp = m.read_satp();
    if satp & 0x8000_0000 == 0 {
        let f: usize = vaddr >> 12;
        if f < m.frame_count() {
            Some(m.read_phys(f, iw))
        } else {
            None
        }
    } else {
        let root: usize = satp & 0x3FFFFF;
        if root >= m.frame_count() {
            None
        } else {
            let i1: usize = (vaddr >> 22) & 0x3FF;
            let l1 = m.read_phys(root, i1);
            if l1 & PTE_VALID != PTE_VALID {
                None
            } else if l1 & 0xE != 0 {
                let ppn: usize = (l1 >> 10) as usize;
                let i0: usize = (vaddr >> 12) & 0x3FF;
                if l1 & PTE_PRESENT_MASK == PTE_PRESENT_MASK && ppn % 1024 == 0
                    && ppn + i0 < m.frame_count() {
                    Some(m.read_phys(ppn + i0, iw))
                } else {
                    None
                }
            } else {
                let t: usize = (l1 >> 10) as usize;
                if t < m.frame_count() {
                    let i0: usize = (vaddr >> 12) & 0x3FF;
                    let pte = m.read_phys(t, i0);
                    let df: usize = (pte >> 10) as usize;
                    if pte & PTE_PRESENT_MASK == PTE_PRESENT_MASK && df < m.frame_count() {
                        Some(m.read_phys(df, iw))
                    } else {
                        None
                    }
                } else {
                    None
                }
            }
        }
    }
}

/// Once a space's token drives translation, a present entry its tables hold
/// is what a load observes: the lookup's target frame is the one read.
pub proof fn lemma_active_lookup_observable(m: Machine, vaddr: usize)
    requires
        satp_mode_on(m),
        wf_space(m, satp_root(m)),
        vaddr < 0x1_0000_0000,
        entry_lookup(m, satp_root(m), vaddr) is Some,
        pte_present(entry_lookup(m, satp_root(m), vaddr).unwrap()),
        (pte_ppn(entry_lookup(m, satp_root(m), vaddr).unwrap()) as int) < m.n_frames(),
    ensures
        read_through_spec(m, vaddr) == Some(
            m.word(
                pte_ppn(entry_lookup(m, satp_root(m), vaddr).unwrap()) as int,
                word_index(vaddr),
            ),
        ),
{
    lemma_vpn_bounds(vaddr);
    let root = satp_root(m);
    let l1 = l1_pte(m, root, vaddr);
    assert(pte_table(l1));
    assert(!pte_leaf(l1));
}

/// After a `map`, looking the address up finds a present entry targeting the
/// frame containing `target`.
pub proof fn lemma_map_gives_present_entry(
    pre: Machine,
    post: Machine,
    root: int,
    vaddr: usize,
    target: usize,
)
    requires
        map_rel(pre, post, root, vaddr, target),
        target < 0x1_0000_0000,
    ensures
        entry_lookup(post, root, vaddr) is Some,
        pte_present(entry_lookup(post, root, vaddr).unwrap()),
        pte_ppn(entry_lookup(post, root, vaddr).unwrap()) as usize == target >> 12,
{
    lemma_addr_ppn(target);
    lemma_mapped_pte((target >> 12) as u32);
}

} // verus!
