//! Memory management: physical frames and virtual address spaces.
use vstd::prelude::*;

pub mod address_space;
pub mod physical;

use address_space::{AddressSpace, PhysicalMemory, init_effect, map_run, lemma_map_run_prefix,
    PAGE_FLAG_PRESENT, PAGE_FLAG_WRITABLE, PAGE_FLAG_GLOBAL};
use physical::{PhysicalMemoryManager, manager_view, manager_ready, lemma_wf_bound, lemma_effects_alloc};

verus! {

/// Pages the kernel maps one to one at start-up: the first gibibyte.
pub const IDENTITY_PAGES: usize = 0x4_0000;
/// Flags of the kernel's own mappings: present, writable and global.
pub const KERNEL_PAGE_FLAGS: u64 = 259;

/// Builds the kernel's address space: a root table, then every page of the
/// first gibibyte mapped to itself. Returns the space and the root to load
/// into the paging register, if it has one.
pub fn init(pmm: &mut Option<PhysicalMemoryManager>, mem: &mut PhysicalMemory) -> (r: (AddressSpace, Option<u64>))
    requires
        manager_ready(*old(pmm)),
        *old(pmm) matches Some(m) ==> m@.1 * 512 <= old(mem)@.len(),
        ({
            let (r0, m0, p0) = init_effect(0, old(mem)@, manager_view(*old(pmm)));
            map_run(r0, m0, p0, 0, 0, KERNEL_PAGE_FLAGS, IDENTITY_PAGES as nat) is Some
        }),
    ensures
        *final(pmm) matches Some(n) ==> n.wf(),
        ({
            let (r0, m0, p0) = init_effect(0, old(mem)@, manager_view(*old(pmm)));
            let (root, m, p) = map_run(r0, m0, p0, 0, 0, KERNEL_PAGE_FLAGS, IDENTITY_PAGES as nat)->Some_0;
            &&& r.0.root() == root
            &&& final(mem)@ == m
            &&& manager_view(*final(pmm)) == p
            &&& r.1 == (if root != 0 { Some(root) } else { None::<u64> })
        }),
{
    assert(KERNEL_PAGE_FLAGS == PAGE_FLAG_PRESENT | PAGE_FLAG_WRITABLE | PAGE_FLAG_GLOBAL) by (bit_vector);
    proof {
        if *pmm is Some {
            lemma_wf_bound(pmm->0);
            lemma_effects_alloc(pmm->0@);
        }
    }
    let mut space = AddressSpace::new();
    space.init(pmm, mem);
    let ghost r0 = space.root();
    let ghost m0 = mem@;
    let ghost p0 = manager_view(*pmm);
    let mut i: usize = 0;
    while i < IDENTITY_PAGES
        invariant
            i <= IDENTITY_PAGES,
            map_run(r0, m0, p0, 0, 0, KERNEL_PAGE_FLAGS, IDENTITY_PAGES as nat) is Some,
            map_run(r0, m0, p0, 0, 0, KERNEL_PAGE_FLAGS, i as nat) == Some((space.root(), mem@, manager_view(*pmm))),
            *pmm matches Some(m) ==> m.wf() && m@.1 * 512 <= mem@.len(),
        decreases IDENTITY_PAGES - i,
    {
        proof {
            lemma_map_run_prefix(r0, m0, p0, 0, 0, KERNEL_PAGE_FLAGS, (i + 1) as nat, IDENTITY_PAGES as nat);
        }
        let physical_addr = i * 4096;
        let virtual_addr = physical_addr as u64;
        space.map(pmm, mem, virtual_addr, physical_addr as u64, KERNEL_PAGE_FLAGS);
        i = i + 1;
    }
    let activation = space.activate();
    (space, activation)
}

} // verus!
