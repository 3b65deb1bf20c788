//! Shared memory segments: runs of physical pages that processes map at a
//! fixed virtual address per segment.
use vstd::prelude::*;
use super::IpcError;
use crate::mm::address_space::{PhysicalMemory, map_possible, map_result, walk_in_memory, unmap_result, map_run, can_count, lemma_map_run_prefix};
use crate::mm::physical::{
    PhysicalMemoryManager, PmmModel, AllocError, PAGE_SIZE, div_ceil, manager_view, manager_alloc,
    manager_free, frees_frame, lemma_wf_bound, lemma_effects_alloc,
};
use crate::task::process::{ProcessTable, ProcessControlBlock, MAX_PROCESSES};

verus! {

/// Largest segment, in bytes.
pub const MAX_SHARED_MEMORY_SIZE: usize = 0x10_0000;
/// The most segments ever created.
pub const MAX_SEGMENTS: usize = 64;
/// Virtual address of segment 0; segment `i` lies `i * SEGMENT_STRIDE` above.
pub const SHARED_MEMORY_BASE: u64 = 0x7000_0000_0000;
/// Distance between the virtual addresses of consecutive segments.
pub const SEGMENT_STRIDE: usize = 0x100_0000;
/// Page flags of shared mappings: present and writable.
pub const SHARED_PAGE_FLAGS: u64 = 3;

/// A segment: where its pages start, its size, how many users hold it, its
/// name and whether its pages are still held.
pub struct SharedMemorySegment {
    pub physical_address: usize,
    pub size: usize,
    pub ref_count: usize,
    pub name: Option<String>,
    pub is_allocated: bool,
}

/// Whether slot `s` holds a segment named `name`.
pub open spec fn shm_named(s: Option<SharedMemorySegment>, name: Seq<char>) -> bool {
    s matches Some(x) && x.name matches Some(n) && n@ == name
}

/// Allocating up to `n` pages in a row, stopping at the first failure: the
/// allocator afterwards and the addresses obtained.
pub open spec fn alloc_run(p: Option<PmmModel>, n: nat) -> (Option<PmmModel>, Seq<usize>)
    decreases n,
{
    if n == 0 {
        (p, Seq::empty())
    } else {
        let (p1, got) = alloc_run(p, (n - 1) as nat);
        if got.len() < n - 1 {
            (p1, got)
        } else {
            match manager_alloc(p1) {
                (p2, Ok(a)) => (p2, got.push(a)),
                (p2, Err(_)) => (p2, got),
            }
        }
    }
}

/// Freeing the `k` pages from `base` on, one after another.
pub open spec fn free_run(p: Option<PmmModel>, base: int, k: nat) -> Option<PmmModel>
    decreases k,
{
    if k == 0 {
        p
    } else {
        manager_free(free_run(p, base, (k - 1) as nat), (base + (k - 1) * PAGE_SIZE) as usize).0
    }
}

/// Whether freeing the `k` pages from `base` on can be done: each address fits
/// a machine word, and each free that releases a frame finds one counted.
pub open spec fn free_run_ok(p: Option<PmmModel>, base: int, k: nat) -> bool {
    &&& k > 0 ==> base + (k - 1) * PAGE_SIZE <= usize::MAX
    &&& forall|j: nat| j < k ==> (#[trigger] free_run(p, base, j) matches Some(m)
        ==> (frees_frame(m, (base + j * PAGE_SIZE) as usize) ==> m.2 >= 1))
}

/// Once a run of allocations has failed, longer runs end the same way.
pub proof fn lemma_alloc_run_stops(p: Option<PmmModel>, k: nat, n: nat)
    requires
        k <= n,
        alloc_run(p, k).1.len() < k,
    ensures
        alloc_run(p, n) == alloc_run(p, k),
    decreases n - k,
{
    if k < n {
        lemma_alloc_run_stops(p, k, (n - 1) as nat);
    }
}

/// Unmapping the `n` pages from `va` on: the memory afterwards; `None` when
/// some walk leaves memory or an address does not fit a machine word.
pub open spec fn unmap_run(mem: Seq<u64>, root: u64, va: int, n: nat) -> Option<Seq<u64>>
    decreases n,
{
    if n == 0 {
        Some(mem)
    } else {
        match unmap_run(mem, root, va, (n - 1) as nat) {
            Some(m1) => {
                let v = va + (n - 1) * PAGE_SIZE;
                if v <= usize::MAX && walk_in_memory(m1, root, v as u64) {
                    Some(unmap_result(m1, root, v as u64))
                } else {
                    None
                }
            },
            None => None,
        }
    }
}

/// A run that unmaps `n` pages also unmaps its first `k`.
pub proof fn lemma_unmap_run_prefix(mem: Seq<u64>, root: u64, va: int, k: nat, n: nat)
    requires
        k <= n,
        unmap_run(mem, root, va, n) is Some,
    ensures
        unmap_run(mem, root, va, k) is Some,
    decreases n - k,
{
    if k < n {
        lemma_unmap_run_prefix(mem, root, va, k, (n - 1) as nat);
    }
}

/// Whether creating a segment of `size` bytes can give back its pages when it
/// must: after a failed allocation (unless none was obtained or the first was
/// at address 0), or, when `gives_back`, after all of them.
pub open spec fn create_frees_ok(p: Option<PmmModel>, size: usize, gives_back: bool) -> bool {
    let n = div_ceil(size as int, PAGE_SIZE as int) as nat;
    let (p1, got) = alloc_run(p, n);
    if got.len() < n {
        got.len() > 0 && got[0] != 0 ==> free_run_ok(p1, got[0] as int, got.len())
    } else {
        gives_back ==> free_run_ok(p1, got[0] as int, n)
    }
}

/// Frees the `k` pages from `base` on; what each free returns is dropped.
fn free_pages(pmm: &mut Option<PhysicalMemoryManager>, base: usize, k: usize)
    requires
        *old(pmm) matches Some(m) ==> m.wf(),
        free_run_ok(manager_view(*old(pmm)), base as int, k as nat),
    ensures
        *final(pmm) matches Some(n) ==> n.wf(),
        manager_view(*final(pmm)) == free_run(manager_view(*old(pmm)), base as int, k as nat),
{
    let ghost p0 = manager_view(*pmm);
    let mut j: usize = 0;
    while j < k
        invariant
            j <= k,
            *pmm matches Some(m) ==> m.wf(),
            free_run_ok(p0, base as int, k as nat),
            manager_view(*pmm) == free_run(p0, base as int, j as nat),
        decreases k - j,
    {
        proof {
            assert(free_run(p0, base as int, j as nat) matches Some(m)
                ==> (frees_frame(m, (base + j * PAGE_SIZE) as usize) ==> m.2 >= 1));
            assert(base + j * PAGE_SIZE <= base + (k - 1) * PAGE_SIZE) by (nonlinear_arith)
                requires j < k;
        }
        let _ = crate::mm::physical::free_page(pmm, base + j * PAGE_SIZE);
        j = j + 1;
    }
}

/// The virtual address segment `shm_id` is mapped at.
pub open spec fn segment_address(shm_id: usize) -> u64 {
    (SHARED_MEMORY_BASE + shm_id * SEGMENT_STRIDE) as u64
}

/// Number of pages of a segment of `size` bytes.
pub fn pages_for(size: usize) -> (r: usize)
    ensures
        r == div_ceil(size as int, PAGE_SIZE as int),
{
    size / PAGE_SIZE + if size % PAGE_SIZE != 0 { 1 } else { 0 }
}

/// When a segment can be created.
pub open spec fn create_shared_memory_pre(old: SharedMemoryTable, oldm: Option<PhysicalMemoryManager>, size: usize, name: Option<&str>) -> bool {
    &&& (old.wf())
    &&& (oldm matches Some(m) ==> m.wf())
    &&& (can_count(manager_view(oldm), div_ceil(size as int, PAGE_SIZE as int)))
    &&& (create_frees_ok(manager_view(oldm), size,
        old.next_id() >= MAX_SEGMENTS || (name matches Some(n) && old.has_named(n@))))
}

/// What creating a segment does to the table and the allocator.
pub open spec fn create_shared_memory_post(old: SharedMemoryTable, new: SharedMemoryTable, oldm: Option<PhysicalMemoryManager>, newm: Option<PhysicalMemoryManager>, size: usize, name: Option<&str>, r: Result<usize, IpcError>) -> bool {
    &&& (new.wf())
    &&& (newm matches Some(n) ==> n.wf())
    &&& (size == 0 || size > MAX_SHARED_MEMORY_SIZE ==> {
        &&& r == Err::<usize, IpcError>(IpcError::InvalidArgument)
        &&& new == old
        &&& manager_view(newm) == manager_view(oldm)
    })
    &&& (0 < size <= MAX_SHARED_MEMORY_SIZE ==> {
        let n = div_ceil(size as int, PAGE_SIZE as int) as nat;
        let (p1, got) = alloc_run(manager_view(oldm), n);
        let clash = name matches Some(nm) && old.has_named(nm@);
        if got.len() < n {
            &&& r == Err::<usize, IpcError>(IpcError::ResourceBusy)
            &&& new == old
            &&& manager_view(newm) == if got.len() > 0 && got[0] != 0 { free_run(p1, got[0] as int, got.len()) } else { p1 }
        } else if old.next_id() >= MAX_SEGMENTS {
            &&& r == Err::<usize, IpcError>(IpcError::ResourceBusy)
            &&& new == old
            &&& manager_view(newm) == free_run(p1, got[0] as int, n)
        } else if clash {
            &&& r == Err::<usize, IpcError>(IpcError::ResourceBusy)
            &&& new.next_id() == old.next_id() + 1
            &&& new.slots() == old.slots()
            &&& manager_view(newm) == free_run(p1, got[0] as int, n)
        } else {
            &&& r == Ok::<usize, IpcError>(old.next_id())
            &&& new.next_id() == old.next_id() + 1
            &&& manager_view(newm) == p1
            &&& new.slots().len() == old.slots().len() + 1
            &&& new.slots().drop_last() == old.slots()
            &&& new.slots().last() matches Some(s) && s.physical_address == got[0] && s.size == size
                && s.ref_count == 1 && s.is_allocated
                && match name {
                    Some(nm) => s.name matches Some(sn) && sn@ == nm@,
                    None => s.name is None,
                }
        }
    })
}

/// When a segment can be opened by name.
pub open spec fn open_shared_memory_pre(old: SharedMemoryTable, name: &str) -> bool {
    &&& (old.wf())
    &&& (forall|i: int| 0 <= i < old.slots().len() && shm_named(#[trigger] old.slots()[i], name@)
        ==> old.slots()[i]->0.ref_count < usize::MAX)
}

/// What opening a segment by name does.
pub open spec fn open_shared_memory_post(old: SharedMemoryTable, new: SharedMemoryTable, name: &str, r: Result<usize, IpcError>) -> bool {
    &&& (new.wf())
    &&& (new.next_id() == old.next_id())
    &&& (match r {
        Ok(i) => {
            let s = old.slots()[i as int]->0;
            &&& i < old.slots().len() && shm_named(old.slots()[i as int], name@)
            &&& forall|k: int| 0 <= k < i ==> !shm_named(#[trigger] old.slots()[k], name@)
            &&& new.slots() == old.slots().update(i as int, Some(SharedMemorySegment { ref_count: (s.ref_count + 1) as usize, ..s }))
        },
        Err(e) => e == IpcError::NotFound && !old.has_named(name@) && new.slots() == old.slots(),
    })
}

/// When a segment can be closed.
pub open spec fn close_shared_memory_pre(old: SharedMemoryTable, oldm: Option<PhysicalMemoryManager>, shm_id: usize) -> bool {
    &&& (old.wf())
    &&& (oldm matches Some(m) ==> m.wf())
    &&& (match old.segment(shm_id) {
        Some(s) => s.ref_count <= 1 ==> free_run_ok(
            manager_view(oldm), s.physical_address as int, div_ceil(s.size as int, PAGE_SIZE as int) as nat),
        None => true,
    })
}

/// What closing a segment does to the table and the allocator.
pub open spec fn close_shared_memory_post(old: SharedMemoryTable, new: SharedMemoryTable, oldm: Option<PhysicalMemoryManager>, newm: Option<PhysicalMemoryManager>, shm_id: usize, r: Result<(), IpcError>) -> bool {
    &&& (new.wf())
    &&& (new.next_id() == old.next_id())
    &&& (newm matches Some(n) ==> n.wf())
    &&& (match old.segment(shm_id) {
        Some(s) => {
            &&& r == Ok::<(), IpcError>(())
            &&& if s.ref_count <= 1 {
                &&& new.slots() == old.slots().update(shm_id as int, None)
                &&& manager_view(newm) == free_run(manager_view(oldm), s.physical_address as int,
                    div_ceil(s.size as int, PAGE_SIZE as int) as nat)
            } else {
                &&& new.slots() == old.slots().update(shm_id as int,
                    Some(SharedMemorySegment { ref_count: (s.ref_count - 1) as usize, ..s }))
                &&& manager_view(newm) == manager_view(oldm)
            }
        },
        None => {
            &&& r == Err::<(), IpcError>(IpcError::InvalidArgument)
            &&& new.slots() == old.slots()
            &&& manager_view(newm) == manager_view(oldm)
        },
    })
}

/// When a segment can be mapped into a process.
pub open spec fn map_shared_memory_pre(t: SharedMemoryTable, oldp: ProcessTable, oldm: Option<PhysicalMemoryManager>, oldmem: Seq<u64>, shm_id: usize, process_pid: usize) -> bool {
    &&& (t.wf())
    &&& (oldp.wf())
    &&& (oldm matches Some(m) ==> m.wf() && m@.1 * 512 <= oldmem.len())
    &&& (match t.segment(shm_id) {
        Some(s) => s.is_allocated ==> {
            &&& process_pid < MAX_PROCESSES
            &&& match oldp.slots()[process_pid as int] {
                Some(p) => map_run(p.address_space.root(), oldmem, manager_view(oldm), segment_address(shm_id) as usize,
                    s.physical_address, SHARED_PAGE_FLAGS, div_ceil(s.size as int, PAGE_SIZE as int) as nat) is Some,
                None => true,
            }
        },
        None => true,
    })
}

/// What mapping a segment into a process does.
pub open spec fn map_shared_memory_post(t: SharedMemoryTable, oldp: ProcessTable, newp: ProcessTable, oldm: Option<PhysicalMemoryManager>, newm: Option<PhysicalMemoryManager>, oldmem: Seq<u64>, newmem: Seq<u64>, shm_id: usize, process_pid: usize, r: Result<usize, IpcError>) -> bool {
    &&& (newp.wf())
    &&& (newp.next_pid() == oldp.next_pid())
    &&& (newp.current_pid() == oldp.current_pid())
    &&& (newm matches Some(n) ==> n.wf())
    &&& (match t.segment(shm_id) {
        Some(s) if s.is_allocated && oldp.slots()[process_pid as int] is Some => {
            let p = oldp.slots()[process_pid as int]->0;
            let (root, m, pm) = map_run(p.address_space.root(), oldmem, manager_view(oldm),
                segment_address(shm_id) as usize, s.physical_address, SHARED_PAGE_FLAGS, div_ceil(s.size as int, PAGE_SIZE as int) as nat)->Some_0;
            &&& r == Ok::<usize, IpcError>(segment_address(shm_id) as usize)
            &&& newmem == m
            &&& manager_view(newm) == pm
            &&& newp.slots().len() == oldp.slots().len()
            &&& forall|i: int| 0 <= i < oldp.slots().len() && i != process_pid
                ==> #[trigger] newp.slots()[i] == oldp.slots()[i]
            &&& newp.slots()[process_pid as int] matches Some(q) && q.address_space.root() == root
                && (ProcessControlBlock { address_space: p.address_space, ..q }) == p
        },
        _ => {
            &&& r == Err::<usize, IpcError>(IpcError::InvalidArgument)
            &&& newp.slots() == oldp.slots()
            &&& newmem == oldmem
            &&& manager_view(newm) == manager_view(oldm)
        },
    })
}

/// When a segment can be unmapped from a process.
pub open spec fn unmap_shared_memory_pre(t: SharedMemoryTable, procs: ProcessTable, oldmem: Seq<u64>, shm_id: usize, process_pid: usize, virtual_address: usize) -> bool {
    &&& (t.wf())
    &&& (procs.wf())
    &&& (match t.segment(shm_id) {
        Some(s) => {
            &&& process_pid < MAX_PROCESSES
            &&& match procs.slots()[process_pid as int] {
                Some(p) => unmap_run(oldmem, p.address_space.root(), virtual_address as int,
                    div_ceil(s.size as int, PAGE_SIZE as int) as nat) is Some,
                None => true,
            }
        },
        None => true,
    })
}

/// What unmapping a segment from a process does.
pub open spec fn unmap_shared_memory_post(t: SharedMemoryTable, procs: ProcessTable, oldmem: Seq<u64>, newmem: Seq<u64>, shm_id: usize, process_pid: usize, virtual_address: usize, r: Result<(), IpcError>) -> bool {
    &&& (match t.segment(shm_id) {
        Some(s) if procs.slots()[process_pid as int] is Some => {
            &&& r == Ok::<(), IpcError>(())
            &&& newmem == unmap_run(oldmem, procs.slots()[process_pid as int]->0.address_space.root(),
                virtual_address as int, div_ceil(s.size as int, PAGE_SIZE as int) as nat)->Some_0
        },
        _ => r == Err::<(), IpcError>(IpcError::InvalidArgument) && newmem == oldmem,
    })
}

/// The segments, indexed by slot, and the next id to hand out.
pub struct SharedMemoryTable {
    segments: Vec<Option<SharedMemorySegment>>,
    next_shm_id: usize,
}

impl SharedMemoryTable {
    /// The slots; a released segment leaves `None`.
    pub closed spec fn slots(&self) -> Seq<Option<SharedMemorySegment>> {
        self.segments@
    }

    /// The id the next creation hands out.
    pub closed spec fn next_id(&self) -> usize {
        self.next_shm_id
    }

    /// Slots are only added by a creation that took an id, ids stop at
    /// `MAX_SEGMENTS`, and segment sizes are within the limit.
    pub open spec fn wf(&self) -> bool {
        &&& self.slots().len() <= self.next_id() <= MAX_SEGMENTS
        &&& forall|i: int| 0 <= i < self.slots().len() ==> (#[trigger] self.slots()[i] matches Some(s)
            ==> s.size <= MAX_SHARED_MEMORY_SIZE)
    }

    /// No segment, ids from 0.
    pub fn new() -> (t: Self)
        ensures
            t.wf(),
            t.slots() == Seq::<Option<SharedMemorySegment>>::empty(),
            t.next_id() == 0,
    {
        SharedMemoryTable { segments: Vec::new(), next_shm_id: 0 }
    }

    /// The first slot holding a segment named `name`.
    fn find_named(&self, name: &String) -> (r: Option<usize>)
        ensures
            match r {
                Some(i) => i < self.slots().len() && shm_named(self.slots()[i as int], name@)
                    && forall|k: int| 0 <= k < i ==> !shm_named(#[trigger] self.slots()[k], name@),
                None => forall|k: int| 0 <= k < self.slots().len() ==> !shm_named(#[trigger] self.slots()[k], name@),
            },
    {
        let n = self.segments.len();
        let mut i: usize = 0;
        while i < n
            invariant
                n == self.segments@.len(),
                i <= n,
                forall|k: int| 0 <= k < i ==> !shm_named(#[trigger] self.segments@[k], name@),
            decreases n - i,
        {
            if let Some(seg) = &self.segments[i] {
                if let Some(seg_name) = &seg.name {
                    if *seg_name == *name {
                        return Some(i);
                    }
                }
            }
            i = i + 1;
        }
        None
    }

    /// Whether some slot holds a segment named `name`.
    pub open spec fn has_named(&self, name: Seq<char>) -> bool {
        exists|i: int| 0 <= i < self.slots().len() && shm_named(#[trigger] self.slots()[i], name)
    }

    /// The segment `shm_id` names when the id is in range and its slot is filled.
    pub open spec fn segment(&self, shm_id: usize) -> Option<SharedMemorySegment> {
        if shm_id < self.slots().len() { self.slots()[shm_id as int] } else { None }
    }

    /// The position and size of segment `shm_id`; `InvalidArgument` when it
    /// does not name a segment.
    pub fn get_shared_memory_info(&self, shm_id: usize) -> (r: Result<(usize, usize), IpcError>)
        ensures
            r == match self.segment(shm_id) {
                Some(s) => Ok::<(usize, usize), IpcError>((s.physical_address, s.size)),
                None => Err(IpcError::InvalidArgument),
            },
    {
        if shm_id >= self.segments.len() {
            return Err(IpcError::InvalidArgument);
        }
        match &self.segments[shm_id] {
            Some(s) => Ok((s.physical_address, s.size)),
            None => Err(IpcError::InvalidArgument),
        }
    }

    /// Opens the first segment named `name`, counting one more user;
    /// `NotFound` when no segment carries that name.
    pub fn open_shared_memory(&mut self, name: &str) -> (r: Result<usize, IpcError>)
        requires
            open_shared_memory_pre(*old(self), name),
        ensures
            open_shared_memory_post(*old(self), *final(self), name, r),
    {
        let owned = name.to_owned();
        match self.find_named(&owned) {
            Some(i) => {
                let mut slot: Option<SharedMemorySegment> = None;
                self.segments.set_and_swap(i, &mut slot);
                let mut seg = slot.unwrap();
                seg.ref_count = seg.ref_count + 1;
                let mut back = Some(seg);
                self.segments.set_and_swap(i, &mut back);
                proof {
                    let s = old(self).slots()[i as int]->0;
                    assert(self.segments@ =~= old(self).slots().update(i as int, Some(SharedMemorySegment { ref_count: (s.ref_count + 1) as usize, ..s })));
                }
                Ok(i)
            },
            None => Err(IpcError::NotFound),
        }
    }

    /// Creates a segment of `size` bytes, named or not, on freshly allocated
    /// pages; the segment starts at the first page obtained. A size of 0 or
    /// above `MAX_SHARED_MEMORY_SIZE` is `InvalidArgument`; failing to get the
    /// pages, running out of ids or a name already in use is `ResourceBusy`,
    /// and the pages are given back. The id handed out is the creation count,
    /// which a name clash also advances.
    pub fn create_shared_memory(&mut self, pmm: &mut Option<PhysicalMemoryManager>, size: usize, name: Option<&str>)
        -> (r: Result<usize, IpcError>)
        requires
            create_shared_memory_pre(*old(self), *old(pmm), size, name),
        ensures
            create_shared_memory_post(*old(self), *final(self), *old(pmm), *final(pmm), size, name, r),
    {
        if size == 0 || size > MAX_SHARED_MEMORY_SIZE {
            return Err(IpcError::InvalidArgument);
        }
        let pages = pages_for(size);
        let ghost n = pages as nat;
        let ghost p0 = manager_view(*pmm);
        let ghost mut got: Seq<usize> = Seq::empty();
        let mut physical_address: usize = 0;
        let mut i: usize = 0;
        while i < pages
            invariant
                i <= pages,
                n == pages,
                0 < size <= MAX_SHARED_MEMORY_SIZE,
                pages == div_ceil(size as int, PAGE_SIZE as int),
                *pmm matches Some(m) ==> m.wf(),
                can_count(p0, pages as int),
                p0 == manager_view(*old(pmm)),
                (manager_view(*pmm), got) == alloc_run(p0, i as nat),
                got.len() == i,
                physical_address == if i > 0 { got[0] } else { 0 },
                manager_view(*pmm) matches Some(m) ==> m.2 <= (p0->0).2 + i,
                (*pmm is Some) == (p0 is Some),
                create_frees_ok(p0, size, old(self).next_id() >= MAX_SEGMENTS || (name matches Some(nm) && old(self).has_named(nm@))),
                *self == *old(self),
                self.wf(),
            decreases pages - i,
        {
            let ghost before = manager_view(*pmm);
            proof {
                if *pmm is Some {
                    lemma_wf_bound(pmm->0);
                    lemma_effects_alloc(pmm->0@);
                }
            }
            match crate::mm::physical::allocate_page(pmm) {
                Ok(addr) => {
                    if i == 0 {
                        physical_address = addr;
                    }
                    proof {
                        got = got.push(addr);
                    }
                },
                Err(_) => {
                    proof {
                        assert(alloc_run(p0, (i + 1) as nat) == (manager_view(*pmm), got));
                        lemma_alloc_run_stops(p0, (i + 1) as nat, n);
                    }
                    if physical_address != 0 {
                        free_pages(pmm, physical_address, i);
                    }
                    return Err(IpcError::ResourceBusy);
                },
            }
            i = i + 1;
        }
        let shm_id = self.next_shm_id;
        if shm_id >= MAX_SEGMENTS {
            free_pages(pmm, physical_address, pages);
            return Err(IpcError::ResourceBusy);
        }
        self.next_shm_id = shm_id + 1;
        let owned: Option<String> = match name {
            Some(nm) => {
                let s = nm.to_owned();
                if self.find_named(&s).is_some() {
                    free_pages(pmm, physical_address, pages);
                    return Err(IpcError::ResourceBusy);
                }
                Some(s)
            },
            None => None,
        };
        let ghost before = self.segments@;
        self.segments.push(Some(SharedMemorySegment { physical_address, size, ref_count: 1, name: owned, is_allocated: true }));
        proof {
            assert(self.segments@.drop_last() =~= before);
        }
        Ok(shm_id)
    }

    /// Drops one user of segment `shm_id`; the last user gives its pages back
    /// and empties the slot. `InvalidArgument` when it does not name a segment.
    pub fn close_shared_memory(&mut self, pmm: &mut Option<PhysicalMemoryManager>, shm_id: usize) -> (r: Result<(), IpcError>)
        requires
            close_shared_memory_pre(*old(self), *old(pmm), shm_id),
        ensures
            close_shared_memory_post(*old(self), *final(self), *old(pmm), *final(pmm), shm_id, r),
    {
        if shm_id >= self.segments.len() {
            return Err(IpcError::InvalidArgument);
        }
        let mut slot: Option<SharedMemorySegment> = None;
        self.segments.set_and_swap(shm_id, &mut slot);
        let mut seg = match slot {
            Some(s) => s,
            None => {
                proof { assert(self.segments@ =~= old(self).slots()); }
                return Err(IpcError::InvalidArgument);
            },
        };
        seg.ref_count = seg.ref_count.saturating_sub(1);
        if seg.ref_count == 0 {
            let pages = pages_for(seg.size);
            free_pages(pmm, seg.physical_address, pages);
            seg.is_allocated = false;
            proof { assert(self.segments@ =~= old(self).slots().update(shm_id as int, None)); }
        } else {
            let mut back = Some(seg);
            self.segments.set_and_swap(shm_id, &mut back);
            proof {
                let s = old(self).slots()[shm_id as int]->0;
                assert(self.segments@ =~= old(self).slots().update(shm_id as int,
                    Some(SharedMemorySegment { ref_count: (s.ref_count - 1) as usize, ..s })));
            }
        }
        Ok(())
    }

    /// Maps the pages of segment `shm_id` into the address space of process
    /// `process_pid`, from the segment's virtual address on, present and
    /// writable, and returns that address. `InvalidArgument` when the id does
    /// not name a segment holding its pages, or the process does not exist.
    pub fn map_shared_memory(
        &self,
        procs: &mut ProcessTable,
        pmm: &mut Option<PhysicalMemoryManager>,
        mem: &mut PhysicalMemory,
        shm_id: usize,
        process_pid: usize,
    ) -> (r: Result<usize, IpcError>)
        requires
            map_shared_memory_pre(*self, *old(procs), *old(pmm), old(mem)@, shm_id, process_pid),
        ensures
            map_shared_memory_post(*self, *old(procs), *final(procs), *old(pmm), *final(pmm), old(mem)@, final(mem)@, shm_id, process_pid, r),
    {
        if shm_id >= self.segments.len() {
            return Err(IpcError::InvalidArgument);
        }
        let seg = match &self.segments[shm_id] {
            Some(s) => s,
            None => return Err(IpcError::InvalidArgument),
        };
        if !seg.is_allocated {
            return Err(IpcError::InvalidArgument);
        }
        let root0 = match procs.get_process(process_pid) {
            Some(p) => p.address_space.page_table_root(),
            None => return Err(IpcError::InvalidArgument),
        };
        let virtual_address = SHARED_MEMORY_BASE + (shm_id * SEGMENT_STRIDE) as u64;
        let pages = pages_for(seg.size);
        let ghost p = procs.slots()[process_pid as int]->0;
        let ghost va0 = virtual_address as usize;
        let ghost pa0 = seg.physical_address;
        let ghost mem0 = mem@;
        let ghost pmm0 = manager_view(*pmm);
        let ghost procs0 = procs.slots();
        let mut i: usize = 0;
        while i < pages
            invariant
                i <= pages,
                pages == div_ceil(seg.size as int, PAGE_SIZE as int),
                seg.size <= MAX_SHARED_MEMORY_SIZE,
                process_pid < MAX_PROCESSES,
                va0 == virtual_address as usize,
                pa0 == seg.physical_address,
                procs.wf(),
                procs.next_pid() == old(procs).next_pid(),
                procs.current_pid() == old(procs).current_pid(),
                procs0 == old(procs).slots(),
                procs0[process_pid as int] == Some(p),
                procs.slots().len() == procs0.len(),
                forall|k: int| 0 <= k < procs0.len() && k != process_pid ==> #[trigger] procs.slots()[k] == procs0[k],
                procs.slots()[process_pid as int] matches Some(q)
                    && (ProcessControlBlock { address_space: p.address_space, ..q }) == p
                    && map_run(root0, mem0, pmm0, va0, pa0, SHARED_PAGE_FLAGS, i as nat) == Some((q.address_space.root(), mem@, manager_view(*pmm))),
                root0 == p.address_space.root(),
                map_run(root0, mem0, pmm0, va0, pa0, SHARED_PAGE_FLAGS, pages as nat) is Some,
                *pmm matches Some(m) ==> m.wf() && m@.1 * 512 <= mem@.len(),
            decreases pages - i,
        {
            proof {
                lemma_map_run_prefix(root0, mem0, pmm0, va0, pa0, SHARED_PAGE_FLAGS, (i + 1) as nat, pages as nat);
            }
            let phys_page = seg.physical_address + i * PAGE_SIZE;
            let virt_page = virtual_address as usize + i * PAGE_SIZE;
            procs.map_page(process_pid, pmm, mem, virt_page as u64, phys_page as u64, SHARED_PAGE_FLAGS);
            i = i + 1;
        }
        Ok(virtual_address as usize)
    }

    /// Unmaps the pages of segment `shm_id` from `virtual_address` on in the
    /// address space of process `process_pid`. `InvalidArgument` when the id
    /// does not name a segment or the process does not exist.
    pub fn unmap_shared_memory(
        &self,
        procs: &ProcessTable,
        mem: &mut PhysicalMemory,
        shm_id: usize,
        process_pid: usize,
        virtual_address: usize,
    ) -> (r: Result<(), IpcError>)
        requires
            unmap_shared_memory_pre(*self, *procs, old(mem)@, shm_id, process_pid, virtual_address),
        ensures
            unmap_shared_memory_post(*self, *procs, old(mem)@, final(mem)@, shm_id, process_pid, virtual_address, r),
    {
        if shm_id >= self.segments.len() {
            return Err(IpcError::InvalidArgument);
        }
        let seg = match &self.segments[shm_id] {
            Some(s) => s,
            None => return Err(IpcError::InvalidArgument),
        };
        let space = match procs.get_process(process_pid) {
            Some(p) => p.address_space,
            None => return Err(IpcError::InvalidArgument),
        };
        let pages = pages_for(seg.size);
        let ghost mem0 = mem@;
        let mut i: usize = 0;
        while i < pages
            invariant
                i <= pages,
                pages == div_ceil(seg.size as int, PAGE_SIZE as int),
                unmap_run(mem0, space.root(), virtual_address as int, pages as nat) is Some,
                unmap_run(mem0, space.root(), virtual_address as int, i as nat) == Some(mem@),
            decreases pages - i,
        {
            proof {
                lemma_unmap_run_prefix(mem0, space.root(), virtual_address as int, (i + 1) as nat, pages as nat);
            }
            let virt_page = virtual_address + i * PAGE_SIZE;
            let mut s = space;
            s.unmap(mem, virt_page as u64);
            i = i + 1;
        }
        Ok(())
    }
}

/// A segment created under a name no segment carries is what opening that
/// name finds: the new slot, now with two users.
pub proof fn law_create_then_open(
    t0: SharedMemoryTable, t1: SharedMemoryTable, t2: SharedMemoryTable,
    m0: Option<PhysicalMemoryManager>, m1: Option<PhysicalMemoryManager>,
    size: usize, name: &str, id: usize, r: Result<usize, IpcError>,
)
    requires
        t0.wf(),
        !t0.has_named(name@),
        create_shared_memory_post(t0, t1, m0, m1, size, Some(name), Ok(id)),
        open_shared_memory_post(t1, t2, name, r),
    ensures
        r == Ok::<usize, IpcError>(t0.slots().len() as usize),
        t2.slots()[t0.slots().len() as int] matches Some(s) && s.ref_count == 2 && s.size == size,
{
    let n = t0.slots().len() as int;
    assert(t1.slots()[n] == t1.slots().last());
    assert forall|k: int| 0 <= k < n implies !shm_named(#[trigger] t1.slots()[k], name@) by {
        assert(t1.slots()[k] == t1.slots().drop_last()[k]);
    }
    assert(shm_named(t1.slots()[n], name@));
}

/// Closing undoes opening: a segment in use, opened by name and then closed
/// through the id the open returned, is back as it was, and the allocator is
/// untouched.
pub proof fn law_close_undoes_open(
    t0: SharedMemoryTable, t1: SharedMemoryTable, t2: SharedMemoryTable,
    m1: Option<PhysicalMemoryManager>, m2: Option<PhysicalMemoryManager>,
    name: &str, id: usize, r: Result<(), IpcError>,
)
    requires
        t0.wf(),
        open_shared_memory_pre(t0, name),
        forall|i: int| 0 <= i < t0.slots().len() && shm_named(#[trigger] t0.slots()[i], name@)
            ==> t0.slots()[i]->0.ref_count >= 1,
        open_shared_memory_post(t0, t1, name, Ok(id)),
        close_shared_memory_post(t1, t2, m1, m2, id, r),
    ensures
        r == Ok::<(), IpcError>(()),
        t2.slots() == t0.slots(),
        manager_view(m2) == manager_view(m1),
{
    let s = t0.slots()[id as int]->0;
    assert(shm_named(t0.slots()[id as int], name@));
    assert(t1.segment(id) == Some(SharedMemorySegment { ref_count: (s.ref_count + 1) as usize, ..s }));
    assert(t2.slots() =~= t0.slots());
}

} // verus!
