//! Virtual address spaces: four-level page tables kept in physical memory.
use vstd::prelude::*;
use super::physical::{PhysicalMemoryManager, PmmModel, AllocError, alloc_effect, manager_ready, manager_view, manager_alloc, lemma_alloc_result, lemma_wf_bound, lemma_effects_alloc, PAGE_SIZE};

verus! {

/// Entry bit: the entry is present.
pub const PAGE_FLAG_PRESENT: u64 = 1;
/// Entry bit: the page is writable.
pub const PAGE_FLAG_WRITABLE: u64 = 2;
/// Entry bit: the page is reachable from user mode.
pub const PAGE_FLAG_USER: u64 = 4;
/// Entry bit: write-through caching.
pub const PAGE_FLAG_PWT: u64 = 8;
/// Entry bit: caching disabled.
pub const PAGE_FLAG_PCD: u64 = 16;
/// Entry bit: the page was accessed.
pub const PAGE_FLAG_ACCESSED: u64 = 32;
/// Entry bit: the page was written.
pub const PAGE_FLAG_DIRTY: u64 = 64;
/// Entry bit: the entry maps a large page.
pub const PAGE_FLAG_PSE: u64 = 128;
/// Entry bit: the mapping is global.
pub const PAGE_FLAG_GLOBAL: u64 = 256;

/// Number of entries in a page table.
pub const ENTRIES_PER_TABLE: usize = 512;

/// `mem` with the page table at address `t` zeroed.
pub open spec fn zeroed(mem: Seq<u64>, t: int) -> Seq<u64> {
    Seq::new(mem.len(), |i: int| if t / 8 <= i < t / 8 + ENTRIES_PER_TABLE { 0u64 } else { mem[i] })
}

/// Physical memory as 64-bit words: the word at address `a` is word `a / 8`.
pub struct PhysicalMemory {
    words: Vec<u64>,
}

/// Whether a page table at `t` lies wholly in memory of `len` words.
pub open spec fn table_in(len: int, t: u64) -> bool {
    t % (PAGE_SIZE as u64) == 0 && (t / 8) as int + ENTRIES_PER_TABLE <= len
}

impl PhysicalMemory {
    /// The words of memory.
    pub closed spec fn view(&self) -> Seq<u64> {
        self.words@
    }

    /// Zeroed memory of `words` words.
    pub fn new(words: usize) -> (m: Self)
        ensures
            m@ == Seq::new(words as nat, |i: int| 0u64),
    {
        let mut v: Vec<u64> = Vec::new();
        let mut i: usize = 0;
        while i < words
            invariant
                i <= words,
                v@ == Seq::new(i as nat, |k: int| 0u64),
            decreases words - i,
        {
            v.push(0);
            i = i + 1;
        }
        PhysicalMemory { words: v }
    }

    /// Number of words.
    pub fn len(&self) -> (r: usize)
        ensures
            r == self@.len(),
    {
        self.words.len()
    }

    /// Entry `index` of the page table at `table`.
    pub fn read_entry(&self, table: u64, index: usize) -> (r: u64)
        requires
            table_in(self@.len() as int, table),
            index < ENTRIES_PER_TABLE,
        ensures
            r == self@[(table / 8) as int + index],
    {
        let n = self.words.len();
        assert((table / 8) as int + index < n);
        let base = (table / 8) as usize;
        self.words[base + index]
    }

    /// Sets entry `index` of the page table at `table`.
    pub fn write_entry(&mut self, table: u64, index: usize, value: u64)
        requires
            table_in(old(self)@.len() as int, table),
            index < ENTRIES_PER_TABLE,
        ensures
            final(self)@ == old(self)@.update((table / 8) as int + index, value),
    {
        let n = self.words.len();
        assert((table / 8) as int + index < n);
        let base = (table / 8) as usize;
        self.words.set(base + index, value);
    }

    /// Zeroes the page table at `table`.
    pub fn zero_table(&mut self, table: u64)
        requires
            table_in(old(self)@.len() as int, table),
        ensures
            final(self)@ == zeroed(old(self)@, table as int),
    {
        let n = self.words.len();
        assert((table / 8) as int + ENTRIES_PER_TABLE <= n);
        let base = (table / 8) as usize;
        let mut k: usize = 0;
        while k < ENTRIES_PER_TABLE
            invariant
                k <= ENTRIES_PER_TABLE,
                base == (table / 8) as int,
                base + ENTRIES_PER_TABLE <= n,
                n == self@.len(),
                self@.len() == old(self)@.len(),
                forall|i: int| 0 <= i < old(self)@.len() ==> #[trigger] self@[i]
                    == if base <= i < base + k { 0u64 } else { old(self)@[i] },
            decreases ENTRIES_PER_TABLE - k,
        {
            self.words.set(base + k, 0);
            k = k + 1;
        }
        assert(self@ =~= zeroed(old(self)@, table as int));
    }
}

/// The table index that `va` selects at `level`: level 0 is the top table.
pub open spec fn va_index(va: u64, level: int) -> int {
    ((va >> ((39 - 9 * level) as u64)) & 0x1FFu64) as int
}

/// The address of the next table named by an entry.
pub open spec fn entry_target(e: u64) -> u64 {
    e & !0xFFFu64
}

/// Whether an entry is present.
pub open spec fn present(e: u64) -> bool {
    e & 1u64 != 0
}

/// The table reached after following `level` entries from `root` for `va`, if
/// every entry on the way is present.
pub open spec fn table_at_level(mem: Seq<u64>, root: u64, va: u64, level: int) -> Option<u64>
    decreases level,
{
    if level <= 0 {
        Some(root)
    } else {
        match table_at_level(mem, root, va, level - 1) {
            Some(t) => {
                let e = mem[(t / 8) as int + va_index(va, level - 1)];
                if present(e) { Some(entry_target(e)) } else { None }
            },
            None => None,
        }
    }
}

/// Once an entry on the walk is absent, no deeper table is reached.
pub proof fn lemma_walk_stops(mem: Seq<u64>, root: u64, va: u64, l: int, m: int)
    requires
        0 <= l <= m,
        table_at_level(mem, root, va, l) is None,
    ensures
        table_at_level(mem, root, va, m) is None,
    decreases m - l,
{
    if l < m {
        lemma_walk_stops(mem, root, va, l, m - 1);
    }
}

/// Every table the walk for `va` visits lies in memory.
pub open spec fn walk_in_memory(mem: Seq<u64>, root: u64, va: u64) -> bool {
    forall|l: int| 0 <= l < 4 ==> (#[trigger] table_at_level(mem, root, va, l) matches Some(t) ==> table_in(mem.len() as int, t))
}

/// The physical address `va` translates to under the tables at `root`: none
/// for a zero root or an absent entry on the way.
pub open spec fn translation(mem: Seq<u64>, root: u64, va: u64) -> Option<u64> {
    if root == 0 {
        None
    } else {
        match table_at_level(mem, root, va, 3) {
            Some(pt) => {
                let e = mem[(pt / 8) as int + va_index(va, 3)];
                if present(e) { Some(entry_target(e) | (va & 0xFFFu64)) } else { None }
            },
            None => None,
        }
    }
}

/// The indices of `va` are table indices.
pub proof fn lemma_va_index(va: u64, level: int)
    requires
        0 <= level < 4,
    ensures
        0 <= va_index(va, level) < ENTRIES_PER_TABLE,
{
    let s = (39 - 9 * level) as u64;
    assert((va >> s) & 0x1FFu64 < 512u64) by (bit_vector);
}

/// The root, memory and allocator after `init`: a fresh zeroed root table, or
/// everything as it was when no page can be had.
pub open spec fn init_effect(root: u64, mem: Seq<u64>, pmm: Option<PmmModel>) -> (u64, Seq<u64>, Option<PmmModel>) {
    match manager_alloc(pmm) {
        (p1, Ok(a)) => (a as u64, zeroed(mem, a as int), p1),
        (p1, Err(_)) => (root, mem, p1),
    }
}

/// One level of `map` from the table at `table`: the memory, the allocator and
/// the next table afterwards. A present entry leads on; an absent one gets a
/// fresh zeroed table linked with `flags`. `None` when the step cannot be
/// taken: the page cannot be had, or the next table lies outside memory.
pub open spec fn map_level(mem: Seq<u64>, pmm: Option<PmmModel>, table: u64, va: u64, flags: u64, level: int)
    -> Option<(Seq<u64>, Option<PmmModel>, u64)>
{
    let idx = (table / 8) as int + va_index(va, level);
    let e = mem[idx];
    if present(e) {
        if table_in(mem.len() as int, entry_target(e)) {
            Some((mem, pmm, entry_target(e)))
        } else {
            None
        }
    } else if pmm matches Some(s) && s.2 >= usize::MAX {
        None
    } else {
        match manager_alloc(pmm) {
            (p1, Ok(a)) => if table_in(mem.len() as int, a as u64) {
                Some((zeroed(mem.update(idx, (a as u64) | flags | 1u64), a as int), p1, a as u64))
            } else {
                None
            },
            (_, Err(_)) => None,
        }
    }
}

/// The levels of `map` from `level` down to the last table: the memory, the
/// allocator and the last-level table afterwards.
pub open spec fn map_walk(mem: Seq<u64>, pmm: Option<PmmModel>, table: u64, va: u64, flags: u64, level: int)
    -> Option<(Seq<u64>, Option<PmmModel>, u64)>
    decreases 3 - level,
{
    if level >= 3 {
        Some((mem, pmm, table))
    } else {
        match map_level(mem, pmm, table, va, flags, level) {
            Some((m1, p1, t1)) => map_walk(m1, p1, t1, va, flags, level + 1),
            None => None,
        }
    }
}

/// The root, memory and allocator `map` starts its walk from: an address space
/// without tables is first given a root table.
pub open spec fn map_start(root: u64, mem: Seq<u64>, pmm: Option<PmmModel>) -> (u64, Seq<u64>, Option<PmmModel>) {
    if root == 0 {
        init_effect(root, mem, pmm)
    } else {
        (root, mem, pmm)
    }
}

/// Whether `map` can complete: the root table lies in memory and every level
/// of the walk can be taken.
pub open spec fn map_possible(root: u64, mem: Seq<u64>, pmm: Option<PmmModel>, va: u64, flags: u64) -> bool {
    let (r0, m0, p0) = map_start(root, mem, pmm);
    table_in(m0.len() as int, r0) && map_walk(m0, p0, r0, va, flags, 0) is Some
}

/// The last-level entry `map` writes.
pub open spec fn leaf_entry(pa: u64, flags: u64) -> u64 {
    (pa & !0xFFFu64) | flags | 1u64
}

/// The root, memory and allocator after `map`, when it can complete.
pub open spec fn map_result(root: u64, mem: Seq<u64>, pmm: Option<PmmModel>, va: u64, pa: u64, flags: u64)
    -> (u64, Seq<u64>, Option<PmmModel>)
{
    let (r0, m0, p0) = map_start(root, mem, pmm);
    let (m3, p3, pt) = map_walk(m0, p0, r0, va, flags, 0)->Some_0;
    (r0, m3.update((pt / 8) as int + va_index(va, 3), leaf_entry(pa, flags)), p3)
}

/// Memory after `unmap`: the last-level entry for `va` cleared when the walk
/// reaches it.
pub open spec fn unmap_result(mem: Seq<u64>, root: u64, va: u64) -> Seq<u64> {
    match (if root == 0 { None } else { table_at_level(mem, root, va, 3) }) {
        Some(pt) => mem.update((pt / 8) as int + va_index(va, 3), 0u64),
        None => mem,
    }
}

/// Whether the allocator state can count `n` more allocations.
pub open spec fn can_count(p: Option<PmmModel>, n: int) -> bool {
    p matches Some(m) ==> m.2 + n < usize::MAX
}

/// Mapping the `n` pages from `pa` on to the pages from `va` on, with `flags`:
/// the root, memory and allocator afterwards; `None` when a page cannot be mapped.
pub open spec fn map_run(root: u64, mem: Seq<u64>, pmm: Option<PmmModel>, va: usize, pa: usize, flags: u64, n: nat)
    -> Option<(u64, Seq<u64>, Option<PmmModel>)>
    decreases n,
{
    if n == 0 {
        Some((root, mem, pmm))
    } else {
        match map_run(root, mem, pmm, va, pa, flags, (n - 1) as nat) {
            Some((r1, m1, p1)) => {
                let v = va + (n - 1) * 4096;
                let a = pa + (n - 1) * 4096;
                if v <= usize::MAX && a <= usize::MAX && (r1 == 0 ==> can_count(p1, 0))
                    && map_possible(r1, m1, p1, v as u64, flags) {
                    Some(map_result(r1, m1, p1, v as u64, a as u64, flags))
                } else {
                    None
                }
            },
            None => None,
        }
    }
}

/// A run that maps `n` pages also maps its first `k`.
pub proof fn lemma_map_run_prefix(root: u64, mem: Seq<u64>, pmm: Option<PmmModel>, va: usize, pa: usize, flags: u64, k: nat, n: nat)
    requires
        k <= n,
        map_run(root, mem, pmm, va, pa, flags, n) is Some,
    ensures
        map_run(root, mem, pmm, va, pa, flags, k) is Some,
    decreases n - k,
{
    if k < n {
        lemma_map_run_prefix(root, mem, pmm, va, pa, flags, k, (n - 1) as nat);
    }
}

/// An address space: the address of its top-level page table, 0 when it has none.
#[derive(Copy, Clone)]
pub struct AddressSpace {
    page_table_root: u64,
}

impl AddressSpace {
    /// The root table's address.
    pub closed spec fn root(&self) -> u64 {
        self.page_table_root
    }

    /// An address space without page tables.
    pub fn new() -> (a: Self)
        ensures
            a.root() == 0,
    {
        AddressSpace { page_table_root: 0 }
    }

    /// The root table's address.
    pub fn page_table_root(&self) -> (r: u64)
        ensures
            r == self.root(),
    {
        self.page_table_root
    }

    /// Sets the root table's address.
    pub fn set_page_table_root(&mut self, root: u64)
        ensures
            final(self).root() == root,
    {
        self.page_table_root = root;
    }

    /// Allocates and zeroes a root table; when no page can be had the address
    /// space and memory are unchanged.
    pub fn init(&mut self, pmm: &mut Option<PhysicalMemoryManager>, mem: &mut PhysicalMemory)
        requires
            manager_ready(*old(pmm)),
            *old(pmm) matches Some(m) ==> m@.1 * 512 <= old(mem)@.len(),
        ensures
            (final(self).root(), final(mem)@, manager_view(*final(pmm)))
                == init_effect(old(self).root(), old(mem)@, manager_view(*old(pmm))),
            *final(pmm) matches Some(n) ==> n.wf(),
    {
        let ghost m0 = *pmm;
        proof {
            if m0 is Some {
                lemma_wf_bound(m0->0);
                lemma_alloc_result(m0->0@);
            }
        }
        match super::physical::allocate_page(pmm) {
            Ok(pml4_addr) => {
                proof {
                    assert((pml4_addr / 8) as int + 512 <= mem@.len()) by (nonlinear_arith)
                        requires
                            pml4_addr % 4096 == 0,
                            pml4_addr / 4096 < m0->0@.1,
                            m0->0@.1 * 512 <= mem@.len(),
                    ;
                }
                self.page_table_root = pml4_addr as u64;
                mem.zero_table(pml4_addr as u64);
            },
            Err(_) => {},
        }
    }

    /// The physical address `va` maps to.
    pub fn translate(&self, mem: &PhysicalMemory, virtual_addr: u64) -> (r: Option<u64>)
        requires
            walk_in_memory(mem@, self.root(), virtual_addr),
        ensures
            r == translation(mem@, self.root(), virtual_addr),
    {
        if self.page_table_root == 0 {
            return None;
        }
        let mut table = self.page_table_root;
        let mut level: usize = 0;
        while level < 4
            invariant
                level <= 3,
                walk_in_memory(mem@, self.root(), virtual_addr),
                self.root() != 0,
                table_at_level(mem@, self.root(), virtual_addr, level as int) == Some(table),
            decreases 4 - level,
        {
            proof {
                lemma_va_index(virtual_addr, level as int);
                assert(table_at_level(mem@, self.root(), virtual_addr, level as int) matches Some(t) ==> table_in(mem@.len() as int, t));
            }
            let index = ((virtual_addr >> (39 - 9 * level) as u64) & 0x1FF) as usize;
            let entry = mem.read_entry(table, index);
            if level == 3 {
                if (entry & 1) == 0 {
                    return None;
                }
                return Some((entry & !0xFFF) | (virtual_addr & 0xFFF));
            }
            if (entry & 1) == 0 {
                proof {
                    lemma_walk_stops(mem@, self.root(), virtual_addr, level as int + 1, 3);
                }
                return None;
            }
            table = entry & !0xFFF;
            level = level + 1;
        }
        None
    }

    /// Maps the page of `virtual_addr` to the frame of `physical_addr` with
    /// `flags`, creating the missing tables on the way (and a root table first
    /// when there is none).
    pub fn map(&mut self, pmm: &mut Option<PhysicalMemoryManager>, mem: &mut PhysicalMemory, virtual_addr: u64, physical_addr: u64, flags: u64)
        requires
            *old(pmm) matches Some(m) ==> m.wf() && m@.1 * 512 <= old(mem)@.len(),
            old(self).root() == 0 ==> manager_ready(*old(pmm)),
            map_possible(old(self).root(), old(mem)@, manager_view(*old(pmm)), virtual_addr, flags),
        ensures
            (final(self).root(), final(mem)@, manager_view(*final(pmm)))
                == map_result(old(self).root(), old(mem)@, manager_view(*old(pmm)), virtual_addr, physical_addr, flags),
            *final(pmm) matches Some(n) ==> n.wf() && (*old(pmm) matches Some(o) && n@.1 == o@.1),
            final(mem)@.len() == old(mem)@.len(),
    {
        proof {
            if *pmm is Some {
                lemma_wf_bound(pmm->0);
                lemma_effects_alloc(pmm->0@);
            }
        }
        let ghost total: nat = match manager_view(*pmm) { Some(m) => m.1, None => 0 };
        if self.page_table_root == 0 {
            self.init(pmm, mem);
        }
        let ghost target = map_walk(mem@, manager_view(*pmm), self.root(), virtual_addr, flags, 0);
        let mut table = self.page_table_root;
        let mut level: usize = 0;
        while level < 3
            invariant
                level <= 3,
                table_in(mem@.len() as int, table),
                *pmm matches Some(m) ==> m.wf() && m@.1 == total && total * 512 <= mem@.len(),
                (*pmm is Some) == (*old(pmm) is Some),
                old(pmm)->0@.1 == total || *old(pmm) is None,
                mem@.len() == old(mem)@.len(),
                map_walk(mem@, manager_view(*pmm), table, virtual_addr, flags, level as int) == target,
                target is Some,
            decreases 3 - level,
        {
            proof {
                lemma_va_index(virtual_addr, level as int);
            }
            let index = ((virtual_addr >> (39 - 9 * level) as u64) & 0x1FF) as usize;
            let entry = mem.read_entry(table, index);
            if (entry & 1) != 0 {
                table = entry & !0xFFF;
            } else {
                let ghost m0 = *pmm;
                proof {
                    if m0 is Some {
                        lemma_wf_bound(m0->0);
                        lemma_alloc_result(m0->0@);
                        lemma_effects_alloc(m0->0@);
                    }
                }
                match super::physical::allocate_page(pmm) {
                    Ok(addr) => {
                        proof {
                            assert((addr / 8) as int + 512 <= mem@.len()) by (nonlinear_arith)
                                requires
                                    addr % 4096 == 0,
                                    addr / 4096 < m0->0@.1,
                                    m0->0@.1 * 512 <= mem@.len(),
                            ;
                        }
                        mem.write_entry(table, index, (addr as u64) | flags | 1);
                        mem.zero_table(addr as u64);
                        table = addr as u64;
                    },
                    Err(_) => {
                        proof {
                            assert(false);
                        }
                        return;
                    },
                }
            }
            level = level + 1;
        }
        proof {
            lemma_va_index(virtual_addr, 3);
        }
        let index = ((virtual_addr >> 12u64) & 0x1FF) as usize;
        mem.write_entry(table, index, (physical_addr & !0xFFF) | flags | 1);
    }

    /// Clears the last-level entry for `va` when the walk reaches it.
    pub fn unmap(&mut self, mem: &mut PhysicalMemory, virtual_addr: u64)
        requires
            walk_in_memory(old(mem)@, old(self).root(), virtual_addr),
        ensures
            *final(self) == *old(self),
            final(mem)@ == unmap_result(old(mem)@, old(self).root(), virtual_addr),
    {
        if self.page_table_root == 0 {
            return;
        }
        let mut table = self.page_table_root;
        let mut level: usize = 0;
        while level < 3
            invariant
                level <= 3,
                walk_in_memory(mem@, self.root(), virtual_addr),
                mem@ == old(mem)@,
                *self == *old(self),
                self.root() != 0,
                table_at_level(mem@, self.root(), virtual_addr, level as int) == Some(table),
            decreases 3 - level,
        {
            proof {
                lemma_va_index(virtual_addr, level as int);
                assert(table_at_level(mem@, self.root(), virtual_addr, level as int) matches Some(t) ==> table_in(mem@.len() as int, t));
            }
            let index = ((virtual_addr >> (39 - 9 * level) as u64) & 0x1FF) as usize;
            let entry = mem.read_entry(table, index);
            if (entry & 1) == 0 {
                proof {
                    lemma_walk_stops(mem@, self.root(), virtual_addr, level as int + 1, 3);
                }
                return;
            }
            table = entry & !0xFFF;
            level = level + 1;
        }
        proof {
            lemma_va_index(virtual_addr, 3);
            assert(table_at_level(mem@, self.root(), virtual_addr, 3) matches Some(t) ==> table_in(mem@.len() as int, t));
        }
        let index = ((virtual_addr >> 12u64) & 0x1FF) as usize;
        mem.write_entry(table, index, 0);
    }

    /// The root to load into the paging register, when there is one.
    pub fn activate(&self) -> (r: Option<u64>)
        ensures
            r == (if self.root() != 0 { Some(self.root()) } else { None }),
    {
        if self.page_table_root != 0 {
            Some(self.page_table_root)
        } else {
            None
        }
    }
}

/// Clearing one word of memory either leaves the walk for `va` unchanged up to
/// `level` or cuts it short there.
proof fn lemma_walk_after_clear(mem: Seq<u64>, root: u64, va: u64, idx: int, level: int)
    requires
        walk_in_memory(mem, root, va),
        0 <= idx < mem.len(),
        0 <= level <= 3,
    ensures
        table_at_level(mem.update(idx, 0u64), root, va, level) is None
            || table_at_level(mem.update(idx, 0u64), root, va, level) == table_at_level(mem, root, va, level),
    decreases level,
{
    if level > 0 {
        lemma_walk_after_clear(mem, root, va, idx, level - 1);
        let after = mem.update(idx, 0u64);
        if let Some(t) = table_at_level(after, root, va, level - 1) {
            assert(table_at_level(mem, root, va, level - 1) == Some(t));
            assert(table_in(mem.len() as int, t));
            lemma_va_index(va, level - 1);
            let j = (t / 8) as int + va_index(va, level - 1);
            if j == idx {
                assert(!present(0u64)) by (bit_vector);
            } else {
                assert(after[j] == mem[j]);
            }
        }
    }
}

/// After `unmap`, `va` translates to nothing.
pub proof fn lemma_unmap_translation(mem: Seq<u64>, root: u64, va: u64)
    requires
        walk_in_memory(mem, root, va),
    ensures
        translation(unmap_result(mem, root, va), root, va) is None,
{
    if root != 0 {
        if let Some(pt) = table_at_level(mem, root, va, 3) {
            assert(table_in(mem.len() as int, pt));
            lemma_va_index(va, 3);
            let idx = (pt / 8) as int + va_index(va, 3);
            lemma_walk_after_clear(mem, root, va, idx, 3);
            assert(!present(0u64)) by (bit_vector);
        }
    }
}

/// Whether the walk for `v` reads word `i`: the entry it looks up at some level.
pub open spec fn walk_reads(mem: Seq<u64>, root: u64, v: u64, i: int) -> bool {
    exists|l: int| 0 <= l < 4 && (#[trigger] table_at_level(mem, root, v, l)) is Some
        && i == table_at_level(mem, root, v, l)->0 / 8 + va_index(v, l)
}

/// Whether the tables from `root` form a tree: a table that two walks reach
/// is reached at the same level along the same indices.
pub open spec fn tree_shaped(mem: Seq<u64>, root: u64) -> bool {
    forall|v: u64, w: u64, l: int, k: int|
        #![trigger table_at_level(mem, root, v, l), table_at_level(mem, root, w, k)]
        0 <= l < 4 && 0 <= k < 4 && table_at_level(mem, root, v, l) is Some
            && table_at_level(mem, root, v, l) == table_at_level(mem, root, w, k)
        ==> l == k && forall|n: int| 0 <= n < l ==> #[trigger] va_index(v, n) == va_index(w, n)
}

/// Changing a word that the walk for `v` does not read leaves that walk, and
/// what `v` translates to, as they were.
pub proof fn lemma_walk_frame(mem: Seq<u64>, root: u64, v: u64, i: int, x: u64, level: int)
    requires
        !walk_reads(mem, root, v, i),
        walk_in_memory(mem, root, v),
        0 <= i < mem.len(),
        0 <= level <= 4,
    ensures
        table_at_level(mem.update(i, x), root, v, level) == table_at_level(mem, root, v, level),
        level == 4 ==> translation(mem.update(i, x), root, v) == translation(mem, root, v),
    decreases level,
{
    if level > 0 {
        lemma_walk_frame(mem, root, v, i, x, level - 1);
        if let Some(t) = table_at_level(mem, root, v, level - 1) {
            if level - 1 < 4 {
                assert(table_in(mem.len() as int, t));
                lemma_va_index(v, level - 1);
            }
            let j = t / 8 + va_index(v, level - 1);
            if j == i {
                assert(walk_reads(mem, root, v, i));
            }
        }
    }
    if level == 4 {
        lemma_walk_frame(mem, root, v, i, x, 3);
        if let Some(pt) = table_at_level(mem, root, v, 3) {
            assert(table_in(mem.len() as int, pt));
            lemma_va_index(v, 3);
            let j = pt / 8 + va_index(v, 3);
            if j == i {
                assert(walk_reads(mem, root, v, i));
            }
        }
    }
}

/// Two addresses below 2^48 whose four table indices agree lie in the same page.
proof fn lemma_same_indices_same_page(v: u64, w: u64)
    requires
        v < 0x1_0000_0000_0000,
        w < 0x1_0000_0000_0000,
        va_index(v, 0) == va_index(w, 0),
        va_index(v, 1) == va_index(w, 1),
        va_index(v, 2) == va_index(w, 2),
        va_index(v, 3) == va_index(w, 3),
    ensures
        v >> 12u64 == w >> 12u64,
{
    assert(va_index(v, 0) == ((v >> 39u64) & 0x1FFu64) as int);
    assert(va_index(v, 1) == ((v >> 30u64) & 0x1FFu64) as int);
    assert(va_index(v, 2) == ((v >> 21u64) & 0x1FFu64) as int);
    assert(va_index(v, 3) == ((v >> 12u64) & 0x1FFu64) as int);
    assert(va_index(w, 0) == ((w >> 39u64) & 0x1FFu64) as int);
    assert(va_index(w, 1) == ((w >> 30u64) & 0x1FFu64) as int);
    assert(va_index(w, 2) == ((w >> 21u64) & 0x1FFu64) as int);
    assert(va_index(w, 3) == ((w >> 12u64) & 0x1FFu64) as int);
    assert(v >> 12u64 == w >> 12u64) by (bit_vector)
        requires
            v < 0x1_0000_0000_0000u64,
            w < 0x1_0000_0000_0000u64,
            (v >> 39u64) & 0x1FFu64 == (w >> 39u64) & 0x1FFu64,
            (v >> 30u64) & 0x1FFu64 == (w >> 30u64) & 0x1FFu64,
            (v >> 21u64) & 0x1FFu64 == (w >> 21u64) & 0x1FFu64,
            (v >> 12u64) & 0x1FFu64 == (w >> 12u64) & 0x1FFu64;
}

/// Unmapping a page leaves every other page as it was: with tables that form
/// a tree, after `unmap` of `va` every address `w` below 2^48 in another page
/// translates as before.
pub proof fn law_unmap_keeps_other_pages(mem: Seq<u64>, root: u64, va: u64, w: u64)
    requires
        walk_in_memory(mem, root, va),
        walk_in_memory(mem, root, w),
        tree_shaped(mem, root),
        va < 0x1_0000_0000_0000,
        w < 0x1_0000_0000_0000,
        va >> 12u64 != w >> 12u64,
    ensures
        translation(unmap_result(mem, root, va), root, w) == translation(mem, root, w),
{
    if root != 0 {
        if let Some(pt) = table_at_level(mem, root, va, 3) {
            assert(table_in(mem.len() as int, pt));
            lemma_va_index(va, 3);
            let idx = pt / 8 + va_index(va, 3);
            assert(in_table(idx, pt));
            assert(!walk_reads(mem, root, w, idx)) by {
                if walk_reads(mem, root, w, idx) {
                    let l = choose|l: int| 0 <= l < 4 && (#[trigger] table_at_level(mem, root, w, l)) is Some
                        && idx == table_at_level(mem, root, w, l)->0 / 8 + va_index(w, l);
                    let t = table_at_level(mem, root, w, l)->0;
                    assert(table_in(mem.len() as int, t));
                    lemma_va_index(w, l);
                    assert(in_table(idx, t));
                    if t != pt {
                        lemma_tables_disjoint(pt, t, idx);
                    }
                    assert(table_at_level(mem, root, va, 3) == table_at_level(mem, root, w, l));
                    assert(l == 3);
                    assert(va_index(va, 0) == va_index(w, 0));
                    assert(va_index(va, 1) == va_index(w, 1));
                    assert(va_index(va, 2) == va_index(w, 2));
                    lemma_same_indices_same_page(va, w);
                }
            }
            lemma_walk_frame(mem, root, w, idx, 0u64, 4);
        }
    }
}

/// The tables `map` passes through from `level` on, the last-level one last.
pub open spec fn map_tables(mem: Seq<u64>, pmm: Option<PmmModel>, table: u64, va: u64, flags: u64, level: int) -> Seq<u64>
    decreases 3 - level,
{
    if level >= 3 {
        seq![table]
    } else {
        match map_level(mem, pmm, table, va, flags, level) {
            Some((m1, p1, t1)) => seq![table] + map_tables(m1, p1, t1, va, flags, level + 1),
            None => seq![table],
        }
    }
}

/// No table occurs twice in `ts`.
pub open spec fn distinct_tables(ts: Seq<u64>) -> bool {
    forall|i: int, j: int| 0 <= i < j < ts.len() ==> ts[i] != ts[j]
}

/// Word `i` lies in the table at `t`.
pub open spec fn in_table(i: int, t: u64) -> bool {
    t / 8 <= i < t / 8 + ENTRIES_PER_TABLE
}

/// Word `i` is one that the walk over tables `ts` from `level` on may write:
/// a word of a table after the first, or an entry it follows.
pub open spec fn touched(ts: Seq<u64>, va: u64, level: int, i: int) -> bool {
    ||| exists|k: int| 1 <= k < ts.len() && #[trigger] in_table(i, ts[k])
    ||| exists|k: int| 0 <= k < ts.len() - 1 && i == (#[trigger] ts[k]) / 8 + va_index(va, level + k)
}

/// Distinct page-aligned tables occupy disjoint words.
proof fn lemma_tables_disjoint(t: u64, u: u64, i: int)
    requires
        t % 4096 == 0,
        u % 4096 == 0,
        t != u,
        in_table(i, t),
    ensures
        !in_table(i, u),
{
    assert(t / 8 + 512 <= u / 8 || u / 8 + 512 <= t / 8) by (nonlinear_arith)
        requires t % 4096 == 0, u % 4096 == 0, t != u;
}

/// An entry linking a page-aligned table with small flags is present and leads to it.
proof fn lemma_link_entry(a: u64, flags: u64)
    requires
        a % 4096 == 0,
        flags < 4096,
    ensures
        present(a | flags | 1u64),
        entry_target(a | flags | 1u64) == a,
{
    assert(((a | flags | 1u64) & 1u64) != 0u64 && ((a | flags | 1u64) & !0xFFFu64) == a) by (bit_vector)
        requires a % 4096 == 0, flags < 4096;
}

/// After the walk of `map` from `level`, each table it passed through holds a
/// present entry for `va` leading to the next, and every word the walk does
/// not touch is as it was, when the tables are distinct and flags small.
proof fn lemma_map_walk_links(mem: Seq<u64>, pmm: Option<PmmModel>, table: u64, va: u64, flags: u64, level: int)
    requires
        0 <= level <= 3,
        flags < 4096,
        table_in(mem.len() as int, table),
        map_walk(mem, pmm, table, va, flags, level) is Some,
        distinct_tables(map_tables(mem, pmm, table, va, flags, level)),
    ensures
        ({
            let (m3, p3, pt) = map_walk(mem, pmm, table, va, flags, level)->Some_0;
            let ts = map_tables(mem, pmm, table, va, flags, level);
            &&& ts.len() == 4 - level
            &&& ts[0] == table
            &&& ts.last() == pt
            &&& m3.len() == mem.len()
            &&& forall|k: int| 0 <= k < ts.len() ==> table_in(mem.len() as int, #[trigger] ts[k])
            &&& forall|k: int| 0 <= k < ts.len() - 1 ==> present(#[trigger] m3[ts[k] / 8 + va_index(va, level + k)])
                && entry_target(m3[ts[k] / 8 + va_index(va, level + k)]) == ts[k + 1]
            &&& forall|i: int| 0 <= i < mem.len() && !touched(ts, va, level, i) ==> #[trigger] m3[i] == mem[i]
        }),
    decreases 3 - level,
{
    let ts = map_tables(mem, pmm, table, va, flags, level);
    if level >= 3 {
        assert(ts =~= seq![table]);
        assert forall|i: int| 0 <= i < mem.len() && !touched(ts, va, level, i) implies #[trigger] mem[i] == mem[i] by {}
    } else {
        lemma_va_index(va, level);
        let idx = (table / 8) as int + va_index(va, level);
        let (m1, p1, t1) = map_level(mem, pmm, table, va, flags, level)->Some_0;
        let rest = map_tables(m1, p1, t1, va, flags, level + 1);
        assert(ts =~= seq![table] + rest);
        assert(distinct_tables(rest)) by {
            assert forall|i: int, j: int| 0 <= i < j < rest.len() implies rest[i] != rest[j] by {
                assert(rest[i] == ts[i + 1] && rest[j] == ts[j + 1]);
            }
        }
        assert(m1.len() == mem.len());
        lemma_map_walk_links(m1, p1, t1, va, flags, level + 1);
        let (m3, p3, pt) = map_walk(mem, pmm, table, va, flags, level)->Some_0;
        assert(map_walk(m1, p1, t1, va, flags, level + 1)->Some_0 == (m3, p3, pt));
        // The entry this level follows is not touched further on.
        assert(in_table(idx, table));
        assert forall|k: int| 1 <= k < ts.len() implies #[trigger] ts[k] != table by {
            assert(ts[0] == table);
            assert(ts[0] != ts[k]);
        }
        assert(!touched(rest, va, level + 1, idx)) by {
            assert forall|k: int| 0 <= k < rest.len() implies !#[trigger] in_table(idx, rest[k]) by {
                assert(rest[k] == ts[k + 1]);
                lemma_tables_disjoint(table, rest[k], idx);
            }
            assert forall|k: int| 0 <= k < rest.len() - 1 implies idx != (#[trigger] rest[k]) / 8 + va_index(va, level + 1 + k) by {
                lemma_va_index(va, level + 1 + k);
                assert(in_table(rest[k] / 8 + va_index(va, level + 1 + k) as int, rest[k]));
                assert(rest[k] == ts[k + 1]);
                lemma_tables_disjoint(rest[k], table, rest[k] / 8 + va_index(va, level + 1 + k));
            }
        }
        if present(mem[idx]) {
            assert(m1 == mem && t1 == entry_target(mem[idx]));
        } else {
            let a = t1;
            lemma_link_entry(a, flags);
            assert(!in_table(idx, a)) by {
                assert(a == ts[1]);
                lemma_tables_disjoint(table, a, idx);
            }
            assert(m1[idx] == a | flags | 1u64);
        }
        assert forall|k: int| 0 <= k < ts.len() - 1 implies present(#[trigger] m3[ts[k] / 8 + va_index(va, level + k)])
            && entry_target(m3[ts[k] / 8 + va_index(va, level + k)]) == ts[k + 1] by {
            if k == 0 {
                assert(m3[idx] == m1[idx]);
            } else {
                assert(ts[k] == rest[k - 1] && ts[k + 1] == rest[k]);
                assert(level + k == (level + 1) + (k - 1));
            }
        }
        assert forall|k: int| 0 <= k < ts.len() implies table_in(mem.len() as int, #[trigger] ts[k]) by {
            if k > 0 {
                assert(ts[k] == rest[k - 1]);
            }
        }
        assert forall|i: int| 0 <= i < mem.len() && !touched(ts, va, level, i) implies #[trigger] m3[i] == mem[i] by {
            assert(!touched(rest, va, level + 1, i)) by {
                if exists|k: int| 1 <= k < rest.len() && #[trigger] in_table(i, rest[k]) {
                    let k = choose|k: int| 1 <= k < rest.len() && #[trigger] in_table(i, rest[k]);
                    assert(in_table(i, ts[k + 1]));
                }
                if exists|k: int| 0 <= k < rest.len() - 1 && i == (#[trigger] rest[k]) / 8 + va_index(va, level + 1 + k) {
                    let k = choose|k: int| 0 <= k < rest.len() - 1 && i == (#[trigger] rest[k]) / 8 + va_index(va, level + 1 + k);
                    assert(ts[k + 1] == rest[k]);
                    assert(i == ts[k + 1] / 8 + va_index(va, level + (k + 1)));
                }
            }
            assert(m3[i] == m1[i]);
            if !present(mem[idx]) {
                assert(!in_table(i, ts[1]));
                assert(i != ts[0] / 8 + va_index(va, level + 0));
            }
        }
    }
}

/// A leaf entry for `pa` with small flags is present and translates to
/// `pa`'s frame at any offset.
proof fn lemma_leaf_entry(pa: u64, flags: u64, va: u64)
    requires
        flags < 4096,
    ensures
        present(leaf_entry(pa, flags)),
        entry_target(leaf_entry(pa, flags)) | (va & 0xFFFu64) == (pa & !0xFFFu64) | (va & 0xFFFu64),
{
    assert((((pa & !0xFFFu64) | flags | 1u64) & 1u64) != 0u64
        && (((pa & !0xFFFu64) | flags | 1u64) & !0xFFFu64) | (va & 0xFFFu64) == (pa & !0xFFFu64) | (va & 0xFFFu64))
        by (bit_vector)
        requires flags < 4096;
}

/// What `map` writes, `translate` reads back: after mapping `va` to `pa` with
/// flags below 4096, `va` translates to `pa`'s frame at `va`'s offset, and the
/// walk stays in memory. This holds when the address space ends up with a
/// root table and the tables the walk passes through are distinct.
pub proof fn law_map_then_translate(root: u64, mem: Seq<u64>, pmm: Option<PmmModel>, va: u64, pa: u64, flags: u64)
    requires
        flags < 4096,
        map_possible(root, mem, pmm, va, flags),
        ({
            let (r0, m0, p0) = map_start(root, mem, pmm);
            r0 != 0 && distinct_tables(map_tables(m0, p0, r0, va, flags, 0))
        }),
    ensures
        ({
            let (r, m, p) = map_result(root, mem, pmm, va, pa, flags);
            &&& walk_in_memory(m, r, va)
            &&& translation(m, r, va) == Some((pa & !0xFFFu64) | (va & 0xFFFu64))
        }),
{
    let (r0, m0, p0) = map_start(root, mem, pmm);
    lemma_map_walk_links(m0, p0, r0, va, flags, 0);
    let ts = map_tables(m0, p0, r0, va, flags, 0);
    let (m3, p3, pt) = map_walk(m0, p0, r0, va, flags, 0)->Some_0;
    lemma_va_index(va, 3);
    let a3 = (pt / 8) as int + va_index(va, 3);
    let m = m3.update(a3, leaf_entry(pa, flags));
    assert(in_table(a3, ts[3]));
    assert forall|k: int| 0 <= k < 3 implies #[trigger] m[ts[k] / 8 + va_index(va, k)] == m3[ts[k] / 8 + va_index(va, k)] by {
        lemma_va_index(va, k);
        assert(ts[k] != ts[3]);
        assert(in_table(ts[k] / 8 + va_index(va, k), ts[k]));
        lemma_tables_disjoint(ts[k], ts[3], ts[k] / 8 + va_index(va, k));
    }
    assert forall|k: int| 0 <= k < 3 implies present(#[trigger] m3[ts[k] / 8 + va_index(va, k)])
        && entry_target(m3[ts[k] / 8 + va_index(va, k)]) == ts[k + 1] by {
        assert(0 + k == k);
        assert(present(m3[ts[k] / 8 + va_index(va, 0 + k)]));
    }
    assert(m[ts[0] / 8 + va_index(va, 0)] == m3[ts[0] / 8 + va_index(va, 0)]);
    assert(m[ts[1] / 8 + va_index(va, 1)] == m3[ts[1] / 8 + va_index(va, 1)]);
    assert(m[ts[2] / 8 + va_index(va, 2)] == m3[ts[2] / 8 + va_index(va, 2)]);
    assert(table_at_level(m, r0, va, 0) == Some(ts[0]));
    assert(table_at_level(m, r0, va, 1) == Some(ts[1]));
    assert(table_at_level(m, r0, va, 2) == Some(ts[2]));
    assert(table_at_level(m, r0, va, 3) == Some(ts[3]));
    assert(table_in(m.len() as int, ts[0]) && table_in(m.len() as int, ts[1])
        && table_in(m.len() as int, ts[2]) && table_in(m.len() as int, ts[3]));
    assert forall|l: int| 0 <= l < 4 implies (#[trigger] table_at_level(m, r0, va, l) matches Some(t) ==> table_in(m.len() as int, t)) by {
        if l == 0 {} else if l == 1 {} else if l == 2 {} else {}
    }
    lemma_leaf_entry(pa, flags, va);
    assert(m[a3] == leaf_entry(pa, flags));
}

/// The table reached from the table at `t`, taken to sit at `level`, after
/// following the entries for `v` down to level `l`.
pub open spec fn sub_table(mem: Seq<u64>, t: u64, v: u64, level: int, l: int) -> Option<u64>
    decreases l - level,
{
    if l <= level {
        Some(t)
    } else {
        match sub_table(mem, t, v, level, l - 1) {
            Some(u) => {
                let e = mem[(u / 8) as int + va_index(v, l - 1)];
                if present(e) { Some(entry_target(e)) } else { None }
            },
            None => None,
        }
    }
}

/// What `v` translates to when its walk starts at the table at `t` on `level`.
pub open spec fn sub_translation(mem: Seq<u64>, t: u64, v: u64, level: int) -> Option<u64>
    decreases 3 - level,
{
    let e = mem[(t / 8) as int + va_index(v, if level >= 3 { 3 } else { level })];
    if !present(e) {
        None
    } else if level >= 3 {
        Some(entry_target(e) | (v & 0xFFFu64))
    } else {
        sub_translation(mem, entry_target(e), v, level + 1)
    }
}

/// From the root, the walk of `sub_table` is that of `table_at_level`.
proof fn lemma_sub_table_root(mem: Seq<u64>, root: u64, v: u64, l: int)
    requires
        0 <= l,
    ensures
        sub_table(mem, root, v, 0, l) == table_at_level(mem, root, v, l),
    decreases l,
{
    if l > 0 {
        lemma_sub_table_root(mem, root, v, l - 1);
    }
}

/// A walk that reaches level `l` finishes as `sub_translation` from there.
proof fn lemma_translation_from_level(mem: Seq<u64>, root: u64, v: u64, l: int)
    requires
        root != 0,
        0 <= l <= 3,
    ensures
        table_at_level(mem, root, v, l) matches Some(t) ==> sub_translation(mem, t, v, l) == translation(mem, root, v),
        table_at_level(mem, root, v, l) is None ==> translation(mem, root, v) is None,
    decreases 3 - l,
{
    if l < 3 {
        lemma_translation_from_level(mem, root, v, l + 1);
    }
}

/// Past a present entry for `v`, walking on from the table it names is the
/// same walk one level further down.
proof fn lemma_sub_table_step(mem: Seq<u64>, t: u64, v: u64, level: int, l: int)
    requires
        level < l,
        present(mem[(t / 8) as int + va_index(v, level)]),
    ensures
        sub_table(mem, t, v, level, l) == sub_table(mem, entry_target(mem[(t / 8) as int + va_index(v, level)]), v, level + 1, l),
    decreases l - level,
{
    assert(sub_table(mem, t, v, level, level) == Some(t));
    assert(sub_table(mem, entry_target(mem[(t / 8) as int + va_index(v, level)]), v, level + 1, level + 1)
        == Some(entry_target(mem[(t / 8) as int + va_index(v, level)])));
    if l > level + 1 {
        lemma_sub_table_step(mem, t, v, level, l - 1);
    }
}

/// From a table whose entry for `v` is absent, no deeper table is reached.
proof fn lemma_sub_table_absent(mem: Seq<u64>, t: u64, v: u64, level: int, l: int)
    requires
        level < l,
        !present(mem[(t / 8) as int + va_index(v, level)]),
    ensures
        sub_table(mem, t, v, level, l) is None,
    decreases l - level,
{
    assert(sub_table(mem, t, v, level, level) == Some(t));
    if l > level + 1 {
        lemma_sub_table_absent(mem, t, v, level, l - 1);
    }
}

/// A walk reads only the entries it looks up: memories that agree on those
/// give the same translation.
proof fn lemma_sub_translation_frame(m: Seq<u64>, mem: Seq<u64>, t: u64, v: u64, level: int)
    requires
        0 <= level <= 3,
        forall|l: int| #![trigger sub_table(mem, t, v, level, l)] level <= l <= 3 ==>
            (sub_table(mem, t, v, level, l) matches Some(u) ==> m[(u / 8) as int + va_index(v, l)] == mem[(u / 8) as int + va_index(v, l)]),
    ensures
        sub_translation(m, t, v, level) == sub_translation(mem, t, v, level),
    decreases 3 - level,
{
    assert(sub_table(mem, t, v, level, level) == Some(t));
    let e = mem[(t / 8) as int + va_index(v, level)];
    if level < 3 && present(e) {
        let t1 = entry_target(e);
        assert forall|l: int| #![trigger sub_table(mem, t1, v, level + 1, l)] level + 1 <= l <= 3 implies
            (sub_table(mem, t1, v, level + 1, l) matches Some(u) ==> m[(u / 8) as int + va_index(v, l)] == mem[(u / 8) as int + va_index(v, l)]) by {
            if l == level + 1 {
                lemma_sub_table_step(mem, t, v, level, l);
            } else {
                lemma_sub_table_step(mem, t, v, level, l);
                assert(sub_table(mem, t, v, level, l) == sub_table(mem, t1, v, level + 1, l));
            }
        }
        lemma_sub_translation_frame(m, mem, t1, v, level + 1);
    }
}

/// The walk of `map` from the table at `table` on `level`, followed by the
/// leaf write, leaves what `w` translates to from that table as it was when
/// `w` leaves `va`'s path at or below `level`, every table `w` reaches lies in
/// memory, and `w` meets a table of the walk only along `va`'s indices.
proof fn lemma_map_keeps_other(mem: Seq<u64>, pmm: Option<PmmModel>, table: u64, va: u64, pa: u64, flags: u64, level: int, w: u64)
    requires
        0 <= level <= 3,
        flags < 4096,
        table_in(mem.len() as int, table),
        map_walk(mem, pmm, table, va, flags, level) is Some,
        distinct_tables(map_tables(mem, pmm, table, va, flags, level)),
        exists|n: int| level <= n <= 3 && #[trigger] va_index(w, n) != va_index(va, n),
        forall|l: int| #![trigger sub_table(mem, table, w, level, l)] level <= l <= 3 ==>
            (sub_table(mem, table, w, level, l) matches Some(u) ==> table_in(mem.len() as int, u)),
        forall|k: int, l: int| #![trigger map_tables(mem, pmm, table, va, flags, level)[k], sub_table(mem, table, w, level, l)]
            0 <= k < map_tables(mem, pmm, table, va, flags, level).len() && level < l <= 3
            && sub_table(mem, table, w, level, l) == Some(map_tables(mem, pmm, table, va, flags, level)[k])
            ==> forall|n: int| level <= n < l ==> #[trigger] va_index(w, n) == va_index(va, n),
    ensures
        ({
            let (m3, p3, pt) = map_walk(mem, pmm, table, va, flags, level)->Some_0;
            sub_translation(m3.update((pt / 8) as int + va_index(va, 3), leaf_entry(pa, flags)), table, w, level)
                == sub_translation(mem, table, w, level)
        }),
    decreases 3 - level,
{
    let ts = map_tables(mem, pmm, table, va, flags, level);
    let (m3, p3, pt) = map_walk(mem, pmm, table, va, flags, level)->Some_0;
    let leaf = (pt / 8) as int + va_index(va, 3);
    let m = m3.update(leaf, leaf_entry(pa, flags));
    lemma_va_index(va, level);
    lemma_va_index(w, level);
    lemma_va_index(va, 3);
    let iw = (table / 8) as int + va_index(w, level);
    let iv = (table / 8) as int + va_index(va, level);
    assert(sub_table(mem, table, w, level, level) == Some(table));
    if level == 3 {
        assert(m3 == mem && pt == table);
        let n = choose|n: int| level <= n <= 3 && #[trigger] va_index(w, n) != va_index(va, n);
        assert(n == 3);
        assert(m[iw] == mem[iw]);
    } else {
        lemma_map_walk_links(mem, pmm, table, va, flags, level);
        assert(ts.len() >= 2);
        assert(ts[ts.len() - 1] != ts[0]);
        assert(pt != table);
        lemma_va_index(va, 3);
        assert(table_in(mem.len() as int, pt));
        assert(in_table(leaf, pt));
        assert(in_table(iv, table));
        if va_index(w, level) != va_index(va, level) {
            assert forall|l: int| #![trigger sub_table(mem, table, w, level, l)] level <= l <= 3 implies
                (sub_table(mem, table, w, level, l) matches Some(u) ==> m[(u / 8) as int + va_index(w, l)] == mem[(u / 8) as int + va_index(w, l)]) by {
                if let Some(u) = sub_table(mem, table, w, level, l) {
                    lemma_va_index(w, l);
                    let i = (u / 8) as int + va_index(w, l);
                    assert(table_in(mem.len() as int, u));
                    assert(in_table(i, u));
                    if l > level {
                        assert forall|k: int| 0 <= k < ts.len() implies #[trigger] ts[k] != u by {
                            if ts[k] == u {
                                assert(va_index(w, level) == va_index(va, level));
                            }
                        }
                    }
                    assert(!touched(ts, va, level, i)) by {
                        if exists|k: int| 1 <= k < ts.len() && #[trigger] in_table(i, ts[k]) {
                            let k = choose|k: int| 1 <= k < ts.len() && #[trigger] in_table(i, ts[k]);
                            assert(ts[0] != ts[k]);
                            lemma_tables_disjoint(u, ts[k], i);
                        }
                        if exists|k: int| 0 <= k < ts.len() - 1 && i == (#[trigger] ts[k]) / 8 + va_index(va, level + k) {
                            let k = choose|k: int| 0 <= k < ts.len() - 1 && i == (#[trigger] ts[k]) / 8 + va_index(va, level + k);
                            lemma_va_index(va, level + k);
                            assert(in_table(i, ts[k]));
                            if ts[k] == u {
                                assert(l == level);
                                if k != 0 {
                                    assert(ts[0] != ts[k]);
                                }
                                assert(k == 0);
                            } else {
                                lemma_tables_disjoint(u, ts[k], i);
                            }
                        }
                    }
                    assert(m3[i] == mem[i]);
                    assert(pt == ts[ts.len() - 1]);
                    assert(pt != u);
                    lemma_tables_disjoint(pt, u, leaf);
                    assert(m[i] == mem[i]);
                }
            }
            lemma_sub_translation_frame(m, mem, table, w, level);
        } else {
            let (m1, p1, t1) = map_level(mem, pmm, table, va, flags, level)->Some_0;
            let rest = map_tables(m1, p1, t1, va, flags, level + 1);
            assert(ts =~= seq![table] + rest);
            assert(map_walk(m1, p1, t1, va, flags, level + 1)->Some_0 == (m3, p3, pt));
            assert(rest[0] == t1);
            assert(distinct_tables(rest)) by {
                assert forall|i: int, j: int| 0 <= i < j < rest.len() implies rest[i] != rest[j] by {
                    assert(rest[i] == ts[i + 1] && rest[j] == ts[j + 1]);
                }
            }
            assert(m1.len() == mem.len());
            assert(table_in(m1.len() as int, t1));
            assert(exists|n: int| level + 1 <= n <= 3 && #[trigger] va_index(w, n) != va_index(va, n)) by {
                let n = choose|n: int| level <= n <= 3 && #[trigger] va_index(w, n) != va_index(va, n);
                assert(n != level);
            }
            assert(present(m3[iv]) && entry_target(m3[iv]) == t1) by {
                assert(ts[1] == t1);
                assert(ts[0] / 8 + va_index(va, level + 0) == iv);
            }
            lemma_tables_disjoint(table, pt, iv);
            assert(m[iv] == m3[iv]);
            assert(iw == iv);
            assert(sub_translation(m, table, w, level) == sub_translation(m, t1, w, level + 1));
            if present(mem[iv]) {
                assert(m1 == mem && t1 == entry_target(mem[iv]));
                assert forall|l: int| level + 1 <= l <= 3 implies #[trigger] sub_table(m1, t1, w, level + 1, l) == sub_table(mem, table, w, level, l) by {
                    lemma_sub_table_step(mem, table, w, level, l);
                }
                assert forall|l: int| #![trigger sub_table(m1, t1, w, level + 1, l)] level + 1 <= l <= 3 implies
                    (sub_table(m1, t1, w, level + 1, l) matches Some(u) ==> table_in(m1.len() as int, u)) by {
                    assert(sub_table(mem, table, w, level, l) == sub_table(m1, t1, w, level + 1, l));
                }
                assert forall|k: int, l: int| #![trigger rest[k], sub_table(m1, t1, w, level + 1, l)]
                    0 <= k < rest.len() && level + 1 < l <= 3 && sub_table(m1, t1, w, level + 1, l) == Some(rest[k])
                    implies forall|n: int| level + 1 <= n < l ==> #[trigger] va_index(w, n) == va_index(va, n) by {
                    assert(rest[k] == ts[k + 1]);
                    assert(sub_table(mem, table, w, level, l) == sub_table(m1, t1, w, level + 1, l));
                    assert(sub_table(mem, table, w, level, l) == Some(ts[k + 1]));
                }
                lemma_map_keeps_other(m1, p1, t1, va, pa, flags, level + 1, w);
            } else {
                let a = t1;
                lemma_va_index(w, level + 1);
                let j = (a / 8) as int + va_index(w, level + 1);
                assert(m1 == zeroed(mem.update(iv, a | flags | 1u64), a as int));
                assert(m1[j] == 0u64);
                assert(!present(0u64)) by (bit_vector);
                assert(sub_table(m1, a, w, level + 1, level + 1) == Some(a));
                assert forall|l: int| level + 1 < l <= 3 implies #[trigger] sub_table(m1, a, w, level + 1, l) is None by {
                    lemma_sub_table_absent(m1, a, w, level + 1, l);
                }
                lemma_map_keeps_other(m1, p1, a, va, pa, flags, level + 1, w);
                assert(sub_translation(m1, a, w, level + 1) is None);
                assert(sub_translation(mem, table, w, level) is None);
            }
        }
    }
}

/// Mapping a page leaves every other page as it was: after `map` of `va`
/// (flags below 4096, the tables of its walk distinct) every address `w` below
/// 2^48 in another page translates as before. An address space without tables
/// translates nothing before and, but for `va`'s page, nothing after; one with
/// a root table needs its tables to form a tree and the tables the walk adds
/// not to be among those `w`'s walk already uses.
pub proof fn law_map_keeps_other_pages(root: u64, mem: Seq<u64>, pmm: Option<PmmModel>, va: u64, pa: u64, flags: u64, w: u64)
    requires
        flags < 4096,
        map_possible(root, mem, pmm, va, flags),
        ({
            let (r0, m0, p0) = map_start(root, mem, pmm);
            distinct_tables(map_tables(m0, p0, r0, va, flags, 0))
        }),
        root != 0 ==> tree_shaped(mem, root),
        root != 0 ==> walk_in_memory(mem, root, w),
        root != 0 ==> forall|k: int, l: int| #![trigger map_tables(mem, pmm, root, va, flags, 0)[k], table_at_level(mem, root, w, l)]
            0 <= k < 4 && 0 <= l < 4 && table_at_level(mem, root, w, l) == Some(map_tables(mem, pmm, root, va, flags, 0)[k])
            ==> table_at_level(mem, root, va, k) == Some(map_tables(mem, pmm, root, va, flags, 0)[k]),
        va < 0x1_0000_0000_0000,
        w < 0x1_0000_0000_0000,
        va >> 12u64 != w >> 12u64,
    ensures
        ({
            let (r, m, p) = map_result(root, mem, pmm, va, pa, flags);
            &&& root != 0 ==> r == root
            &&& translation(m, r, w) == translation(mem, root, w)
        }),
{
    let (r0, m0, p0) = map_start(root, mem, pmm);
    let ts = map_tables(m0, p0, r0, va, flags, 0);
    lemma_map_walk_links(m0, p0, r0, va, flags, 0);
    let (m3, p3, pt) = map_walk(m0, p0, r0, va, flags, 0)->Some_0;
    let m = m3.update((pt / 8) as int + va_index(va, 3), leaf_entry(pa, flags));
    if r0 != 0 {
        assert(exists|n: int| 0 <= n <= 3 && #[trigger] va_index(w, n) != va_index(va, n)) by {
            if !(va_index(w, 0) != va_index(va, 0) || va_index(w, 1) != va_index(va, 1)
                || va_index(w, 2) != va_index(va, 2) || va_index(w, 3) != va_index(va, 3)) {
                lemma_same_indices_same_page(va, w);
            }
            if va_index(w, 0) != va_index(va, 0) {
                assert(0 <= 0int <= 3);
            } else if va_index(w, 1) != va_index(va, 1) {
                assert(0 <= 1int <= 3);
            } else if va_index(w, 2) != va_index(va, 2) {
                assert(0 <= 2int <= 3);
            } else {
                assert(va_index(w, 3) != va_index(va, 3));
            }
        }
        if root != 0 {
            assert(map_start(root, mem, pmm) == (root, mem, pmm));
            assert forall|l: int| #![trigger sub_table(mem, root, w, 0, l)] 0 <= l <= 3 implies
                (sub_table(mem, root, w, 0, l) matches Some(u) ==> table_in(mem.len() as int, u)) by {
                lemma_sub_table_root(mem, root, w, l);
            }
            assert forall|k: int, l: int| #![trigger ts[k], sub_table(mem, root, w, 0, l)]
                0 <= k < ts.len() && 0 < l <= 3 && sub_table(mem, root, w, 0, l) == Some(ts[k])
                implies forall|n: int| 0 <= n < l ==> #[trigger] va_index(w, n) == va_index(va, n) by {
                lemma_sub_table_root(mem, root, w, l);
                assert(table_at_level(mem, root, va, k) == Some(ts[k]));
                assert(table_at_level(mem, root, w, l) == table_at_level(mem, root, va, k));
            }
            lemma_map_keeps_other(mem, pmm, root, va, pa, flags, 0, w);
            lemma_translation_from_level(m, root, w, 0);
            lemma_translation_from_level(mem, root, w, 0);
        } else {
            // a fresh, zeroed root table: `w`'s walk stops at its first entry
            lemma_va_index(w, 0);
            assert(m0 == zeroed(mem, r0 as int));
            assert(m0[(r0 / 8) as int + va_index(w, 0)] == 0u64);
            assert(!present(0u64)) by (bit_vector);
            assert(sub_table(m0, r0, w, 0, 0) == Some(r0));
            assert forall|l: int| 0 < l <= 3 implies #[trigger] sub_table(m0, r0, w, 0, l) is None by {
                lemma_sub_table_absent(m0, r0, w, 0, l);
            }
            lemma_map_keeps_other(m0, p0, r0, va, pa, flags, 0, w);
            assert(sub_translation(m0, r0, w, 0) is None);
            lemma_translation_from_level(m, r0, w, 0);
        }
    }
}

} // verus!
