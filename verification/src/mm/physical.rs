//! Physical page frames: an allocation bitmap and a list of free blocks whose
//! nodes themselves occupy allocated pages.
use vstd::prelude::*;
use crate::{BootInfo, MemoryMapEntry};

verus! {

/// Size of a page frame in bytes.
pub const PAGE_SIZE: usize = 4096;

/// A run of free frames; its list node is kept in the page at `node_addr`.
#[derive(Clone, Copy, PartialEq, Eq, Structural)]
pub struct FreeBlock {
    pub start_frame: usize,
    pub size: usize,
    pub node_addr: usize,
}

/// Errors of the frame allocator.
#[derive(Debug, Copy, Clone, PartialEq, Eq, Structural)]
pub enum AllocError {
    OutOfMemory,
    InvalidAddress,
    InternalError,
}

/// The allocator as mathematics: bitmap bytes, number of frames, count of
/// allocations, and the free blocks from the head of the list.
pub type PmmModel = (Seq<u8>, nat, int, Seq<FreeBlock>);

/// The bitmap with the bit of frame `f` set.
pub open spec fn set_bit(bm: Seq<u8>, f: int) -> Seq<u8> {
    bm.update(f / 8, bm[f / 8] | (1u8 << ((f % 8) as u8)))
}

/// The bitmap with the bit of frame `f` cleared.
pub open spec fn clear_bit(bm: Seq<u8>, f: int) -> Seq<u8> {
    bm.update(f / 8, bm[f / 8] & !(1u8 << ((f % 8) as u8)))
}

/// What allocating a page does: take the first frame of the head block, mark
/// it, shrink the block; a block left empty is unlinked and its node page freed.
pub open spec fn alloc_effect(m: PmmModel) -> (PmmModel, Result<usize, AllocError>)
    decreases m.3.len(), 0nat,
{
    let (bm, total, allocated, blocks) = m;
    if blocks.len() == 0 {
        (m, Err(AllocError::OutOfMemory))
    } else {
        let h = blocks[0];
        let frame = h.start_frame as int;
        if frame >= total {
            (m, Err(AllocError::InvalidAddress))
        } else if frame / 8 >= bm.len() {
            (m, Err(AllocError::InternalError))
        } else {
            let shrunk = FreeBlock { start_frame: (frame + 1) as usize, size: (h.size - 1) as usize, node_addr: h.node_addr };
            let result = Ok((frame * PAGE_SIZE) as usize);
            if h.size == 1 {
                let m2: PmmModel = (set_bit(bm, frame), total, allocated + 1, blocks.drop_first());
                (free_effect(m2, h.node_addr).0, result)
            } else {
                ((set_bit(bm, frame), total, allocated + 1, blocks.update(0, shrunk)), result)
            }
        }
    }
}

/// What freeing the page at `addr` does: check it, clear its bit, and try to
/// link a one-frame block for it.
pub open spec fn free_effect(m: PmmModel, addr: usize) -> (PmmModel, Result<(), AllocError>)
    decreases m.3.len(), 2nat,
{
    let (bm, total, allocated, blocks) = m;
    if addr % PAGE_SIZE != 0 {
        (m, Err(AllocError::InvalidAddress))
    } else {
        let frame = (addr / PAGE_SIZE) as int;
        if frame >= total {
            (m, Err(AllocError::InvalidAddress))
        } else if frame / 8 >= bm.len() {
            (m, Err(AllocError::InternalError))
        } else {
            let m1: PmmModel = (clear_bit(bm, frame), total, allocated - 1, blocks);
            (add_effect(m1, frame as usize, 1).0, Ok(()))
        }
    }
}

/// What linking a free block does: allocate a page for its node, then put the
/// block at the head of the list.
pub open spec fn add_effect(m: PmmModel, start: usize, size: usize) -> (PmmModel, Result<(), AllocError>)
    decreases m.3.len(), 1nat,
{
    let (m1, r) = alloc_effect(m);
    match r {
        Ok(a) => ((m1.0, m1.1, m1.2, seq![FreeBlock { start_frame: start, size, node_addr: a }] + m1.3), Ok(())),
        Err(e) => (m1, Err(e)),
    }
}

/// Every block is non-empty.
pub open spec fn blocks_nonempty(blocks: Seq<FreeBlock>) -> bool {
    forall|i: int| 0 <= i < blocks.len() ==> (#[trigger] blocks[i]).size >= 1
}

/// Linking a block keeps the bitmap's length and the frame count, keeps blocks
/// non-empty, and raises the allocation count by at most one.
pub proof fn lemma_effects_add(m: PmmModel, start: usize, size: usize)
    requires
        blocks_nonempty(m.3),
        size >= 1,
    ensures
        add_effect(m, start, size).0.0.len() == m.0.len(),
        add_effect(m, start, size).0.1 == m.1,
        blocks_nonempty(add_effect(m, start, size).0.3),
        m.2 <= add_effect(m, start, size).0.2 <= m.2 + 1,
        alloc_effect(m).0.0.len() == m.0.len(),
        alloc_effect(m).0.1 == m.1,
        blocks_nonempty(alloc_effect(m).0.3),
        m.2 <= alloc_effect(m).0.2 <= m.2 + 1,
        alloc_effect(m).1 is Err ==> alloc_effect(m).0 == m,
    decreases m.3.len(), 1nat,
{
    lemma_effects_alloc(m);
    let (m1, r) = alloc_effect(m);
    if r is Ok {
        let nb = seq![FreeBlock { start_frame: start, size, node_addr: r->Ok_0 }] + m1.3;
        assert forall|i: int| 0 <= i < nb.len() implies (#[trigger] nb[i]).size >= 1 by {
            if i > 0 { assert(nb[i] == m1.3[i - 1]); }
        }
    }
}

/// Allocating keeps the bitmap's length and the frame count, keeps blocks
/// non-empty, raises the allocation count by at most one, and on failure changes nothing.
pub proof fn lemma_effects_alloc(m: PmmModel)
    requires
        blocks_nonempty(m.3),
    ensures
        alloc_effect(m).0.0.len() == m.0.len(),
        alloc_effect(m).0.1 == m.1,
        blocks_nonempty(alloc_effect(m).0.3),
        m.2 <= alloc_effect(m).0.2 <= m.2 + 1,
        alloc_effect(m).1 is Err ==> alloc_effect(m).0 == m,
    decreases m.3.len(), 0nat,
{
    let (bm, total, allocated, blocks) = m;
    if blocks.len() > 0 {
        let h = blocks[0];
        let frame = h.start_frame as int;
        if frame < total && frame / 8 < bm.len() {
            if h.size == 1 {
                let m2: PmmModel = (set_bit(bm, frame), total, allocated + 1, blocks.drop_first());
                assert(blocks_nonempty(m2.3)) by {
                    assert forall|i: int| 0 <= i < m2.3.len() implies (#[trigger] m2.3[i]).size >= 1 by {
                        assert(m2.3[i] == blocks[i + 1]);
                    }
                }
                lemma_effects_free(m2, h.node_addr);
            } else {
                let shrunk = FreeBlock { start_frame: (frame + 1) as usize, size: (h.size - 1) as usize, node_addr: h.node_addr };
                assert forall|i: int| 0 <= i < blocks.update(0, shrunk).len() implies (#[trigger] blocks.update(0, shrunk)[i]).size >= 1 by {
                    if i > 0 { assert(blocks.update(0, shrunk)[i] == blocks[i]); }
                }
            }
        }
    }
}

/// Freeing keeps the bitmap's length and the frame count, keeps blocks
/// non-empty, lowers the allocation count by at most one, and on failure changes nothing.
pub proof fn lemma_effects_free(m: PmmModel, addr: usize)
    requires
        blocks_nonempty(m.3),
    ensures
        free_effect(m, addr).0.0.len() == m.0.len(),
        free_effect(m, addr).0.1 == m.1,
        blocks_nonempty(free_effect(m, addr).0.3),
        m.2 - 1 <= free_effect(m, addr).0.2 <= m.2,
        free_effect(m, addr).1 is Err ==> free_effect(m, addr).0 == m,
    decreases m.3.len(), 2nat,
{
    let (bm, total, allocated, blocks) = m;
    if addr % PAGE_SIZE == 0 {
        let frame = (addr / PAGE_SIZE) as int;
        if frame < total && frame / 8 < bm.len() {
            let m1: PmmModel = (clear_bit(bm, frame), total, allocated - 1, blocks);
            lemma_effects_add(m1, frame as usize, 1);
        }
    }
}

/// Whether freeing `addr` passes the checks and so lowers the allocation count.
pub open spec fn frees_frame(m: PmmModel, addr: usize) -> bool {
    addr % PAGE_SIZE == 0 && ((addr / PAGE_SIZE) as int) < m.1 && (addr / PAGE_SIZE) as int / 8 < m.0.len()
}

/// Whether frame `f`'s bit is clear in the bitmap.
pub open spec fn frame_clear(bm: Seq<u8>, f: int) -> bool {
    bm[f / 8] & (1u8 << ((f % 8) as u8)) == 0u8
}

/// The run of free frames in progress: its first frame and its length.
pub open spec fn run_of(start: Option<usize>, size: usize) -> Option<(usize, usize)> {
    match start {
        Some(s) => Some((s, size)),
        None => None,
    }
}

/// The allocator after the run `cur`, if any, is linked as a block.
pub open spec fn close_run(m: PmmModel, cur: Option<(usize, usize)>) -> PmmModel {
    match cur {
        Some((s, n)) => add_effect(m, s, n).0,
        None => m,
    }
}

/// The run `cur` extended by frame `f`.
pub open spec fn extend_run(cur: Option<(usize, usize)>, f: int) -> Option<(usize, usize)> {
    match cur {
        Some((s, n)) => Some((s, (n + 1) as usize)),
        None => Some((f as usize, 1usize)),
    }
}

/// The allocator after scanning frames `frame` to `total - 1` with run `cur`
/// in progress: a clear bit extends the run, a set bit links the run as a
/// block and ends it, a frame past the bitmap is skipped, and the run left at
/// the end is linked.
pub open spec fn scan_runs(m: PmmModel, total: int, frame: int, cur: Option<(usize, usize)>) -> PmmModel
    decreases total - frame,
{
    if frame >= total {
        close_run(m, cur)
    } else if frame / 8 < m.0.len() {
        if frame_clear(m.0, frame) {
            scan_runs(m, total, frame + 1, extend_run(cur, frame))
        } else {
            scan_runs(close_run(m, cur), total, frame + 1, None)
        }
    } else {
        scan_runs(m, total, frame + 1, cur)
    }
}

/// Whether the scan can count each allocation its links make: before each
/// link the allocation count is below the largest word.
pub open spec fn scan_ok(m: PmmModel, total: int, frame: int, cur: Option<(usize, usize)>) -> bool
    decreases total - frame,
{
    if frame >= total {
        cur is Some ==> m.2 < usize::MAX
    } else if frame / 8 < m.0.len() {
        if frame_clear(m.0, frame) {
            scan_ok(m, total, frame + 1, extend_run(cur, frame))
        } else {
            &&& cur is Some ==> m.2 < usize::MAX
            &&& scan_ok(close_run(m, cur), total, frame + 1, None)
        }
    } else {
        scan_ok(m, total, frame + 1, cur)
    }
}

/// With no block listed no link can be made, so the scan changes nothing and
/// never counts an allocation.
pub proof fn lemma_scan_empty(m: PmmModel, total: int, frame: int, cur: Option<(usize, usize)>)
    requires
        m.3.len() == 0,
        m.2 < usize::MAX,
    ensures
        scan_runs(m, total, frame, cur) == m,
        scan_ok(m, total, frame, cur),
    decreases total - frame,
{
    assert(close_run(m, cur) == m);
    if frame < total {
        if frame / 8 < m.0.len() {
            if frame_clear(m.0, frame) {
                lemma_scan_empty(m, total, frame + 1, extend_run(cur, frame));
            } else {
                lemma_scan_empty(m, total, frame + 1, None);
            }
        } else {
            lemma_scan_empty(m, total, frame + 1, cur);
        }
    }
}

/// The frame allocator.
pub struct PhysicalMemoryManager {
    bitmap: Vec<u8>,
    total_frames: usize,
    allocated_frames: usize,
    physical_memory_start: u64,
    free_list: Vec<FreeBlock>,
}

impl PhysicalMemoryManager {
    /// The allocator's state.
    pub closed spec fn view(&self) -> PmmModel {
        (self.bitmap@, self.total_frames as nat, self.allocated_frames as int, self.free_list@)
    }

    /// Blocks are non-empty and every frame's address fits a machine word.
    pub closed spec fn wf(&self) -> bool {
        &&& blocks_nonempty(self.free_list@)
        &&& self.total_frames * PAGE_SIZE <= usize::MAX
    }

    /// A manager over `total_frames` frames with the given bitmap, no
    /// allocation counted and no free block.
    pub fn from_bitmap(bitmap: Vec<u8>, total_frames: usize) -> (m: Self)
        requires
            total_frames * PAGE_SIZE <= usize::MAX,
        ensures
            m.wf(),
            m@ == (bitmap@, total_frames as nat, 0int, Seq::<FreeBlock>::empty()),
    {
        PhysicalMemoryManager { bitmap, total_frames, allocated_frames: 0, physical_memory_start: 0, free_list: Vec::new() }
    }

    /// Takes the first frame of the first non-empty block.
    pub fn allocate_page(&mut self) -> (r: Result<usize, AllocError>)
        requires
            old(self).wf(),
            old(self)@.2 < usize::MAX,
        ensures
            final(self).wf(),
            (final(self)@, r) == alloc_effect(old(self)@),
        decreases old(self)@.3.len(), 0nat,
    {
        proof { lemma_effects_alloc(self@); }
        let mut i: usize = 0;
        while i < self.free_list.len()
            invariant
                i == 0,
                self.wf(),
                old(self)@.2 < usize::MAX,
                *self == *old(self),
            decreases self.free_list@.len() - i,
        {
            let block = self.free_list[i];
            if block.size >= 1 {
                let frame = block.start_frame;
                if frame >= self.total_frames {
                    return Err(AllocError::InvalidAddress);
                }
                let byte_index = frame / 8;
                let bit_index = frame % 8;
                if byte_index < self.bitmap.len() {
                    let b = self.bitmap[byte_index];
                    self.bitmap.set(byte_index, b | (1u8 << (bit_index as u8)));
                    self.allocated_frames = self.allocated_frames + 1;
                } else {
                    return Err(AllocError::InternalError);
                }
                let shrunk = FreeBlock { start_frame: frame + 1, size: block.size - 1, node_addr: block.node_addr };
                self.free_list.set(i, shrunk);
                if shrunk.size == 0 {
                    self.free_list.remove(i);
                    proof {
                        assert(self.free_list@ =~= old(self)@.3.drop_first());
                        assert(blocks_nonempty(self.free_list@)) by {
                            assert forall|k: int| 0 <= k < self.free_list@.len() implies (#[trigger] self.free_list@[k]).size >= 1 by {
                                assert(self.free_list@[k] == old(self)@.3[k + 1]);
                            }
                        }
                        assert(self@ == (set_bit(old(self)@.0, frame as int), old(self)@.1, old(self)@.2 + 1, old(self)@.3.drop_first()));
                        lemma_effects_free(self@, block.node_addr);
                    }
                    let _ = self.free_page(block.node_addr);
                } else {
                    proof {
                        assert forall|k: int| 0 <= k < self.free_list@.len() implies (#[trigger] self.free_list@[k]).size >= 1 by {
                            if k > 0 { assert(self.free_list@[k] == old(self)@.3[k]); }
                        }
                    }
                }
                return Ok(frame * PAGE_SIZE);
            }
            i = i + 1;
        }
        Err(AllocError::OutOfMemory)
    }

    /// Frees the page at `physical_address`: it must be page aligned and name an
    /// existing frame. Its bit is cleared and a one-frame block is linked for it
    /// when a page for the node can be had.
    pub fn free_page(&mut self, physical_address: usize) -> (r: Result<(), AllocError>)
        requires
            old(self).wf(),
            frees_frame(old(self)@, physical_address) ==> old(self)@.2 >= 1,
        ensures
            final(self).wf(),
            (final(self)@, r) == free_effect(old(self)@, physical_address),
        decreases old(self)@.3.len(), 2nat,
    {
        if physical_address % PAGE_SIZE != 0 {
            return Err(AllocError::InvalidAddress);
        }
        let frame = physical_address / PAGE_SIZE;
        if frame >= self.total_frames {
            return Err(AllocError::InvalidAddress);
        }
        let byte_index = frame / 8;
        let bit_index = frame % 8;
        if byte_index < self.bitmap.len() {
            let b = self.bitmap[byte_index];
            self.bitmap.set(byte_index, b & !(1u8 << (bit_index as u8)));
            self.allocated_frames = self.allocated_frames - 1;
            proof {
                assert(self@ == (clear_bit(old(self)@.0, frame as int), old(self)@.1, old(self)@.2 - 1, old(self)@.3));
            }
            let _ = self.add_free_block(frame, 1);
            Ok(())
        } else {
            Err(AllocError::InternalError)
        }
    }

    /// Links a block of `size` frames from `start_frame` at the head of the
    /// list, its node in a freshly allocated page.
    pub fn add_free_block(&mut self, start_frame: usize, size: usize) -> (r: Result<(), AllocError>)
        requires
            old(self).wf(),
            size >= 1,
            old(self)@.2 < usize::MAX,
        ensures
            final(self).wf(),
            (final(self)@, r) == add_effect(old(self)@, start_frame, size),
        decreases old(self)@.3.len(), 1nat,
    {
        proof { lemma_effects_alloc(self@); }
        match self.allocate_page() {
            Ok(block_addr) => {
                self.free_list.insert(0, FreeBlock { start_frame, size, node_addr: block_addr });
                proof {
                    let nb = seq![FreeBlock { start_frame, size, node_addr: block_addr }] + alloc_effect(old(self)@).0.3;
                    assert(self.free_list@ =~= nb);
                    assert forall|k: int| 0 <= k < nb.len() implies (#[trigger] nb[k]).size >= 1 by {
                        if k > 0 { assert(nb[k] == alloc_effect(old(self)@).0.3[k - 1]); }
                    }
                }
                Ok(())
            },
            Err(err) => Err(err),
        }
    }

    /// Links a block for every run of clear bits among the frames, in
    /// increasing frame order: a run ends at a set bit or after the last frame;
    /// frames past the bitmap neither extend nor end a run. Each link takes a
    /// page for its node from the list, which can change the bitmap later runs
    /// are read from.
    fn build_free_list(&mut self)
        requires
            old(self).wf(),
            scan_ok(old(self)@, old(self)@.1 as int, 0, None),
        ensures
            final(self).wf(),
            final(self)@ == scan_runs(old(self)@, old(self)@.1 as int, 0, None),
    {
        let ghost total = old(self)@.1 as int;
        let mut current_start: Option<usize> = None;
        let mut current_size: usize = 0;
        let mut frame: usize = 0;
        while frame < self.total_frames
            invariant
                self.wf(),
                self@.1 == total,
                frame <= total,
                current_size <= frame,
                current_start is Some ==> current_size >= 1,
                current_start is None ==> current_size == 0,
                scan_ok(self@, total, frame as int, run_of(current_start, current_size)),
                scan_runs(self@, total, frame as int, run_of(current_start, current_size))
                    == scan_runs(old(self)@, total, 0, None),
            decreases self.total_frames - frame,
        {
            let byte_index = frame / 8;
            let bit_index = frame % 8;
            if byte_index < self.bitmap.len() {
                let is_free = (self.bitmap[byte_index] & (1u8 << (bit_index as u8))) == 0;
                if is_free {
                    if current_start.is_none() {
                        current_start = Some(frame);
                    }
                    current_size = current_size + 1;
                } else {
                    match current_start {
                        Some(start) => {
                            proof {
                                lemma_wf_bound(*self);
                                lemma_effects_add(self@, start, current_size);
                            }
                            let _ = self.add_free_block(start, current_size);
                            current_start = None;
                            current_size = 0;
                        },
                        None => {},
                    }
                }
            }
            frame = frame + 1;
        }
        match current_start {
            Some(start) => {
                let _ = self.add_free_block(start, current_size);
            },
            None => {},
        }
    }

    /// Bytes of physical memory covered by the frames.
    pub fn get_total_memory(&self) -> (r: usize)
        requires
            self.wf(),
        ensures
            r == self@.1 * PAGE_SIZE,
    {
        self.total_frames * PAGE_SIZE
    }

    /// Bytes of the allocations counted.
    pub fn get_allocated_memory(&self) -> (r: usize)
        requires
            self.wf(),
            self@.2 * PAGE_SIZE <= usize::MAX,
        ensures
            r == self@.2 * PAGE_SIZE,
    {
        self.allocated_frames * PAGE_SIZE
    }
}

/// Memory type of conventional, usable memory in the firmware's map.
pub const CONVENTIONAL_MEMORY: u32 = 7;

/// Whether bit `f` of the bitmap is set.
pub open spec fn bit_of(bm: Seq<u8>, f: int) -> bool {
    (bm[f / 8] >> ((f % 8) as u8)) & 1u8 == 1u8
}

/// Setting bit `k` of a byte sets exactly that bit; clearing it clears exactly that bit.
pub proof fn lemma_byte_bits(b: u8, j: u8, k: u8)
    requires
        j < 8,
        k < 8,
    ensures
        (((b | (1u8 << k)) >> j) & 1u8 == 1u8) == (((b >> j) & 1u8 == 1u8) || j == k),
        (((b & !(1u8 << k)) >> j) & 1u8 == 1u8) == (((b >> j) & 1u8 == 1u8) && j != k),
{
    assert((((b | (1u8 << k)) >> j) & 1u8 == 1u8) == (((b >> j) & 1u8 == 1u8) || j == k)) by (bit_vector)
        requires j < 8u8, k < 8u8;
    assert((((b & !(1u8 << k)) >> j) & 1u8 == 1u8) == (((b >> j) & 1u8 == 1u8) && j != k)) by (bit_vector)
        requires j < 8u8, k < 8u8;
}

/// No bit of the zero byte is set.
pub proof fn lemma_zero_byte(j: u8)
    ensures
        (0u8 >> j) & 1u8 != 1u8,
{
    assert((0u8 >> j) & 1u8 != 1u8) by (bit_vector);
}

/// After setting frame `g`'s bit, frame `f`'s bit is set when it was or when `f` is `g`.
pub proof fn lemma_set_bit(bm: Seq<u8>, g: int, f: int)
    requires
        0 <= g,
        0 <= f,
        g / 8 < bm.len(),
        f / 8 < bm.len(),
    ensures
        bit_of(set_bit(bm, g), f) == (bit_of(bm, f) || f == g),
        set_bit(bm, g).len() == bm.len(),
{
    if f / 8 == g / 8 {
        lemma_byte_bits(bm[g / 8], (f % 8) as u8, (g % 8) as u8);
    }
}

/// Bytes `e` pages long starting at its physical address.
pub open spec fn region_size(e: MemoryMapEntry) -> int {
    e.number_of_pages * PAGE_SIZE
}

/// One past the last byte of the region.
pub open spec fn region_end(e: MemoryMapEntry) -> int {
    e.physical_start + region_size(e)
}

/// Total bytes of the first `n` regions.
pub open spec fn sum_sizes(map: Seq<MemoryMapEntry>, n: int) -> int
    decreases n,
{
    if n <= 0 { 0 } else { sum_sizes(map, n - 1) + region_size(map[n - 1]) }
}

/// The highest end address among the first `n` regions, or 0.
pub open spec fn max_end(map: Seq<MemoryMapEntry>, n: int) -> int
    decreases n,
{
    if n <= 0 { 0 } else {
        let m = max_end(map, n - 1);
        if region_end(map[n - 1]) > m { region_end(map[n - 1]) } else { m }
    }
}

/// `x / d` rounded up.
pub open spec fn div_ceil(x: int, d: int) -> int {
    x / d + (if x % d != 0 { 1int } else { 0int })
}

/// Start of the first conventional region among regions `i..n` of at least
/// `need` bytes, or 0.
pub open spec fn bitmap_region_from(map: Seq<MemoryMapEntry>, n: int, need: int, i: int) -> u64
    decreases n - i,
{
    if i >= n || i < 0 {
        0
    } else if map[i].memory_type == CONVENTIONAL_MEMORY && region_size(map[i]) >= need {
        map[i].physical_start
    } else {
        bitmap_region_from(map, n, need, i + 1)
    }
}

/// Whether frame `f` lies in one of the first `n` regions that is not conventional memory.
pub open spec fn reserved_by(map: Seq<MemoryMapEntry>, n: int, f: int) -> bool
    decreases n,
{
    if n <= 0 {
        false
    } else {
        reserved_by(map, n - 1, f) || {
            let e = map[n - 1];
            &&& e.memory_type != CONVENTIONAL_MEMORY
            &&& (e.physical_start as int) / (PAGE_SIZE as int) <= f < (e.physical_start as int) / (PAGE_SIZE as int) + e.number_of_pages
        }
    }
}

/// Whether frame `f` holds some byte of `[start, start + len)`.
pub open spec fn covers(start: int, len: int, f: int) -> bool {
    start / (PAGE_SIZE as int) <= f < div_ceil(start + len, PAGE_SIZE as int)
}

/// Number of clear bits among the low `k` bits of `b`.
pub open spec fn zero_bits(b: u8, k: int) -> int
    decreases k,
{
    if k <= 0 { 0 } else { zero_bits(b, k - 1) + (if (b >> ((k - 1) as u8)) & 1u8 == 0u8 { 1int } else { 0int }) }
}

/// Number of clear bits in the first `n` bytes.
pub open spec fn zero_bits_total(bm: Seq<u8>, n: int) -> int
    decreases n,
{
    if n <= 0 { 0 } else { zero_bits_total(bm, n - 1) + zero_bits(bm[n - 1], 8) }
}

/// What initialisation reports: total memory, where the bitmap went and its
/// size, and the number of clear bits in the bitmap.
pub struct PhysicalMemoryReport {
    pub total_memory: u64,
    pub bitmap_address: u64,
    pub bitmap_size: usize,
    pub free_frames: usize,
}

/// The arithmetic of initialisation stays within machine words.
pub open spec fn boot_info_fits(boot: &BootInfo) -> bool {
    let map = boot.memory_map@;
    let n = boot.memory_map_count as int;
    &&& n <= map.len()
    &&& forall|i: int| 0 <= i < n ==> region_end(#[trigger] map[i]) <= u64::MAX
        && (map[i].physical_start as int) / (PAGE_SIZE as int) + map[i].number_of_pages <= usize::MAX
    &&& sum_sizes(map, n) <= u64::MAX
    &&& max_end(map, n) + PAGE_SIZE <= usize::MAX
    &&& boot.kernel_base + boot.kernel_size <= u64::MAX
    &&& boot.kernel_base + boot.kernel_size + PAGE_SIZE <= usize::MAX
    &&& forall|i: int| 0 <= i < n ==> (#[trigger] map[i]).physical_start + max_end(map, n) + PAGE_SIZE <= usize::MAX
}

/// `x / d` rounded up, for `d` of at least 2.
fn div_ceil_u64(x: u64, d: u64) -> (r: u64)
    requires
        d >= 2,
    ensures
        r == div_ceil(x as int, d as int),
{
    let q = x / d;
    assert(q <= u64::MAX / 2) by (nonlinear_arith)
        requires
            q == x / d,
            d >= 2,
    ;
    if x % d != 0 { q + 1 } else { q }
}

/// Sets the bit of frame `f`.
fn mark_frame(bitmap: &mut Vec<u8>, f: usize)
    requires
        f / 8 < old(bitmap)@.len(),
    ensures
        final(bitmap)@ == set_bit(old(bitmap)@, f as int),
{
    let b = bitmap[f / 8];
    bitmap.set(f / 8, b | (1u8 << ((f % 8) as u8)));
}

/// Marks the frames `[start_frame, end_frame)` below `total_frames`.
fn mark_range(bitmap: &mut Vec<u8>, total_frames: usize, start_frame: usize, end_frame: usize)
    requires
        old(bitmap)@.len() == div_ceil(total_frames as int, 8),
    ensures
        final(bitmap)@.len() == old(bitmap)@.len(),
        forall|f: int| 0 <= f < total_frames ==> #[trigger] bit_of(final(bitmap)@, f)
            == (bit_of(old(bitmap)@, f) || (start_frame <= f < end_frame)),
        forall|f: int| total_frames <= f < old(bitmap)@.len() * 8 ==> #[trigger] bit_of(final(bitmap)@, f)
            == bit_of(old(bitmap)@, f),
{
    let mut frame = start_frame;
    while frame < end_frame
        invariant
            start_frame <= frame,
            frame <= end_frame || start_frame >= end_frame,
            start_frame >= end_frame ==> frame == start_frame,
            bitmap@.len() == old(bitmap)@.len(),
            bitmap@.len() == div_ceil(total_frames as int, 8),
            forall|f: int| 0 <= f < total_frames ==> #[trigger] bit_of(bitmap@, f)
                == (bit_of(old(bitmap)@, f) || (start_frame <= f < frame)),
            forall|f: int| total_frames <= f < old(bitmap)@.len() * 8 ==> #[trigger] bit_of(bitmap@, f)
                == bit_of(old(bitmap)@, f),
        decreases end_frame - frame,
    {
        if frame < total_frames {
            let ghost before = bitmap@;
            mark_frame(bitmap, frame);
            proof {
                assert forall|f: int| 0 <= f < total_frames implies #[trigger] bit_of(bitmap@, f)
                    == (bit_of(old(bitmap)@, f) || (start_frame <= f < frame + 1)) by {
                    lemma_set_bit(before, frame as int, f);
                }
                assert forall|f: int| total_frames <= f < old(bitmap)@.len() * 8 implies #[trigger] bit_of(bitmap@, f)
                    == bit_of(old(bitmap)@, f) by {
                    lemma_set_bit(before, frame as int, f);
                }
            }
        }
        frame = frame + 1;
    }
    assert(start_frame >= end_frame || frame == end_frame);
}

/// Number of clear bits in the bitmap.
fn count_free_bits(bitmap: &Vec<u8>) -> (r: usize)
    requires
        bitmap@.len() * 8 <= usize::MAX,
    ensures
        r == zero_bits_total(bitmap@, bitmap@.len() as int),
{
    let mut total: usize = 0;
    let mut i: usize = 0;
    while i < bitmap.len()
        invariant
            i <= bitmap@.len(),
            bitmap@.len() * 8 <= usize::MAX,
            total == zero_bits_total(bitmap@, i as int),
            total <= 8 * i,
        decreases bitmap@.len() - i,
    {
        let b = bitmap[i];
        let mut k: u8 = 0;
        let mut zeros: usize = 0;
        while k < 8
            invariant
                k <= 8,
                zeros == zero_bits(b, k as int),
                zeros <= k,
            decreases 8 - k,
        {
            if (b >> k) & 1u8 == 0u8 {
                zeros = zeros + 1;
            }
            k = k + 1;
        }
        total = total + zeros;
        i = i + 1;
    }
    total
}

/// Reads the memory map: totals the memory, sizes a bitmap of one bit per
/// frame up to the highest address, places it in the first conventional region
/// large enough (a region at address 0 counts as none found), marks the frames
/// of non-conventional regions, of the kernel and of the bitmap itself, and
/// builds the free list. Without a place for the bitmap there is no manager.
/// The free list comes out empty: linking a run takes a node's page from the
/// list itself, which is empty while it is being built, so no run is linked and
/// `allocate_page` on the new manager reports `OutOfMemory`.
pub fn init(boot: &BootInfo) -> (r: (Option<PhysicalMemoryManager>, PhysicalMemoryReport))
    requires
        boot_info_fits(boot),
    ensures
        ({
            let map = boot.memory_map@;
            let n = boot.memory_map_count as int;
            let total_frames = div_ceil(max_end(map, n), PAGE_SIZE as int);
            let bitmap_size = div_ceil(total_frames, 8);
            let bitmap_address = bitmap_region_from(map, n, bitmap_size, 0);
            &&& r.1.total_memory == sum_sizes(map, n)
            &&& r.1.bitmap_address == bitmap_address
            &&& r.1.bitmap_size == bitmap_size
            &&& bitmap_address == 0 ==> r.0 is None
            &&& bitmap_address != 0 ==> r.0 is Some
            &&& bitmap_address != 0 ==> r.0->0.wf() && {
                let (bm, total, allocated, blocks) = r.0->0@;
                &&& total == total_frames
                &&& allocated == 0
                &&& blocks.len() == 0
                &&& bm.len() == bitmap_size
                &&& r.1.free_frames == zero_bits_total(bm, bm.len() as int)
                &&& forall|f: int| 0 <= f < total_frames ==> #[trigger] bit_of(bm, f) == (
                    reserved_by(map, n, f)
                    || covers(boot.kernel_base as int, boot.kernel_size as int, f)
                    || covers(bitmap_address as int, bitmap_size, f))
                &&& forall|f: int| total_frames <= f < bm.len() * 8 ==> !#[trigger] bit_of(bm, f)
            }
        }),
{
    let map = &boot.memory_map;
    let count = boot.memory_map_count as usize;
    let ghost smap = map@;
    let mut total_memory: u64 = 0;
    let mut max_physical_address: u64 = 0;
    let mut i: usize = 0;
    while i < count
        invariant
            boot_info_fits(boot),
            count == boot.memory_map_count,
            smap == boot.memory_map@,
            map@ == smap,
            i <= count,
            total_memory == sum_sizes(smap, i as int),
            max_physical_address == max_end(smap, i as int),
        decreases count - i,
    {
        let entry = map[i];
        proof {
            assert(region_end(smap[i as int]) <= u64::MAX);
            assert(sum_sizes(smap, i as int + 1) <= sum_sizes(smap, count as int)) by {
                lemma_sum_sizes_monotone(smap, i as int + 1, count as int);
            }
        }
        let memory_size = entry.number_of_pages * (PAGE_SIZE as u64);
        total_memory = total_memory + memory_size;
        let end_address = entry.physical_start + memory_size;
        if end_address > max_physical_address {
            max_physical_address = end_address;
        }
        i = i + 1;
    }
    let total_frames = div_ceil_u64(max_physical_address, PAGE_SIZE as u64) as usize;
    let bitmap_size = div_ceil_u64(total_frames as u64, 8) as usize;
    let mut bitmap_address: u64 = 0;
    let mut found = false;
    let ghost mut found_at: int = 0;
    let mut j: usize = 0;
    while j < count && !found
        invariant
            count == boot.memory_map_count,
            count <= smap.len(),
            map@ == smap,
            j <= count,
            !found ==> bitmap_region_from(smap, count as int, bitmap_size as int, 0)
                == bitmap_region_from(smap, count as int, bitmap_size as int, j as int),
            found ==> bitmap_address == bitmap_region_from(smap, count as int, bitmap_size as int, 0),
            found ==> 0 <= found_at < count && bitmap_address == smap[found_at].physical_start,
            !found ==> bitmap_address == 0,
            forall|i: int| 0 <= i < count ==> region_end(#[trigger] smap[i]) <= u64::MAX,
        decreases count - j,
    {
        let entry = map[j];
        if entry.memory_type == CONVENTIONAL_MEMORY {
            let size = entry.number_of_pages * (PAGE_SIZE as u64);
            if size >= bitmap_size as u64 {
                bitmap_address = entry.physical_start;
                found = true;
                proof { found_at = j as int; }
            }
        }
        j = j + 1;
    }
    proof {
        if !found {
            assert(bitmap_region_from(smap, count as int, bitmap_size as int, j as int) == 0);
        }
        assert(bitmap_size as int <= max_physical_address as int + PAGE_SIZE) by (nonlinear_arith)
            requires
                bitmap_size as int == div_ceil(total_frames as int, 8),
                total_frames as int == div_ceil(max_physical_address as int, PAGE_SIZE as int),
        ;
    }
    let report_total = total_memory;
    if bitmap_address == 0 {
        return (None, PhysicalMemoryReport { total_memory: report_total, bitmap_address: 0, bitmap_size, free_frames: 0 });
    }
    let mut bitmap: Vec<u8> = Vec::new();
    let mut k: usize = 0;
    while k < bitmap_size
        invariant
            k <= bitmap_size,
            bitmap@ == Seq::new(k as nat, |x: int| 0u8),
        decreases bitmap_size - k,
    {
        bitmap.push(0u8);
        k = k + 1;
    }
    proof {
        assert forall|f: int| 0 <= f < total_frames implies #[trigger] bit_of(bitmap@, f) == reserved_by(smap, 0, f) by {
            assert(bitmap@[f / 8] == 0u8);
            lemma_zero_byte((f % 8) as u8);
        }
        assert forall|f: int| total_frames <= f < bitmap_size * 8 implies !#[trigger] bit_of(bitmap@, f) by {
            assert(bitmap@[f / 8] == 0u8);
            lemma_zero_byte((f % 8) as u8);
        }
    }
    let mut e: usize = 0;
    while e < count
        invariant
            boot_info_fits(boot),
            count == boot.memory_map_count,
            smap == boot.memory_map@,
            map@ == smap,
            e <= count,
            bitmap@.len() == bitmap_size,
            bitmap_size == div_ceil(total_frames as int, 8),
            forall|f: int| 0 <= f < total_frames ==> #[trigger] bit_of(bitmap@, f) == reserved_by(smap, e as int, f),
            forall|f: int| total_frames <= f < bitmap_size * 8 ==> !#[trigger] bit_of(bitmap@, f),
        decreases count - e,
    {
        let entry = map[e];
        if entry.memory_type != CONVENTIONAL_MEMORY {
            let start_frame = (entry.physical_start / (PAGE_SIZE as u64)) as usize;
            let end_frame = start_frame + entry.number_of_pages as usize;
            mark_range(&mut bitmap, total_frames, start_frame, end_frame);
        }
        e = e + 1;
    }
    let kernel_start = boot.kernel_base;
    let kernel_end = kernel_start + boot.kernel_size;
    let kstart_frame = (kernel_start / (PAGE_SIZE as u64)) as usize;
    let kend_frame = div_ceil_u64(kernel_end, PAGE_SIZE as u64) as usize;
    mark_range(&mut bitmap, total_frames, kstart_frame, kend_frame);
    let bitmap_end = bitmap_address + bitmap_size as u64;
    let bstart_frame = (bitmap_address / (PAGE_SIZE as u64)) as usize;
    let bend_frame = div_ceil_u64(bitmap_end, PAGE_SIZE as u64) as usize;
    mark_range(&mut bitmap, total_frames, bstart_frame, bend_frame);
    let free_frames = count_free_bits(&bitmap);
    let mut manager = PhysicalMemoryManager::from_bitmap(bitmap, total_frames);
    proof {
        lemma_scan_empty(manager@, manager@.1 as int, 0, None);
    }
    manager.build_free_list();
    (Some(manager), PhysicalMemoryReport { total_memory: report_total, bitmap_address, bitmap_size, free_frames })
}

/// Totals of a prefix grow with the prefix.
pub proof fn lemma_sum_sizes_monotone(map: Seq<MemoryMapEntry>, i: int, j: int)
    requires
        0 <= i <= j,
    ensures
        sum_sizes(map, i) <= sum_sizes(map, j),
    decreases j - i,
{
    if i < j {
        lemma_sum_sizes_monotone(map, i, j - 1);
    }
}

/// A page handed out by allocation is a page-aligned address of an existing frame.
pub proof fn lemma_alloc_result(m: PmmModel)
    requires
        m.1 * PAGE_SIZE <= usize::MAX,
    ensures
        alloc_effect(m).1 matches Ok(a) ==> a % PAGE_SIZE == 0 && (a / PAGE_SIZE) < m.1
            && a == m.3[0].start_frame * PAGE_SIZE,
{
    let (bm, total, allocated, blocks) = m;
    if blocks.len() > 0 {
        let frame = blocks[0].start_frame as int;
        if frame < total && frame / 8 < bm.len() {
            assert((frame * PAGE_SIZE) % (PAGE_SIZE as int) == 0 && (frame * PAGE_SIZE) / (PAGE_SIZE as int) == frame
                && frame * PAGE_SIZE <= total * PAGE_SIZE) by (nonlinear_arith)
                requires frame >= 0, frame < total;
        }
    }
}

/// The installed manager's state, if there is one.
pub open spec fn manager_view(manager: Option<PhysicalMemoryManager>) -> Option<PmmModel> {
    match manager {
        Some(m) => Some(m@),
        None => None,
    }
}

/// What allocating a page does to the installed manager's state.
pub open spec fn manager_alloc(m: Option<PmmModel>) -> (Option<PmmModel>, Result<usize, AllocError>) {
    match m {
        Some(s) => (Some(alloc_effect(s).0), alloc_effect(s).1),
        None => (None, Err(AllocError::InternalError)),
    }
}

/// What freeing the page at `addr` does to the installed manager's state.
pub open spec fn manager_free(m: Option<PmmModel>, addr: usize) -> (Option<PmmModel>, Result<(), AllocError>) {
    match m {
        Some(s) => (Some(free_effect(s, addr).0), free_effect(s, addr).1),
        None => (None, Err(AllocError::InternalError)),
    }
}

/// A well-formed manager's frames all have addresses that fit a machine word.
pub proof fn lemma_wf_bound(m: PhysicalMemoryManager)
    requires
        m.wf(),
    ensures
        m@.1 * PAGE_SIZE <= usize::MAX,
        blocks_nonempty(m@.3),
{
}

/// Whether the installed manager, if any, is well formed and can count one more allocation.
pub open spec fn manager_ready(manager: Option<PhysicalMemoryManager>) -> bool {
    manager matches Some(m) ==> m.wf() && m@.2 < usize::MAX
}

/// Allocates a page from the installed manager; `InternalError` without one.
pub fn allocate_page(manager: &mut Option<PhysicalMemoryManager>) -> (r: Result<usize, AllocError>)
    requires
        manager_ready(*old(manager)),
    ensures
        match *old(manager) {
            Some(m) => *final(manager) matches Some(n) && n.wf() && (n@, r) == alloc_effect(m@),
            None => *final(manager) is None && r == Err::<usize, AllocError>(AllocError::InternalError),
        },
        (manager_view(*final(manager)), r) == manager_alloc(manager_view(*old(manager))),
        *final(manager) matches Some(n) ==> n.wf(),
{
    match manager {
        Some(m) => m.allocate_page(),
        None => Err(AllocError::InternalError),
    }
}

/// Frees a page with the installed manager; `InternalError` without one.
pub fn free_page(manager: &mut Option<PhysicalMemoryManager>, physical_address: usize) -> (r: Result<(), AllocError>)
    requires
        *old(manager) matches Some(m) ==> m.wf() && (frees_frame(m@, physical_address) ==> m@.2 >= 1),
    ensures
        match *old(manager) {
            Some(m) => *final(manager) matches Some(n) && n.wf() && (n@, r) == free_effect(m@, physical_address),
            None => *final(manager) is None && r == Err::<(), AllocError>(AllocError::InternalError),
        },
        (manager_view(*final(manager)), r) == manager_free(manager_view(*old(manager)), physical_address),
        *final(manager) matches Some(n) ==> n.wf(),
{
    match manager {
        Some(m) => m.free_page(physical_address),
        None => Err(AllocError::InternalError),
    }
}

/// Bytes covered by the installed manager's frames; 0 without one.
pub fn get_total_memory(manager: &Option<PhysicalMemoryManager>) -> (r: usize)
    requires
        *manager matches Some(m) ==> m.wf(),
    ensures
        r == match *manager {
            Some(m) => m@.1 * PAGE_SIZE,
            None => 0,
        },
{
    match manager {
        Some(m) => m.get_total_memory(),
        None => 0,
    }
}

/// Bytes of the allocations the installed manager counts; 0 without one.
pub fn get_allocated_memory(manager: &Option<PhysicalMemoryManager>) -> (r: usize)
    requires
        *manager matches Some(m) ==> m.wf() && m@.2 * PAGE_SIZE <= usize::MAX,
    ensures
        r == match *manager {
            Some(m) => m@.2 * PAGE_SIZE,
            None => 0,
        },
{
    match manager {
        Some(m) => m.get_allocated_memory(),
        None => 0,
    }
}

} // verus!
