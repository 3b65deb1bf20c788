use moyuan_kernel::mm::address_space::{AddressSpace, PhysicalMemory};
use moyuan_kernel::mm::physical::{self, AllocError, PhysicalMemoryManager};
use moyuan_kernel::task;
use moyuan_kernel::task::process::{ProcessControlBlock, ProcessError, ProcessState, ProcessTable};
use moyuan_kernel::task::scheduler::{self, ContextSwitch, Scheduler};
use moyuan_kernel::{BootInfo, FramebufferInfo, MemoryMapEntry};

fn pcb(pid: usize, sp: u64, pc: u64) -> ProcessControlBlock {
    ProcessControlBlock {
        pid,
        state: ProcessState::Ready,
        priority: 128,
        address_space: AddressSpace::new(),
        stack_pointer: sp,
        program_counter: pc,
        registers: vec![0; 16],
        rflags: 0x202,
        file_descriptors: vec![None; 64],
        next_fd: 3,
        uid: 0,
        gid: 0,
        euid: 0,
        egid: 0,
        next: None,
    }
}

/// Memory of eight pages with a four-level walk for the low addresses:
/// root 0x1000, then 0x2000, 0x3000 and the last-level table at 0x4000.
fn walk_memory() -> PhysicalMemory {
    let mut mem = PhysicalMemory::new(8 * 512);
    mem.write_entry(0x1000, 0, 0x2000 | 3);
    mem.write_entry(0x2000, 0, 0x3000 | 3);
    mem.write_entry(0x3000, 0, 0x4000 | 3);
    mem
}

#[test]
fn translate_follows_the_tables() {
    let mut mem = walk_memory();
    mem.write_entry(0x4000, 1, 0x9000 | 3);
    let mut space = AddressSpace::new();
    assert_eq!(space.translate(&mem, 0x1234), None);
    space.set_page_table_root(0x1000);
    assert_eq!(space.page_table_root(), 0x1000);
    assert_eq!(space.translate(&mem, 0x1234), Some(0x9234));
    // an absent last-level entry and an absent upper entry both give none
    assert_eq!(space.translate(&mem, 0x2000), None);
    assert_eq!(space.translate(&mem, 0x40_0000_0000), None);
}

#[test]
fn map_then_translate_then_unmap() {
    let mut mem = walk_memory();
    let mut space = AddressSpace::new();
    space.set_page_table_root(0x1000);
    let mut pmm: Option<PhysicalMemoryManager> = None;
    space.map(&mut pmm, &mut mem, 0x5000, 0xA000, 3);
    assert_eq!(mem.read_entry(0x4000, 5), 0xA003);
    assert_eq!(space.translate(&mem, 0x5678), Some(0xA678));
    space.unmap(&mut mem, 0x5000);
    assert_eq!(space.translate(&mem, 0x5678), None);
    assert_eq!(mem.read_entry(0x4000, 5), 0);
}

#[test]
fn activate_reports_root() {
    let mut space = AddressSpace::new();
    assert_eq!(space.activate(), None);
    space.set_page_table_root(0x3000);
    assert_eq!(space.activate(), Some(0x3000));
}

#[test]
fn address_space_init_without_pages_keeps_root() {
    let mut mem = PhysicalMemory::new(512);
    let mut space = AddressSpace::new();
    let mut pmm: Option<PhysicalMemoryManager> = None;
    space.init(&mut pmm, &mut mem);
    assert_eq!(space.page_table_root(), 0);
}

#[test]
fn allocator_without_free_blocks() {
    let mut m = PhysicalMemoryManager::from_bitmap(vec![0u8; 4], 32);
    assert_eq!(m.get_total_memory(), 32 * 4096);
    assert_eq!(m.get_allocated_memory(), 0);
    assert_eq!(m.allocate_page(), Err(AllocError::OutOfMemory));
    // linking a block needs a page for its node
    assert_eq!(m.add_free_block(4, 8), Err(AllocError::OutOfMemory));
    assert_eq!(m.free_page(4097), Err(AllocError::InvalidAddress));
    assert_eq!(m.free_page(32 * 4096), Err(AllocError::InvalidAddress));
    let mut none: Option<PhysicalMemoryManager> = None;
    assert_eq!(physical::allocate_page(&mut none), Err(AllocError::InternalError));
    assert_eq!(physical::free_page(&mut none, 0), Err(AllocError::InternalError));
    assert_eq!(physical::get_total_memory(&none), 0);
    assert_eq!(physical::get_allocated_memory(&none), 0);
}

fn region(start: u64, pages: u64, memory_type: u32) -> MemoryMapEntry {
    MemoryMapEntry { physical_start: start, virtual_start: 0, number_of_pages: pages, memory_type, attribute: 0 }
}

fn boot(map: Vec<MemoryMapEntry>, kernel_base: u64, kernel_size: u64) -> BootInfo {
    let count = map.len() as u32;
    BootInfo {
        memory_map: map,
        memory_map_count: count,
        framebuffer: FramebufferInfo { address: 0, width: 0, height: 0, pitch: 0, bpp: 0 },
        kernel_base,
        kernel_size,
    }
}

#[test]
fn physical_init_reads_the_memory_map() {
    let info = boot(
        vec![region(0x1000, 15, 7), region(0x10000, 16, 7), region(0x20000, 8, 2)],
        0x10000,
        0x2000,
    );
    let (manager, report) = physical::init(&info);
    assert_eq!(report.total_memory, 39 * 4096);
    assert_eq!(report.bitmap_address, 0x1000);
    assert_eq!(report.bitmap_size, 5);
    // frames 1 (bitmap), 16 and 17 (kernel) and 32 to 39 (reserved) are marked
    assert_eq!(report.free_frames, 40 - 11);
    let manager = Some(manager.unwrap());
    assert_eq!(physical::get_total_memory(&manager), 40 * 4096);
    assert_eq!(physical::get_allocated_memory(&manager), 0);
}

#[test]
fn physical_init_without_room_for_the_bitmap() {
    let info = boot(vec![region(0x1000, 4, 2)], 0, 0);
    let (manager, report) = physical::init(&info);
    assert!(manager.is_none());
    assert_eq!(report.bitmap_address, 0);
    assert_eq!(report.total_memory, 4 * 4096);
}

#[test]
fn process_creation_needs_pages() {
    let mut procs = ProcessTable::new();
    let mut mem = PhysicalMemory::new(0);
    let mut pmm: Option<PhysicalMemoryManager> = None;
    assert_eq!(procs.process_create(&mut pmm, &mut mem, 0x40_0000, 4096), Err(ProcessError::AddressSpaceInitFailed));
    let mut empty = Some(PhysicalMemoryManager::from_bitmap(vec![0u8; 1], 8));
    let mut mem = PhysicalMemory::new(8 * 512);
    assert_eq!(procs.init(&mut empty, &mut mem), Err(ProcessError::AddressSpaceInitFailed));
    assert!(procs.get_process(1).is_none());
    assert!(procs.get_process(2).is_none());
    assert_eq!(procs.get_current_pid(), None);
}

#[test]
fn process_pids_run_out() {
    let mut procs = ProcessTable::new();
    let mut mem = PhysicalMemory::new(0);
    let mut pmm: Option<PhysicalMemoryManager> = None;
    for _ in 1..64 {
        assert_eq!(procs.process_create(&mut pmm, &mut mem, 0, 0), Err(ProcessError::AddressSpaceInitFailed));
    }
    assert_eq!(procs.process_create(&mut pmm, &mut mem, 0, 0), Err(ProcessError::OutOfPids));
}

#[test]
fn table_slots_and_current_process() {
    let mut procs = ProcessTable::new();
    procs.put_process(5, pcb(5, 0x9000, 0x100));
    assert_eq!(procs.get_process(5).unwrap().stack_pointer, 0x9000);
    assert!(procs.get_current_process().is_none());
    procs.set_current_process(5);
    assert_eq!(procs.get_current_pid(), Some(5));
    assert_eq!(procs.get_current_process().unwrap().state, ProcessState::Running);
    procs.set_state(5, ProcessState::Blocked);
    assert_eq!(procs.get_process(5).unwrap().state, ProcessState::Blocked);
    let taken = procs.take_process(5).unwrap();
    assert_eq!(taken.pid, 5);
    assert!(procs.get_process(5).is_none());
}

#[test]
fn scheduler_round_robin() {
    let mut procs = ProcessTable::new();
    procs.put_process(1, pcb(1, 0x1000, 0xA));
    procs.put_process(2, pcb(2, 0x2000, 0xB));
    let mut s = Scheduler::new();
    assert_eq!(s.schedule(&mut procs), None);
    s.add_to_ready_queue(1);
    s.add_to_ready_queue(2);
    let first = s.schedule(&mut procs).unwrap();
    assert_eq!(
        first,
        ContextSwitch { page_table_root: None, save_into: Some(1), new_stack_pointer: 0x1000, new_program_counter: 0xA }
    );
    assert_eq!(procs.get_current_pid(), Some(1));
    assert_eq!(procs.get_process(1).unwrap().state, ProcessState::Running);
    procs.set_state(1, ProcessState::Ready);
    let second = s.schedule(&mut procs).unwrap();
    assert_eq!(second.save_into, Some(2));
    assert_eq!(second.new_program_counter, 0xB);
    procs.set_state(2, ProcessState::Blocked);
    // nothing ready: the recorded process is marked running again
    assert_eq!(s.schedule(&mut procs), None);
    assert_eq!(procs.get_process(2).unwrap().state, ProcessState::Running);
}

#[test]
fn scheduler_removes_first_occurrence_and_skips_empty_slots() {
    let mut procs = ProcessTable::new();
    procs.put_process(3, pcb(3, 0x3000, 0xC));
    let mut s = scheduler::init();
    scheduler::add_to_ready_queue(&mut s, 9);
    scheduler::add_to_ready_queue(&mut s, 3);
    scheduler::add_to_ready_queue(&mut s, 9);
    scheduler::remove_from_ready_queue(&mut s, 9);
    assert_eq!(scheduler::schedule(&mut s, &mut procs).unwrap().save_into, Some(3));
    procs.set_state(3, ProcessState::Ready);
    // pid 9 has no process: it leaves the queue and no switch is asked for
    assert_eq!(scheduler::schedule(&mut s, &mut procs), None);
    let mut none: Option<Scheduler> = None;
    assert_eq!(scheduler::schedule(&mut none, &mut procs), None);
}

#[test]
fn switch_loads_the_root_table_when_there_is_one() {
    let mut procs = ProcessTable::new();
    let mut p = pcb(4, 0x4000, 0xD);
    p.address_space.set_page_table_root(0x7000);
    procs.put_process(4, p);
    let mut s = Scheduler::new();
    s.add_to_ready_queue(4);
    assert_eq!(s.schedule(&mut procs).unwrap().page_table_root, Some(0x7000));
}

#[test]
fn exit_of_an_empty_slot_changes_nothing() {
    let mut procs = ProcessTable::new();
    procs.put_process(2, pcb(2, 0x3000, 0xB));
    let mut s = scheduler::init();
    scheduler::add_to_ready_queue(&mut s, 2);
    let mut pmm: Option<PhysicalMemoryManager> = None;
    procs.set_current_pid(Some(1));
    assert_eq!(procs.process_exit(&mut s, &mut pmm, 1), (None, None));
    assert_eq!(procs.get_current_pid(), Some(1));
    assert!(procs.get_process(2).is_some());
    assert_eq!(s.unwrap().ready_queue(), &[2]);
}

#[test]
fn task_init_without_pages() {
    let mut procs = ProcessTable::new();
    let mut s: Option<Scheduler> = None;
    let mut pmm: Option<PhysicalMemoryManager> = None;
    let mut mem = PhysicalMemory::new(0);
    let r = task::init(&mut procs, &mut s, &mut pmm, &mut mem);
    assert_eq!(r, Err(ProcessError::AddressSpaceInitFailed));
    assert!(s.is_some());
}

#[test]
fn removing_a_queued_pid_undoes_adding_it() {
    let mut procs = ProcessTable::new();
    procs.put_process(1, pcb(1, 0x1000, 0xA));
    let mut s = Scheduler::new();
    s.add_to_ready_queue(1);
    s.add_to_ready_queue(7);
    s.remove_from_ready_queue(7);
    assert_eq!(s.ready_queue(), &[1]);
    assert_eq!(s.current_pid(), None);
    assert_eq!(s.schedule(&mut procs).unwrap().save_into, Some(1));
    assert!(s.ready_queue().is_empty());
    assert_eq!(s.current_pid(), Some(1));
}

#[test]
fn unmapping_one_page_keeps_its_neighbours() {
    let mut mem = walk_memory();
    let mut space = AddressSpace::new();
    space.set_page_table_root(0x1000);
    let mut pmm: Option<PhysicalMemoryManager> = None;
    space.map(&mut pmm, &mut mem, 0x5000, 0xA000, 3);
    space.map(&mut pmm, &mut mem, 0x6000, 0xB000, 3);
    space.map(&mut pmm, &mut mem, 0x4000, 0xC000, 3);
    // mapping the neighbours left the first page as it was
    assert_eq!(space.translate(&mem, 0x5010), Some(0xA010));
    space.unmap(&mut mem, 0x5000);
    assert_eq!(space.translate(&mem, 0x5010), None);
    assert_eq!(space.translate(&mem, 0x6010), Some(0xB010));
    assert_eq!(space.translate(&mem, 0x4FFF), Some(0xCFFF));
}
