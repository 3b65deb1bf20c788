use moyuan_kernel::ipc::pipe::{PipeBuffer, PipeTable, PIPE_BUFFER_SIZE};
use moyuan_kernel::ipc::semaphore::SemaphoreTable;
use moyuan_kernel::ipc::shared_memory::{pages_for, SharedMemoryTable, MAX_SHARED_MEMORY_SIZE};
use moyuan_kernel::ipc::IpcError;
use moyuan_kernel::mm::address_space::AddressSpace;
use moyuan_kernel::mm::physical::PhysicalMemoryManager;
use moyuan_kernel::task::process::{ProcessControlBlock, ProcessState, ProcessTable};
use moyuan_kernel::task::scheduler;

fn pcb(pid: usize) -> ProcessControlBlock {
    ProcessControlBlock {
        pid,
        state: ProcessState::Ready,
        priority: 128,
        address_space: AddressSpace::new(),
        stack_pointer: 0x8000,
        program_counter: 0x1000 * pid as u64,
        registers: vec![0; 16],
        rflags: 0x202,
        file_descriptors: vec![None; 64],
        next_fd: 3,
        uid: 0,
        gid: 0,
        euid: 0,
        egid: 0,
        next: None,
    }
}

fn state_of(procs: &ProcessTable, pid: usize) -> ProcessState {
    procs.get_process(pid).unwrap().state
}

#[test]
fn pipe_buffer_fills_and_drains() {
    let mut b = PipeBuffer::new();
    assert!(b.is_empty());
    let big = vec![7u8; PIPE_BUFFER_SIZE + 10];
    assert_eq!(b.write(&big), PIPE_BUFFER_SIZE);
    assert!(b.is_full());
    assert_eq!(b.write(b"x"), 0);
    let mut out = [0u8; 3];
    assert_eq!(b.read(&mut out), 3);
    assert_eq!(out, [7, 7, 7]);
    b.close();
    assert!(b.is_closed());
    assert_eq!(b.read(&mut out), 0);
}

#[test]
fn anonymous_pipe_round_trip() {
    let mut table = PipeTable::new();
    let (read_fd, write_fd) = table.create_anonymous_pipe().unwrap();
    assert_eq!((read_fd, write_fd), (0, 1));
    assert_eq!(table.write_pipe(write_fd, b"hello"), Ok(5));
    let mut buf = [0u8; 8];
    assert_eq!(table.read_pipe(read_fd, &mut buf), Ok(5));
    assert_eq!(&buf[..5], b"hello");
    assert_eq!(&buf[5..], &[0, 0, 0]);
}

#[test]
fn pipe_bytes_come_out_in_order_across_reads() {
    let mut table = PipeTable::new();
    let (r, w) = table.create_anonymous_pipe().unwrap();
    assert_eq!(table.write_pipe(w, b"abc"), Ok(3));
    assert_eq!(table.write_pipe(w, b"def"), Ok(3));
    let mut two = [0u8; 2];
    assert_eq!(table.read_pipe(r, &mut two), Ok(2));
    assert_eq!(&two, b"ab");
    let mut rest = [0u8; 10];
    assert_eq!(table.read_pipe(r, &mut rest), Ok(4));
    assert_eq!(&rest[..4], b"cdef");
    // nothing left: an empty read moves nothing
    assert_eq!(table.read_pipe(r, &mut rest), Ok(0));
}

#[test]
fn pipe_wrong_end_and_closed_pipe() {
    let mut table = PipeTable::new();
    let (r, w) = table.create_anonymous_pipe().unwrap();
    // the read end takes no bytes, which is reported as an internal error
    assert_eq!(table.write_pipe(r, b"x"), Err(IpcError::InternalError));
    assert_eq!(table.write_pipe(w, b"x"), Ok(1));
    let mut buf = [0u8; 1];
    assert_eq!(table.read_pipe(w, &mut buf), Err(IpcError::InternalError));
    assert_eq!(table.close_pipe(w), Ok(()));
    assert_eq!(table.write_pipe(w, b"y"), Err(IpcError::InvalidArgument));
    // the buffer is closed for the read end as well
    assert_eq!(table.read_pipe(r, &mut buf), Err(IpcError::InternalError));
}

#[test]
fn closed_descriptor_is_invalid() {
    let mut table = PipeTable::new();
    assert_eq!(table.close_pipe(3), Err(IpcError::InvalidArgument));
    let mut buf = [0u8; 1];
    assert_eq!(table.read_pipe(0, &mut buf), Err(IpcError::InvalidArgument));
}

#[test]
fn named_pipe_create_open_and_transfer() {
    let mut table = PipeTable::new();
    let w = table.create_named_pipe("log").unwrap();
    assert_eq!(w, 0);
    assert_eq!(table.create_named_pipe("log"), Err(IpcError::ResourceBusy));
    assert_eq!(table.open_named_pipe("nothing"), Err(IpcError::NotFound));
    let r = table.open_named_pipe("log").unwrap();
    assert_eq!(r, 1);
    assert_eq!(table.write_pipe(w, b"hi"), Ok(2));
    let mut buf = [0u8; 2];
    assert_eq!(table.read_pipe(r, &mut buf), Ok(2));
    assert_eq!(&buf, b"hi");
}

#[test]
fn pipe_descriptors_run_out() {
    let mut table = PipeTable::new();
    for k in 0..32 {
        assert_eq!(table.create_anonymous_pipe(), Ok((2 * k, 2 * k + 1)));
    }
    assert_eq!(table.create_anonymous_pipe(), Err(IpcError::ResourceBusy));
}

#[test]
fn semaphore_create_open_and_value() {
    let mut sems = SemaphoreTable::new();
    assert_eq!(sems.create_semaphore(-1, None), Err(IpcError::InvalidArgument));
    assert_eq!(sems.create_semaphore(1, Some("lock")), Ok(0));
    assert_eq!(sems.create_semaphore(3, None), Ok(1));
    assert_eq!(sems.create_semaphore(0, Some("lock")), Err(IpcError::ResourceBusy));
    assert_eq!(sems.open_semaphore("lock"), Ok(0));
    assert_eq!(sems.open_semaphore("other"), Err(IpcError::NotFound));
    assert_eq!(sems.semaphore_get_value(0), Ok(1));
    assert_eq!(sems.semaphore_get_value(1), Ok(3));
    // the failed duplicate still consumed an id
    assert_eq!(sems.semaphore_get_value(2), Err(IpcError::InvalidArgument));
    assert_eq!(sems.create_semaphore(0, None), Ok(3));
}

#[test]
fn semaphore_wait_then_signal_restores_value() {
    let mut sems = SemaphoreTable::new();
    let mut procs = ProcessTable::new();
    let mut sched = scheduler::init();
    procs.put_process(1, pcb(1));
    procs.set_current_pid(Some(1));
    let s = sems.create_semaphore(2, None).unwrap();
    assert_eq!(sems.semaphore_p(&mut procs, s), Ok(()));
    assert_eq!(sems.semaphore_get_value(s), Ok(1));
    assert_eq!(state_of(&procs, 1), ProcessState::Ready);
    assert_eq!(sems.semaphore_v(&mut procs, &mut sched, s), Ok(()));
    assert_eq!(sems.semaphore_get_value(s), Ok(2));
}

#[test]
fn semaphore_blocks_and_wakes_last_waiter_first() {
    let mut sems = SemaphoreTable::new();
    let mut procs = ProcessTable::new();
    let mut sched = scheduler::init();
    procs.put_process(1, pcb(1));
    procs.put_process(2, pcb(2));
    let s = sems.create_semaphore(0, Some("s")).unwrap();
    procs.set_current_pid(Some(1));
    assert_eq!(sems.semaphore_p(&mut procs, s), Ok(()));
    procs.set_current_pid(Some(2));
    assert_eq!(sems.semaphore_p(&mut procs, s), Ok(()));
    assert_eq!(sems.semaphore_get_value(s), Ok(-2));
    assert_eq!(state_of(&procs, 1), ProcessState::Blocked);
    assert_eq!(state_of(&procs, 2), ProcessState::Blocked);
    assert_eq!(sems.semaphore_v(&mut procs, &mut sched, s), Ok(()));
    assert_eq!(state_of(&procs, 2), ProcessState::Ready);
    assert_eq!(state_of(&procs, 1), ProcessState::Blocked);
    // the woken process is the first the scheduler hands the processor to
    procs.set_current_pid(None);
    let switch = scheduler::schedule(&mut sched, &mut procs).unwrap();
    assert_eq!(switch.save_into, Some(2));
    assert_eq!(switch.new_program_counter, 0x2000);
}

#[test]
fn semaphore_errors() {
    let mut sems = SemaphoreTable::new();
    let mut procs = ProcessTable::new();
    let mut sched = scheduler::init();
    assert_eq!(sems.semaphore_p(&mut procs, 0), Err(IpcError::InvalidArgument));
    assert_eq!(sems.semaphore_v(&mut procs, &mut sched, 0), Err(IpcError::InvalidArgument));
    let s = sems.create_semaphore(1, None).unwrap();
    // no running process: waiting is refused
    assert_eq!(sems.semaphore_p(&mut procs, s), Err(IpcError::InvalidArgument));
    assert_eq!(sems.semaphore_get_value(s), Ok(1));
    assert_eq!(sems.close_semaphore(&mut procs, &mut sched, 7), Err(IpcError::InvalidArgument));
}

#[test]
fn closing_a_semaphore_wakes_every_waiter() {
    let mut sems = SemaphoreTable::new();
    let mut procs = ProcessTable::new();
    let mut sched = scheduler::init();
    procs.put_process(1, pcb(1));
    procs.put_process(2, pcb(2));
    let s = sems.create_semaphore(0, None).unwrap();
    procs.set_current_pid(Some(1));
    sems.semaphore_p(&mut procs, s).unwrap();
    procs.set_current_pid(Some(2));
    sems.semaphore_p(&mut procs, s).unwrap();
    assert_eq!(sems.close_semaphore(&mut procs, &mut sched, s), Ok(()));
    assert_eq!(state_of(&procs, 1), ProcessState::Ready);
    assert_eq!(state_of(&procs, 2), ProcessState::Ready);
    assert_eq!(sems.semaphore_get_value(s), Err(IpcError::InvalidArgument));
    assert_eq!(sems.close_semaphore(&mut procs, &mut sched, s), Err(IpcError::InvalidArgument));
    // woken in the order they waited
    procs.set_current_pid(None);
    assert_eq!(scheduler::schedule(&mut sched, &mut procs).unwrap().save_into, Some(1));
}

#[test]
fn shared_memory_pages_round_up() {
    assert_eq!(pages_for(1), 1);
    assert_eq!(pages_for(4096), 1);
    assert_eq!(pages_for(4097), 2);
    assert_eq!(pages_for(MAX_SHARED_MEMORY_SIZE), 256);
}

#[test]
fn shared_memory_errors() {
    let mut shm = SharedMemoryTable::new();
    let mut pmm: Option<PhysicalMemoryManager> = None;
    assert_eq!(shm.create_shared_memory(&mut pmm, 0, None), Err(IpcError::InvalidArgument));
    assert_eq!(
        shm.create_shared_memory(&mut pmm, MAX_SHARED_MEMORY_SIZE + 1, None),
        Err(IpcError::InvalidArgument)
    );
    // without pages to back it a segment cannot be created
    assert_eq!(shm.create_shared_memory(&mut pmm, 4096, Some("seg")), Err(IpcError::ResourceBusy));
    let mut empty = Some(PhysicalMemoryManager::from_bitmap(vec![0u8; 4], 32));
    assert_eq!(shm.create_shared_memory(&mut empty, 4096, None), Err(IpcError::ResourceBusy));
    assert_eq!(shm.open_shared_memory("seg"), Err(IpcError::NotFound));
    assert_eq!(shm.get_shared_memory_info(0), Err(IpcError::InvalidArgument));
    assert_eq!(shm.close_shared_memory(&mut pmm, 0), Err(IpcError::InvalidArgument));
}
