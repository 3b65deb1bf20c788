use moyuan_kernel::interrupt::{idt_descriptor, Idt, IdtEntry, TimerState, IDT_ENTRIES};
use moyuan_kernel::ipc::pipe::PipeTable;
use moyuan_kernel::ipc::semaphore::SemaphoreTable;
use moyuan_kernel::ipc::shared_memory::SharedMemoryTable;
use moyuan_kernel::mm::address_space::{AddressSpace, PhysicalMemory};
use moyuan_kernel::power;
use moyuan_kernel::power::{cpu, device, PowerError};
use moyuan_kernel::security::user_group::UserGroupTable;
use moyuan_kernel::syscall::dispatch::{complete_unlink, FileRequest, Kernel, Outcome, TransferError};
use moyuan_kernel::syscall::stubs;
use moyuan_kernel::syscall::{decode, string_argument, syscall_number, syscall_return, Syscall, SyscallError};
use moyuan_kernel::task::process::{FileDescriptor, ProcessControlBlock, ProcessState, ProcessTable};
use moyuan_kernel::task::scheduler;

fn pcb(pid: usize, uid: usize) -> ProcessControlBlock {
    ProcessControlBlock {
        pid,
        state: ProcessState::Running,
        priority: 128,
        address_space: AddressSpace::new(),
        stack_pointer: 0x8000,
        program_counter: 0x1000,
        registers: vec![0; 16],
        rflags: 0x202,
        file_descriptors: vec![None; 64],
        next_fd: 3,
        uid,
        gid: uid,
        euid: uid,
        egid: uid,
        next: None,
    }
}

fn kernel() -> Kernel {
    Kernel {
        processes: ProcessTable::new(),
        scheduler: scheduler::init(),
        pmm: None,
        memory: PhysicalMemory::new(0),
        pipes: PipeTable::new(),
        semaphores: SemaphoreTable::new(),
        shared_memory: SharedMemoryTable::new(),
        users: UserGroupTable::new(),
        power: Some(power::init(Err(PowerError::AcpiUnavailable))),
        cpu: cpu::init(2000),
        devices: device::init(),
        pending_switch: None,
    }
}

fn kernel_with_process(uid: usize) -> Kernel {
    let mut k = kernel();
    k.processes.put_process(1, pcb(1, uid));
    k.processes.set_current_pid(Some(1));
    k
}

fn done(o: Outcome) -> Result<usize, SyscallError> {
    match o {
        Outcome::Done(r) => r,
        _ => panic!("the call was expected to finish"),
    }
}

fn call(k: &mut Kernel, n: usize, a: usize, b: usize, c: usize, text: Option<&str>) -> Outcome {
    k.handle_syscall(n, a, b, c, 0, 0, 0, text)
}

#[test]
fn numbering_round_trips() {
    for n in 0..34 {
        assert_eq!(syscall_number(decode(n).unwrap()), n);
    }
    assert_eq!(decode(34), Err(()));
    assert_eq!(decode(3), Ok(Syscall::Open));
    assert_eq!(syscall_number(Syscall::DevicePowerManagement), 33);
    assert_eq!(Syscall::try_from(20usize), Ok(Syscall::SemP));
}

#[test]
fn return_values() {
    assert_eq!(syscall_return(Ok(7)), 7);
    assert_eq!(syscall_return(Err(SyscallError::NotFound)), -1);
    assert_eq!(string_argument(Syscall::Open, &[0x100, 0, 0]), Some(0x100));
    assert_eq!(string_argument(Syscall::SemCreate, &[1, 0]), None);
    assert_eq!(string_argument(Syscall::SemCreate, &[1, 0x200]), Some(0x200));
    assert_eq!(string_argument(Syscall::Brk, &[1]), None);
}

#[test]
fn minimal_table_answers_known_numbers() {
    assert_eq!(stubs::handle_syscall(0, 0, 0, 0, 0, 0, 0), 0);
    assert_eq!(stubs::handle_syscall(10, 0, 0, 0, 0, 0, 0), 0);
    assert_eq!(stubs::handle_syscall(11, 0, 0, 0, 0, 0, 0), -1);
}

#[test]
fn unknown_and_unsupported_calls() {
    let mut k = kernel();
    assert_eq!(done(call(&mut k, 99, 0, 0, 0, None)), Err(SyscallError::InvalidSyscall));
    assert_eq!(done(call(&mut k, 2, 0, 0, 0, None)), Err(SyscallError::NotSupported));
    assert_eq!(done(call(&mut k, 8, 0x5000, 0, 0, None)), Ok(0x5000));
}

#[test]
fn calls_that_need_a_process() {
    let mut k = kernel();
    assert_eq!(done(call(&mut k, 0, 0, 0, 0, None)), Err(SyscallError::InvalidArgument));
    assert_eq!(done(call(&mut k, 23, 0, 0, 0, None)), Err(SyscallError::InvalidArgument));
    assert_eq!(done(call(&mut k, 6, 3, 0, 0, None)), Err(SyscallError::InvalidArgument));
    assert_eq!(done(call(&mut k, 3, 0x100, 0, 0, Some("/a"))), Err(SyscallError::InvalidArgument));
}

#[test]
fn console_writes_and_file_requests() {
    let mut k = kernel_with_process(0);
    assert!(matches!(call(&mut k, 5, 1, 0x4000, 12, None), Outcome::Console { buffer: 0x4000, count: 12 }));
    match call(&mut k, 3, 0x100, 2, 0, Some("/etc/motd")) {
        Outcome::File(FileRequest::Open { path, flags }) => {
            assert_eq!(path, "/etc/motd");
            assert_eq!(flags, 2);
        }
        _ => panic!("open request expected"),
    }
    assert_eq!(k.complete_open(Ok(42), 2), Ok(3));
    match call(&mut k, 4, 3, 0x6000, 16, None) {
        Outcome::File(FileRequest::Read { fd, inode, offset, buffer, count }) => {
            assert_eq!((fd, inode, offset, buffer, count), (3, 42, 0, 0x6000, 16));
        }
        _ => panic!("read request expected"),
    }
    assert_eq!(k.complete_transfer(3, Ok(10)), Ok(10));
    match call(&mut k, 5, 3, 0x6000, 4, None) {
        Outcome::File(FileRequest::Write { offset, .. }) => assert_eq!(offset, 10),
        _ => panic!("write request expected"),
    }
    assert_eq!(k.complete_transfer(3, Err(TransferError::NoInode)), Err(SyscallError::NotFound));
    assert_eq!(k.complete_transfer(3, Err(TransferError::Failed)), Err(SyscallError::InvalidArgument));
    assert_eq!(k.complete_open(Err(()), 0), Err(SyscallError::NotFound));
    // closing frees the slot; reading it then fails
    assert_eq!(done(call(&mut k, 6, 3, 0, 0, None)), Ok(0));
    assert_eq!(done(call(&mut k, 4, 3, 0, 1, None)), Err(SyscallError::InvalidArgument));
    assert_eq!(done(call(&mut k, 6, 1, 0, 0, None)), Err(SyscallError::InvalidArgument));
    assert!(matches!(call(&mut k, 11, 0x100, 0, 0, Some("/tmp/x")), Outcome::File(FileRequest::Unlink { .. })));
    assert_eq!(complete_unlink(Ok(())), Ok(0));
    assert_eq!(complete_unlink(Err(())), Err(SyscallError::NotFound));
}

#[test]
fn descriptors_run_out() {
    let mut k = kernel_with_process(0);
    for fd in 3..64 {
        assert_eq!(k.complete_open(Ok(1), 0), Ok(fd));
    }
    assert_eq!(k.complete_open(Ok(1), 0), Err(SyscallError::ResourceBusy));
    let fd = FileDescriptor { inode: 1, offset: 0, flags: 0 };
    assert_eq!(k.processes.get_process(1).unwrap().file_descriptors[63].unwrap().inode, fd.inode);
}

#[test]
fn pipe_and_semaphore_calls() {
    let mut k = kernel_with_process(0);
    assert!(matches!(call(&mut k, 12, 0x7000, 0, 0, None), Outcome::StorePipe { address: 0x7000, read_fd: 0, write_fd: 1 }));
    assert_eq!(done(call(&mut k, 18, 1, 0x300, 0, Some("mutex"))), Ok(0));
    assert_eq!(done(call(&mut k, 18, 1, 0x300, 0, Some("mutex"))), Err(SyscallError::ResourceBusy));
    assert_eq!(done(call(&mut k, 19, 0x300, 0, 0, Some("mutex"))), Ok(0));
    assert_eq!(done(call(&mut k, 19, 0x300, 0, 0, Some("none"))), Err(SyscallError::NotFound));
    assert_eq!(done(call(&mut k, 20, 0, 0, 0, None)), Ok(0));
    assert_eq!(k.semaphores.semaphore_get_value(0), Ok(0));
    assert_eq!(done(call(&mut k, 21, 0, 0, 0, None)), Ok(0));
    assert_eq!(k.semaphores.semaphore_get_value(0), Ok(1));
    assert_eq!(done(call(&mut k, 22, 0, 0, 0, None)), Ok(0));
    assert_eq!(done(call(&mut k, 22, 0, 0, 0, None)), Err(SyscallError::InvalidArgument));
    assert_eq!(done(call(&mut k, 13, 0, 0, 0, None)), Err(SyscallError::ResourceBusy));
    assert_eq!(done(call(&mut k, 14, 0x300, 0, 0, Some("seg"))), Err(SyscallError::NotFound));
    assert_eq!(done(call(&mut k, 17, 0, 0, 0, None)), Err(SyscallError::InvalidArgument));
    assert_eq!(done(call(&mut k, 15, 0, 0, 0, None)), Err(SyscallError::ResourceBusy));
    assert_eq!(done(call(&mut k, 16, 0, 0x7000_0000_0000, 0, None)), Err(SyscallError::InvalidArgument));
}

#[test]
fn identity_calls() {
    let mut k = kernel_with_process(0);
    assert_eq!(done(call(&mut k, 23, 0, 0, 0, None)), Ok(0));
    assert_eq!(done(call(&mut k, 29, 7, 0, 0, None)), Ok(0));
    assert_eq!(done(call(&mut k, 27, 0, 0, 0, None)), Ok(7));
    assert_eq!(done(call(&mut k, 25, 5, 0, 0, None)), Ok(0));
    assert_eq!(done(call(&mut k, 23, 0, 0, 0, None)), Ok(5));
    assert_eq!(done(call(&mut k, 27, 0, 0, 0, None)), Ok(5));
    // no longer root: changing the user id is refused, the own id is allowed
    assert_eq!(done(call(&mut k, 25, 0, 0, 0, None)), Err(SyscallError::PermissionDenied));
    assert_eq!(done(call(&mut k, 29, 5, 0, 0, None)), Ok(0));
    assert_eq!(done(call(&mut k, 29, 6, 0, 0, None)), Err(SyscallError::PermissionDenied));
    assert_eq!(done(call(&mut k, 30, 3, 0, 0, None)), Err(SyscallError::PermissionDenied));
    assert_eq!(done(call(&mut k, 24, 0, 0, 0, None)), Ok(0));
    assert_eq!(done(call(&mut k, 28, 0, 0, 0, None)), Ok(0));
}

#[test]
fn power_calls() {
    let mut k = kernel();
    assert_eq!(done(call(&mut k, 31, 0, 0, 0, None)), Ok(0));
    assert_eq!(done(call(&mut k, 31, 2, 0, 0, None)), Ok(0));
    assert_eq!(done(call(&mut k, 31, 0, 0, 0, None)), Ok(2));
    assert_eq!(done(call(&mut k, 31, 9, 0, 0, None)), Err(SyscallError::NotSupported));
    assert_eq!(done(call(&mut k, 32, 2, 0, 0, None)), Ok(1000));
    assert_eq!(done(call(&mut k, 33, 0, 0, 0, None)), Ok(6));
}

#[test]
fn fork_without_pages_fails() {
    let mut k = kernel_with_process(0);
    assert_eq!(done(call(&mut k, 1, 0, 0, 0, None)), Err(SyscallError::ResourceBusy));
    assert!(k.processes.get_process(2).is_none());
    assert!(k.pending_switch.is_none());
}

#[test]
fn idt_gates_point_at_their_handlers() {
    let e = IdtEntry::for_handler(0xFFFF_8000_1234_5678);
    assert_eq!(e.target(), 0xFFFF_8000_1234_5678);
    assert_eq!((e.offset_low, e.offset_middle, e.offset_high), (0x5678, 0x1234, 0xFFFF_8000));
    assert_eq!((e.selector, e.attributes), (0x08, 0x8E));
    assert_eq!(IdtEntry::empty().target(), 0);
    let d = idt_descriptor(0x1000);
    assert_eq!((d.limit, d.base), (4095, 0x1000));
    let mut idt = Idt::new();
    assert_eq!(idt.entries().len(), IDT_ENTRIES);
    let handlers: Vec<u64> = (0..15).map(|i| 0x10_0000 + 0x100 * i).collect();
    idt.register_handlers(&handlers);
    assert_eq!(idt.entries()[0].target(), 0x10_0000);
    assert_eq!(idt.entries()[10].target(), 0x10_0900);
    assert_eq!(idt.entries()[32].target(), 0x10_0E00);
    assert_eq!(idt.entries()[9], IdtEntry::empty());
    assert_eq!(idt.entries()[33], IdtEntry::empty());
    idt.register_interrupt_handler(33, 0xABCD);
    assert_eq!(idt.entries()[33].target(), 0xABCD);
}

#[test]
fn timer_reports_and_schedules() {
    let mut t = TimerState::new();
    let mut reports = Vec::new();
    let mut schedules = 0;
    for _ in 0..250 {
        let a = t.tick();
        if let Some(n) = a.report {
            reports.push(n);
        }
        if a.schedule {
            schedules += 1;
        }
    }
    assert_eq!(t.count(), 250);
    assert_eq!(reports, vec![100, 200]);
    assert_eq!(schedules, 25);
}
