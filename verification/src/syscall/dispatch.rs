//! The kernel state the system calls act on, and their handlers.
use vstd::prelude::*;
use super::{Syscall, SyscallError, args_read, string_address, syscall_of};
use crate::ipc::pipe::{PipeTable, anonymous_pipe_post};
use crate::ipc::semaphore::{
    SemaphoreTable, create_semaphore_post, open_semaphore_post, semaphore_p_pre, semaphore_p_post,
    semaphore_v_pre, semaphore_v_post, close_semaphore_post,
};
use crate::ipc::shared_memory::{
    SharedMemoryTable, create_shared_memory_pre, create_shared_memory_post, open_shared_memory_pre,
    open_shared_memory_post, map_shared_memory_pre, map_shared_memory_post, unmap_shared_memory_pre,
    unmap_shared_memory_post, close_shared_memory_pre, close_shared_memory_post,
};
use crate::mm::address_space::PhysicalMemory;
use crate::mm::physical::PhysicalMemoryManager;
use crate::power::{SystemPowerManager, power_call_post, syscall_power_management};
use crate::power::cpu::{CpuFrequencyInfo, cpu_call_post, summable, syscall_cpu_frequency};
use crate::power::device::{SimpleDevicePowerManager, device_call_post, syscall_device_power_management};
use crate::security::user_group::{UserGroupTable, MAX_GROUPS};
use crate::task::process::{
    ProcessTable, ProcessControlBlock, FileDescriptor, MAX_PROCESSES, MAX_FILE_DESCRIPTORS, FIRST_FREE_FD,
    process_create_pre, process_create_post, process_exit_pre, process_exit_post,
};
use crate::task::scheduler::{Scheduler, ContextSwitch, add_to_ready_queue};

verus! {

/// The stack size a forked process asks for.
pub const FORK_STACK_SIZE: u64 = 4096;

/// Everything the system calls read and change.
pub struct Kernel {
    pub processes: ProcessTable,
    pub scheduler: Option<Scheduler>,
    pub pmm: Option<PhysicalMemoryManager>,
    pub memory: PhysicalMemory,
    pub pipes: PipeTable,
    pub semaphores: SemaphoreTable,
    pub shared_memory: SharedMemoryTable,
    pub users: UserGroupTable,
    pub power: Option<SystemPowerManager>,
    pub cpu: Option<CpuFrequencyInfo>,
    pub devices: Option<SimpleDevicePowerManager>,
    /// The switch the last exit asked for, for the hardware layer to perform.
    pub pending_switch: Option<ContextSwitch>,
}

/// Work on files that the file service does for a call.
pub enum FileRequest {
    /// Open `path`; the call continues with `complete_open`.
    Open { path: String, flags: usize },
    /// Read up to `count` bytes at `offset` of `inode` into the user buffer;
    /// the call continues with `complete_transfer`.
    Read { fd: usize, inode: usize, offset: usize, buffer: usize, count: usize },
    /// Write `count` bytes of the user buffer at `offset` of `inode`; the call
    /// continues with `complete_transfer`.
    Write { fd: usize, inode: usize, offset: usize, buffer: usize, count: usize },
    /// Remove `path`; the call continues with `complete_unlink`.
    Unlink { path: String },
}

/// What a call comes to.
pub enum Outcome {
    /// The call is over with this result.
    Done(Result<usize, SyscallError>),
    /// Print `count` bytes of the user buffer; the call then returns `count`.
    Console { buffer: usize, count: usize },
    /// Store the two descriptors of a new pipe in the user array at `address`;
    /// the call then returns 0.
    StorePipe { address: usize, read_fd: usize, write_fd: usize },
    /// Hand the work to the file service.
    File(FileRequest),
}

/// Why the file service could not move data.
#[derive(Debug, Clone, Copy, PartialEq, Eq, Structural)]
pub enum TransferError {
    /// The descriptor's inode is gone.
    NoInode,
    /// The read or write itself failed.
    Failed,
}

/// Finishes a removal once the file service answered.
pub fn complete_unlink(removed: Result<(), ()>) -> (r: Result<usize, SyscallError>)
    ensures
        r == match removed {
            Ok(_) => Ok::<usize, SyscallError>(0),
            Err(_) => Err(SyscallError::NotFound),
        },
{
    match removed {
        Ok(()) => Ok(0),
        Err(()) => Err(SyscallError::NotFound),
    }
}

/// The running process of `k`, when one is recorded and exists.
pub open spec fn current_process(k: Kernel) -> Option<ProcessControlBlock> {
    match k.processes.current_pid() {
        Some(c) => k.processes.slots()[c as int],
        None => None,
    }
}

/// `new` keeps every part of `old` whose flag is false.
pub open spec fn keeps(old: Kernel, new: Kernel, procs: bool, sched: bool, pmm: bool, mem: bool, ipc: bool, power: bool, pending: bool) -> bool {
    &&& !procs ==> new.processes == old.processes
    &&& !sched ==> new.scheduler == old.scheduler
    &&& !pmm ==> new.pmm == old.pmm
    &&& !mem ==> new.memory == old.memory
    &&& !ipc ==> new.pipes == old.pipes && new.semaphores == old.semaphores && new.shared_memory == old.shared_memory
    &&& !power ==> new.power == old.power && new.cpu == old.cpu && new.devices == old.devices
    &&& !pending ==> new.pending_switch == old.pending_switch
    &&& new.users == old.users
}

/// Only the pipes changed.
pub open spec fn keeps_but_pipes(old: Kernel, new: Kernel) -> bool {
    &&& keeps(old, new, false, false, false, false, true, false, false)
    &&& new.semaphores == old.semaphores && new.shared_memory == old.shared_memory
}

/// Only the semaphores changed, and, as flagged, the processes and scheduler.
pub open spec fn keeps_but_semaphores(old: Kernel, new: Kernel, procs: bool, sched: bool) -> bool {
    &&& keeps(old, new, procs, sched, false, false, true, false, false)
    &&& new.pipes == old.pipes && new.shared_memory == old.shared_memory
}

/// Only the segments changed, and, as flagged, the processes, allocator and memory.
pub open spec fn keeps_but_segments(old: Kernel, new: Kernel, procs: bool, pmm: bool, mem: bool) -> bool {
    &&& keeps(old, new, procs, false, pmm, mem, true, false, false)
    &&& new.pipes == old.pipes && new.semaphores == old.semaphores
}

/// `q` is the process `p` with its `uid`, `gid`, `euid` and `egid` replaced.
pub open spec fn with_ids(p: ProcessControlBlock, q: ProcessControlBlock, uid: usize, gid: usize, euid: usize, egid: usize) -> bool {
    &&& q.uid == uid && q.gid == gid && q.euid == euid && q.egid == egid
    &&& (ProcessControlBlock { uid: p.uid, gid: p.gid, euid: p.euid, egid: p.egid, ..q }) == p
}

/// `q` is the process `p` with descriptor slot `fd` set to `d` and the next
/// descriptor set to `next`.
pub open spec fn with_descriptor(p: ProcessControlBlock, q: ProcessControlBlock, fd: usize, d: Option<FileDescriptor>, next: usize) -> bool {
    &&& q.file_descriptors@ == p.file_descriptors@.update(fd as int, d)
    &&& q.next_fd == next
    &&& (ProcessControlBlock { file_descriptors: p.file_descriptors, next_fd: p.next_fd, ..q }) == p
}

/// The scheduler `news` is `olds` with `pid` queued, when there is one.
pub open spec fn queued(olds: Option<Scheduler>, news: Option<Scheduler>, pid: usize) -> bool {
    match olds {
        Some(s) => news matches Some(t) && t.queue() == s.queue().push(pid) && t.current() == s.current(),
        None => news is None,
    }
}

/// Slot `c` of `new` holds a process and is the only slot that differs from
/// `old`; the pid counters are kept.
pub open spec fn replaced(old: ProcessTable, new: ProcessTable, c: usize) -> bool {
    &&& new.slots()[c as int] is Some
    &&& new.slots() == old.slots().update(c as int, new.slots()[c as int])
    &&& new.next_pid() == old.next_pid()
    &&& new.current_pid() == old.current_pid()
}

/// The name argument of a call whose name pointer is `ptr`: none for a null pointer.
pub open spec fn name_arg(ptr: usize, text: Option<&str>) -> Option<&str> {
    if ptr != 0 { text } else { None }
}

/// `Ok(v)` stays, every error becomes `e`.
pub open spec fn or_error(r: Result<usize, crate::ipc::IpcError>, e: SyscallError) -> Result<usize, SyscallError> {
    match r {
        Ok(v) => Ok(v),
        Err(_) => Err(e),
    }
}

/// `Ok(())` becomes `Ok(0)`, every error becomes `e`.
pub open spec fn unit_or_error(r: Result<(), crate::ipc::IpcError>, e: SyscallError) -> Result<usize, SyscallError> {
    match r {
        Ok(_) => Ok(0),
        Err(_) => Err(e),
    }
}

/// A power result: negative values fail with `NotSupported`.
pub open spec fn power_result(r: isize) -> Result<usize, SyscallError> {
    if r < 0 { Err(SyscallError::NotSupported) } else { Ok(r as usize) }
}

/// What call `s` needs of the kernel and its arguments beyond their number
/// and the string it reads.
pub open spec fn syscall_pre(k: Kernel, s: Syscall, a: Seq<usize>, text: Option<&str>) -> bool {
    match s {
        Syscall::Exit => current_process(k) matches Some(p) ==> process_exit_pre(k.processes, k.scheduler, k.pmm, p.pid),
        Syscall::Fork => current_process(k) is Some ==> process_create_pre(k.processes, k.pmm, k.memory@),
        Syscall::Read => current_process(k) is Some ==> a[0] < MAX_FILE_DESCRIPTORS,
        Syscall::Write => a[0] != 1 && a[0] != 2 && current_process(k) is Some ==> a[0] < MAX_FILE_DESCRIPTORS,
        Syscall::ShmCreate => create_shared_memory_pre(k.shared_memory, k.pmm, a[0], name_arg(a[1], text)),
        Syscall::ShmOpen => open_shared_memory_pre(k.shared_memory, text->0),
        Syscall::ShmMap => match k.processes.current_pid() {
            Some(pid) => map_shared_memory_pre(k.shared_memory, k.processes, k.pmm, k.memory@, a[0], pid),
            None => true,
        },
        Syscall::ShmUnmap => match k.processes.current_pid() {
            Some(pid) => unmap_shared_memory_pre(k.shared_memory, k.processes, k.memory@, a[0], pid, a[1]),
            None => true,
        },
        Syscall::ShmClose => close_shared_memory_pre(k.shared_memory, k.pmm, a[0]),
        Syscall::SemP => semaphore_p_pre(k.semaphores, k.processes, a[0]),
        Syscall::SemV => semaphore_v_pre(k.semaphores, k.processes, a[0]),
        Syscall::SetEgid => current_process(k) matches Some(p) && p.uid != 0 ==> ((a[0] as u32) as int) < MAX_GROUPS,
        Syscall::CpuFrequency => summable(k.cpu),
        _ => true,
    }
}

/// Whether call `s` can be made on `k`: the kernel is ready, the arguments it
/// reads are there, so is the string it reads, and its own needs hold.
pub open spec fn call_ok(k: Kernel, s: Syscall, a: Seq<usize>, text: Option<&str>) -> bool {
    &&& k.ready()
    &&& a.len() >= args_read(s)
    &&& string_address(s, a) is Some ==> text is Some
    &&& syscall_pre(k, s, a, text)
}

/// What call `s` with arguments `a` and string `text` does: the kernel goes
/// from `old` to `new` and the call comes to `out`.
pub open spec fn syscall_post(old: Kernel, new: Kernel, s: Syscall, a: Seq<usize>, text: Option<&str>, out: Outcome) -> bool {
    let none = keeps(old, new, false, false, false, false, false, false, false);
    let invalid = Outcome::Done(Err(SyscallError::InvalidArgument));
    match s {
        Syscall::Exit => match current_process(old) {
            Some(p) => exists|r0: (Option<Result<(), crate::mm::physical::AllocError>>, Option<ContextSwitch>)|
                #[trigger] process_exit_post(old.processes, new.processes, old.scheduler, new.scheduler, old.pmm, new.pmm, p.pid, r0)
                && new.pending_switch == r0.1 && out == Outcome::Done(Ok(0))
                && keeps(old, new, true, true, true, false, false, false, true),
            None => none && out == invalid,
        },
        Syscall::Fork => match current_process(old) {
            Some(p) => exists|r0: Result<usize, crate::task::process::ProcessError>|
                #[trigger] process_create_post(old.processes, new.processes, old.pmm, new.pmm, old.memory@, new.memory@, p.program_counter, r0)
                && match r0 {
                    Ok(c) => queued(old.scheduler, new.scheduler, c) && out == Outcome::Done(Ok(c)),
                    Err(_) => new.scheduler == old.scheduler && out == Outcome::Done(Err(SyscallError::ResourceBusy)),
                }
                && keeps(old, new, true, true, true, true, false, false, false),
            None => none && out == invalid,
        },
        Syscall::Exec | Syscall::Waitpid | Syscall::Mmap | Syscall::Munmap =>
            none && out == Outcome::Done(Err(SyscallError::NotSupported)),
        Syscall::Open => none && match current_process(old) {
            Some(_) => out matches Outcome::File(FileRequest::Open { path, flags }) && path@ == text->0@ && flags == a[1],
            None => out == invalid,
        },
        Syscall::Read => none && match current_process(old) {
            Some(p) => match p.file_descriptors@[a[0] as int] {
                Some(d) => out matches Outcome::File(FileRequest::Read { fd, inode, offset, buffer, count })
                    && fd == a[0] && inode == d.inode && offset == d.offset && buffer == a[1] && count == a[2],
                None => out == invalid,
            },
            None => out == invalid,
        },
        Syscall::Write => none && if a[0] == 1 || a[0] == 2 {
            out == Outcome::Console { buffer: a[1], count: a[2] }
        } else {
            match current_process(old) {
                Some(p) => match p.file_descriptors@[a[0] as int] {
                    Some(d) => out matches Outcome::File(FileRequest::Write { fd, inode, offset, buffer, count })
                        && fd == a[0] && inode == d.inode && offset == d.offset && buffer == a[1] && count == a[2],
                    None => out == invalid,
                },
                None => out == invalid,
            }
        },
        Syscall::Close => match current_process(old) {
            Some(p) => if FIRST_FREE_FD <= a[0] < MAX_FILE_DESCRIPTORS {
                let c = old.processes.current_pid()->0;
                &&& out == Outcome::Done(Ok(0))
                &&& replaced(old.processes, new.processes, c)
                &&& with_descriptor(p, new.processes.slots()[c as int]->0, a[0], None, p.next_fd)
                &&& keeps(old, new, true, false, false, false, false, false, false)
            } else {
                none && out == invalid
            },
            None => none && out == invalid,
        },
        Syscall::Brk => none && out == Outcome::Done(Ok(a[0])),
        Syscall::Unlink => none && (out matches Outcome::File(FileRequest::Unlink { path }) && path@ == text->0@),
        Syscall::Pipe => exists|r0: Result<(usize, usize), crate::ipc::IpcError>|
            #[trigger] anonymous_pipe_post(old.pipes, new.pipes, r0) && keeps_but_pipes(old, new) && match r0 {
                Ok((rf, wf)) => out == Outcome::StorePipe { address: a[0], read_fd: rf, write_fd: wf },
                Err(_) => out == Outcome::Done(Err(SyscallError::ResourceBusy)),
            },
        Syscall::ShmCreate => exists|r0: Result<usize, crate::ipc::IpcError>|
            #[trigger] create_shared_memory_post(old.shared_memory, new.shared_memory, old.pmm, new.pmm, a[0], name_arg(a[1], text), r0)
            && keeps_but_segments(old, new, false, true, false) && out == Outcome::Done(or_error(r0, SyscallError::ResourceBusy)),
        Syscall::ShmOpen => exists|r0: Result<usize, crate::ipc::IpcError>|
            #[trigger] open_shared_memory_post(old.shared_memory, new.shared_memory, text->0, r0)
            && keeps_but_segments(old, new, false, false, false) && out == Outcome::Done(or_error(r0, SyscallError::NotFound)),
        Syscall::ShmMap => match old.processes.current_pid() {
            Some(pid) => exists|r0: Result<usize, crate::ipc::IpcError>|
                #[trigger] map_shared_memory_post(old.shared_memory, old.processes, new.processes, old.pmm, new.pmm, old.memory@, new.memory@, a[0], pid, r0)
                && keeps_but_segments(old, new, true, true, true) && new.shared_memory == old.shared_memory
                && out == Outcome::Done(or_error(r0, SyscallError::ResourceBusy)),
            None => none && out == invalid,
        },
        Syscall::ShmUnmap => match old.processes.current_pid() {
            Some(pid) => exists|r0: Result<(), crate::ipc::IpcError>|
                #[trigger] unmap_shared_memory_post(old.shared_memory, old.processes, old.memory@, new.memory@, a[0], pid, a[1], r0)
                && keeps(old, new, false, false, false, true, false, false, false)
                && out == Outcome::Done(unit_or_error(r0, SyscallError::InvalidArgument)),
            None => none && out == invalid,
        },
        Syscall::ShmClose => exists|r0: Result<(), crate::ipc::IpcError>|
            #[trigger] close_shared_memory_post(old.shared_memory, new.shared_memory, old.pmm, new.pmm, a[0], r0)
            && keeps_but_segments(old, new, false, true, false) && out == Outcome::Done(unit_or_error(r0, SyscallError::InvalidArgument)),
        Syscall::SemCreate => exists|r0: Result<usize, crate::ipc::IpcError>|
            #[trigger] create_semaphore_post(old.semaphores, new.semaphores, a[0] as isize, name_arg(a[1], text), r0)
            && keeps_but_semaphores(old, new, false, false) && out == Outcome::Done(or_error(r0, SyscallError::ResourceBusy)),
        Syscall::SemOpen => exists|r0: Result<usize, crate::ipc::IpcError>|
            #[trigger] open_semaphore_post(old.semaphores, text->0, r0)
            && none && out == Outcome::Done(or_error(r0, SyscallError::NotFound)),
        Syscall::SemP => exists|r0: Result<(), crate::ipc::IpcError>|
            #[trigger] semaphore_p_post(old.semaphores, new.semaphores, old.processes, new.processes, a[0], r0)
            && keeps_but_semaphores(old, new, true, false) && out == Outcome::Done(unit_or_error(r0, SyscallError::InvalidArgument)),
        Syscall::SemV => exists|r0: Result<(), crate::ipc::IpcError>|
            #[trigger] semaphore_v_post(old.semaphores, new.semaphores, old.processes, new.processes, old.scheduler, new.scheduler, a[0], r0)
            && keeps_but_semaphores(old, new, true, true) && out == Outcome::Done(unit_or_error(r0, SyscallError::InvalidArgument)),
        Syscall::SemClose => exists|r0: Result<(), crate::ipc::IpcError>|
            #[trigger] close_semaphore_post(old.semaphores, new.semaphores, old.processes, new.processes, old.scheduler, new.scheduler, a[0], r0)
            && keeps_but_semaphores(old, new, true, true) && out == Outcome::Done(unit_or_error(r0, SyscallError::InvalidArgument)),
        Syscall::GetUid => none && out == Outcome::Done(match current_process(old) { Some(p) => Ok(p.uid), None => Err(SyscallError::InvalidArgument) }),
        Syscall::GetGid => none && out == Outcome::Done(match current_process(old) { Some(p) => Ok(p.gid), None => Err(SyscallError::InvalidArgument) }),
        Syscall::GetEuid => none && out == Outcome::Done(match current_process(old) { Some(p) => Ok(p.euid), None => Err(SyscallError::InvalidArgument) }),
        Syscall::GetEgid => none && out == Outcome::Done(match current_process(old) { Some(p) => Ok(p.egid), None => Err(SyscallError::InvalidArgument) }),
        Syscall::SetUid | Syscall::SetGid | Syscall::SetEuid | Syscall::SetEgid => match current_process(old) {
            Some(p) => {
                let v = a[0];
                let allowed = match s {
                    Syscall::SetUid | Syscall::SetGid => p.uid == 0,
                    Syscall::SetEuid => p.uid == 0 || p.uid == v,
                    _ => p.uid == 0 || old.users.in_group(p.uid as u32, v as u32),
                };
                let (uid, gid, euid, egid) = match s {
                    Syscall::SetUid => (v, p.gid, v, p.egid),
                    Syscall::SetGid => (p.uid, v, p.euid, v),
                    Syscall::SetEuid => (p.uid, p.gid, v, p.egid),
                    _ => (p.uid, p.gid, p.euid, v),
                };
                if allowed {
                    let c = old.processes.current_pid()->0;
                    &&& out == Outcome::Done(Ok(0))
                    &&& replaced(old.processes, new.processes, c)
                    &&& with_ids(p, new.processes.slots()[c as int]->0, uid, gid, euid, egid)
                    &&& keeps(old, new, true, false, false, false, false, false, false)
                } else {
                    none && out == Outcome::Done(Err(SyscallError::PermissionDenied))
                }
            },
            None => none && out == invalid,
        },
        Syscall::PowerManagement => exists|r0: isize| #[trigger] power_call_post(old.power, new.power, a[0] as u64, a[1] as u64, r0)
            && keeps(old, new, false, false, false, false, false, true, false) && new.cpu == old.cpu && new.devices == old.devices
            && out == Outcome::Done(power_result(r0)),
        Syscall::CpuFrequency => exists|r0: isize| #[trigger] cpu_call_post(old.cpu, new.cpu, a[0] as u64, a[1] as u64, r0)
            && keeps(old, new, false, false, false, false, false, true, false) && new.power == old.power && new.devices == old.devices
            && out == Outcome::Done(power_result(r0)),
        Syscall::DevicePowerManagement => exists|r0: isize| #[trigger] device_call_post(old.devices, new.devices, a[0] as u64, a[1] as u64, a[2] as u64, r0)
            && keeps(old, new, false, false, false, false, false, true, false) && new.power == old.power && new.cpu == old.cpu
            && out == Outcome::Done(power_result(r0)),
    }
}

impl Kernel {
    /// The parts are well formed and the recorded running pid is a slot.
    pub open spec fn ready(&self) -> bool {
        &&& self.processes.wf()
        &&& self.processes.current_pid() matches Some(c) ==> c < MAX_PROCESSES
        &&& self.pmm matches Some(m) ==> m.wf()
        &&& self.pipes.wf()
        &&& self.semaphores.wf()
        &&& self.shared_memory.wf()
        &&& self.users.wf()
    }

    /// The running process, when one is recorded and exists.
    fn current(&self) -> (r: Option<&ProcessControlBlock>)
        requires
            self.ready(),
        ensures
            match current_process(*self) {
                Some(p) => r matches Some(q) && *q == p,
                None => r is None,
            },
    {
        self.processes.get_current_process()
    }

    /// Ends the running process; the switch it leads to is kept in `pending_switch`.
    fn sys_exit(&mut self, args: &[usize], text: Option<&str>) -> (out: Outcome)
        requires
            call_ok(*old(self), Syscall::Exit, args@, text),
        ensures
            final(self).ready(),
            syscall_post(*old(self), *final(self), Syscall::Exit, args@, text, out),
    {
        let pid = match self.current() {
            Some(p) => p.pid,
            None => return Outcome::Done(Err(SyscallError::InvalidArgument)),
        };
        let r = self.processes.process_exit(&mut self.scheduler, &mut self.pmm, pid);
        self.pending_switch = r.1;
        Outcome::Done(Ok(0))
    }

    /// Creates a process that starts where the running one is and queues it.
    fn sys_fork(&mut self, args: &[usize], text: Option<&str>) -> (out: Outcome)
        requires
            call_ok(*old(self), Syscall::Fork, args@, text),
        ensures
            final(self).ready(),
            syscall_post(*old(self), *final(self), Syscall::Fork, args@, text, out),
    {
        let entry_point = match self.current() {
            Some(p) => p.program_counter,
            None => return Outcome::Done(Err(SyscallError::InvalidArgument)),
        };
        let r = self.processes.process_create(&mut self.pmm, &mut self.memory, entry_point, FORK_STACK_SIZE);
        assert(process_create_post(old(self).processes, self.processes, old(self).pmm, self.pmm, old(self).memory@, self.memory@, entry_point, r));
        match r {
            Ok(child) => {
                add_to_ready_queue(&mut self.scheduler, child);
                assert(queued(old(self).scheduler, self.scheduler, child));
                assert(keeps(*old(self), *self, true, true, true, true, false, false, false));
                assert(process_create_post(old(self).processes, self.processes, old(self).pmm, self.pmm, old(self).memory@, self.memory@, entry_point, r));
                Outcome::Done(Ok(child))
            },
            Err(_) => Outcome::Done(Err(SyscallError::ResourceBusy)),
        }
    }

    /// Asks the file service to open the path, for the running process.
    fn sys_open(&mut self, args: &[usize], text: Option<&str>) -> (out: Outcome)
        requires
            call_ok(*old(self), Syscall::Open, args@, text),
        ensures
            final(self).ready(),
            syscall_post(*old(self), *final(self), Syscall::Open, args@, text, out),
    {
        let flags = args[1];
        match self.current() {
            Some(_) => {
                let path = text.unwrap().to_owned();
                Outcome::File(FileRequest::Open { path, flags })
            },
            None => Outcome::Done(Err(SyscallError::InvalidArgument)),
        }
    }

    /// Finds the open file behind descriptor `fd` of the running process.
    fn descriptor(&self, fd: usize) -> (r: Option<FileDescriptor>)
        requires
            self.ready(),
            current_process(*self) is Some ==> fd < MAX_FILE_DESCRIPTORS,
        ensures
            r == match current_process(*self) {
                Some(p) => p.file_descriptors@[fd as int],
                None => None,
            },
    {
        match self.current() {
            Some(p) => p.file_descriptors[fd],
            None => None,
        }
    }

    /// Asks the file service to read through a descriptor of the running process.
    fn sys_read(&mut self, args: &[usize], text: Option<&str>) -> (out: Outcome)
        requires
            call_ok(*old(self), Syscall::Read, args@, text),
        ensures
            final(self).ready(),
            syscall_post(*old(self), *final(self), Syscall::Read, args@, text, out),
    {
        let fd = args[0];
        match self.descriptor(fd) {
            Some(d) => Outcome::File(FileRequest::Read { fd, inode: d.inode, offset: d.offset, buffer: args[1], count: args[2] }),
            None => Outcome::Done(Err(SyscallError::InvalidArgument)),
        }
    }

    /// Standard output and error go to the console; other descriptors to the file service.
    fn sys_write(&mut self, args: &[usize], text: Option<&str>) -> (out: Outcome)
        requires
            call_ok(*old(self), Syscall::Write, args@, text),
        ensures
            final(self).ready(),
            syscall_post(*old(self), *final(self), Syscall::Write, args@, text, out),
    {
        let fd = args[0];
        if fd == 1 || fd == 2 {
            return Outcome::Console { buffer: args[1], count: args[2] };
        }
        match self.descriptor(fd) {
            Some(d) => Outcome::File(FileRequest::Write { fd, inode: d.inode, offset: d.offset, buffer: args[1], count: args[2] }),
            None => Outcome::Done(Err(SyscallError::InvalidArgument)),
        }
    }

    /// Closes descriptor `args[0]` of the running process; the standard
    /// streams and descriptors past the table cannot be closed.
    fn sys_close(&mut self, args: &[usize], text: Option<&str>) -> (out: Outcome)
        requires
            call_ok(*old(self), Syscall::Close, args@, text),
        ensures
            final(self).ready(),
            syscall_post(*old(self), *final(self), Syscall::Close, args@, text, out),
    {
        let fd = args[0];
        let c = match self.processes.get_current_pid() {
            Some(c) => c,
            None => return Outcome::Done(Err(SyscallError::InvalidArgument)),
        };
        if self.current().is_none() {
            return Outcome::Done(Err(SyscallError::InvalidArgument));
        }
        if !(FIRST_FREE_FD <= fd && fd < MAX_FILE_DESCRIPTORS) {
            return Outcome::Done(Err(SyscallError::InvalidArgument));
        }
        let mut p = self.processes.take_process(c).unwrap();
        let ghost p0 = p;
        p.file_descriptors.set(fd, None);
        assert(with_descriptor(p0, p, fd, None, p0.next_fd));
        self.processes.put_process(c, p);
        assert(self.processes.slots() =~= old(self).processes.slots().update(c as int, self.processes.slots()[c as int]));
        Outcome::Done(Ok(0))
    }

    /// Asks the file service to remove the path.
    fn sys_unlink(&mut self, args: &[usize], text: Option<&str>) -> (out: Outcome)
        requires
            call_ok(*old(self), Syscall::Unlink, args@, text),
        ensures
            final(self).ready(),
            syscall_post(*old(self), *final(self), Syscall::Unlink, args@, text, out),
    {
        let path = text.unwrap().to_owned();
        Outcome::File(FileRequest::Unlink { path })
    }

    /// Creates an anonymous pipe whose descriptors go to the user array `args[0]`.
    fn sys_pipe(&mut self, args: &[usize], text: Option<&str>) -> (out: Outcome)
        requires
            call_ok(*old(self), Syscall::Pipe, args@, text),
        ensures
            final(self).ready(),
            syscall_post(*old(self), *final(self), Syscall::Pipe, args@, text, out),
    {
        let r = self.pipes.create_anonymous_pipe();
        assert(anonymous_pipe_post(old(self).pipes, self.pipes, r));
        match r {
            Ok((read_fd, write_fd)) => Outcome::StorePipe { address: args[0], read_fd, write_fd },
            Err(_) => Outcome::Done(Err(SyscallError::ResourceBusy)),
        }
    }

    /// Creates a segment of `args[0]` bytes, named by the string when `args[1]` is not null.
    fn sys_shm_create(&mut self, args: &[usize], text: Option<&str>) -> (out: Outcome)
        requires
            call_ok(*old(self), Syscall::ShmCreate, args@, text),
        ensures
            final(self).ready(),
            syscall_post(*old(self), *final(self), Syscall::ShmCreate, args@, text, out),
    {
        let name = if args[1] != 0 { text } else { None };
        let r = self.shared_memory.create_shared_memory(&mut self.pmm, args[0], name);
        assert(create_shared_memory_post(old(self).shared_memory, self.shared_memory, old(self).pmm, self.pmm, args[0], name, r));
        match r {
            Ok(id) => Outcome::Done(Ok(id)),
            Err(_) => Outcome::Done(Err(SyscallError::ResourceBusy)),
        }
    }

    /// Opens the segment named by the string.
    fn sys_shm_open(&mut self, args: &[usize], text: Option<&str>) -> (out: Outcome)
        requires
            call_ok(*old(self), Syscall::ShmOpen, args@, text),
        ensures
            final(self).ready(),
            syscall_post(*old(self), *final(self), Syscall::ShmOpen, args@, text, out),
    {
        let name = text.unwrap();
        let r = self.shared_memory.open_shared_memory(name);
        assert(open_shared_memory_post(old(self).shared_memory, self.shared_memory, name, r));
        match r {
            Ok(id) => Outcome::Done(Ok(id)),
            Err(_) => Outcome::Done(Err(SyscallError::NotFound)),
        }
    }

    /// Maps segment `args[0]` into the running process.
    fn sys_shm_map(&mut self, args: &[usize], text: Option<&str>) -> (out: Outcome)
        requires
            call_ok(*old(self), Syscall::ShmMap, args@, text),
        ensures
            final(self).ready(),
            syscall_post(*old(self), *final(self), Syscall::ShmMap, args@, text, out),
    {
        let pid = match self.processes.get_current_pid() {
            Some(pid) => pid,
            None => return Outcome::Done(Err(SyscallError::InvalidArgument)),
        };
        let r = self.shared_memory.map_shared_memory(&mut self.processes, &mut self.pmm, &mut self.memory, args[0], pid);
        assert(map_shared_memory_post(self.shared_memory, old(self).processes, self.processes, old(self).pmm, self.pmm,
            old(self).memory@, self.memory@, args[0], pid, r));
        match r {
            Ok(va) => Outcome::Done(Ok(va)),
            Err(_) => Outcome::Done(Err(SyscallError::ResourceBusy)),
        }
    }

    /// Unmaps segment `args[0]` at `args[1]` in the running process.
    fn sys_shm_unmap(&mut self, args: &[usize], text: Option<&str>) -> (out: Outcome)
        requires
            call_ok(*old(self), Syscall::ShmUnmap, args@, text),
        ensures
            final(self).ready(),
            syscall_post(*old(self), *final(self), Syscall::ShmUnmap, args@, text, out),
    {
        let pid = match self.processes.get_current_pid() {
            Some(pid) => pid,
            None => return Outcome::Done(Err(SyscallError::InvalidArgument)),
        };
        let r = self.shared_memory.unmap_shared_memory(&self.processes, &mut self.memory, args[0], pid, args[1]);
        assert(unmap_shared_memory_post(self.shared_memory, self.processes, old(self).memory@, self.memory@, args[0], pid, args[1], r));
        match r {
            Ok(()) => Outcome::Done(Ok(0)),
            Err(_) => Outcome::Done(Err(SyscallError::InvalidArgument)),
        }
    }

    /// Closes segment `args[0]`.
    fn sys_shm_close(&mut self, args: &[usize], text: Option<&str>) -> (out: Outcome)
        requires
            call_ok(*old(self), Syscall::ShmClose, args@, text),
        ensures
            final(self).ready(),
            syscall_post(*old(self), *final(self), Syscall::ShmClose, args@, text, out),
    {
        let r = self.shared_memory.close_shared_memory(&mut self.pmm, args[0]);
        assert(close_shared_memory_post(old(self).shared_memory, self.shared_memory, old(self).pmm, self.pmm, args[0], r));
        match r {
            Ok(()) => Outcome::Done(Ok(0)),
            Err(_) => Outcome::Done(Err(SyscallError::InvalidArgument)),
        }
    }

    /// Creates a semaphore with value `args[0]`, named by the string when `args[1]` is not null.
    fn sys_sem_create(&mut self, args: &[usize], text: Option<&str>) -> (out: Outcome)
        requires
            call_ok(*old(self), Syscall::SemCreate, args@, text),
        ensures
            final(self).ready(),
            syscall_post(*old(self), *final(self), Syscall::SemCreate, args@, text, out),
    {
        let value = args[0] as isize;
        let name = if args[1] != 0 { text } else { None };
        let r = self.semaphores.create_semaphore(value, name);
        assert(create_semaphore_post(old(self).semaphores, self.semaphores, value, name, r));
        match r {
            Ok(id) => Outcome::Done(Ok(id)),
            Err(_) => Outcome::Done(Err(SyscallError::ResourceBusy)),
        }
    }

    /// Opens the semaphore named by the string.
    fn sys_sem_open(&mut self, args: &[usize], text: Option<&str>) -> (out: Outcome)
        requires
            call_ok(*old(self), Syscall::SemOpen, args@, text),
        ensures
            final(self).ready(),
            syscall_post(*old(self), *final(self), Syscall::SemOpen, args@, text, out),
    {
        let name = text.unwrap();
        let r = self.semaphores.open_semaphore(name);
        assert(open_semaphore_post(self.semaphores, name, r));
        match r {
            Ok(id) => Outcome::Done(Ok(id)),
            Err(_) => Outcome::Done(Err(SyscallError::NotFound)),
        }
    }

    /// The wait operation on semaphore `args[0]`.
    fn sys_sem_p(&mut self, args: &[usize], text: Option<&str>) -> (out: Outcome)
        requires
            call_ok(*old(self), Syscall::SemP, args@, text),
        ensures
            final(self).ready(),
            syscall_post(*old(self), *final(self), Syscall::SemP, args@, text, out),
    {
        let r = self.semaphores.semaphore_p(&mut self.processes, args[0]);
        assert(semaphore_p_post(old(self).semaphores, self.semaphores, old(self).processes, self.processes, args[0], r));
        match r {
            Ok(()) => Outcome::Done(Ok(0)),
            Err(_) => Outcome::Done(Err(SyscallError::InvalidArgument)),
        }
    }

    /// The signal operation on semaphore `args[0]`.
    fn sys_sem_v(&mut self, args: &[usize], text: Option<&str>) -> (out: Outcome)
        requires
            call_ok(*old(self), Syscall::SemV, args@, text),
        ensures
            final(self).ready(),
            syscall_post(*old(self), *final(self), Syscall::SemV, args@, text, out),
    {
        let r = self.semaphores.semaphore_v(&mut self.processes, &mut self.scheduler, args[0]);
        assert(semaphore_v_post(old(self).semaphores, self.semaphores, old(self).processes, self.processes,
            old(self).scheduler, self.scheduler, args[0], r));
        match r {
            Ok(()) => Outcome::Done(Ok(0)),
            Err(_) => Outcome::Done(Err(SyscallError::InvalidArgument)),
        }
    }

    /// Closes semaphore `args[0]`.
    fn sys_sem_close(&mut self, args: &[usize], text: Option<&str>) -> (out: Outcome)
        requires
            call_ok(*old(self), Syscall::SemClose, args@, text),
        ensures
            final(self).ready(),
            syscall_post(*old(self), *final(self), Syscall::SemClose, args@, text, out),
    {
        let r = self.semaphores.close_semaphore(&mut self.processes, &mut self.scheduler, args[0]);
        assert(close_semaphore_post(old(self).semaphores, self.semaphores, old(self).processes, self.processes,
            old(self).scheduler, self.scheduler, args[0], r));
        match r {
            Ok(()) => Outcome::Done(Ok(0)),
            Err(_) => Outcome::Done(Err(SyscallError::InvalidArgument)),
        }
    }

    /// One of the ids of the running process: 0 the user, 1 the group, 2 the
    /// effective user, 3 the effective group.
    fn sys_get_id(&mut self, s: Syscall, args: &[usize], text: Option<&str>) -> (out: Outcome)
        requires
            s == Syscall::GetUid || s == Syscall::GetGid || s == Syscall::GetEuid || s == Syscall::GetEgid,
            call_ok(*old(self), s, args@, text),
        ensures
            final(self).ready(),
            syscall_post(*old(self), *final(self), s, args@, text, out),
    {
        match self.current() {
            Some(p) => Outcome::Done(Ok(match s {
                Syscall::GetUid => p.uid,
                Syscall::GetGid => p.gid,
                Syscall::GetEuid => p.euid,
                _ => p.egid,
            })),
            None => Outcome::Done(Err(SyscallError::InvalidArgument)),
        }
    }

    /// Changes ids of the running process. Root may set the user or group
    /// (with its effective counterpart); the effective user may be set by root
    /// or to the process's own user, the effective group by root or to a group
    /// the user belongs to.
    fn sys_set_id(&mut self, s: Syscall, args: &[usize], text: Option<&str>) -> (out: Outcome)
        requires
            s == Syscall::SetUid || s == Syscall::SetGid || s == Syscall::SetEuid || s == Syscall::SetEgid,
            call_ok(*old(self), s, args@, text),
        ensures
            final(self).ready(),
            syscall_post(*old(self), *final(self), s, args@, text, out),
    {
        let v = args[0];
        let c = match self.processes.get_current_pid() {
            Some(c) => c,
            None => return Outcome::Done(Err(SyscallError::InvalidArgument)),
        };
        let uid = match self.current() {
            Some(p) => p.uid,
            None => return Outcome::Done(Err(SyscallError::InvalidArgument)),
        };
        let allowed = match s {
            Syscall::SetUid | Syscall::SetGid => uid == 0,
            Syscall::SetEuid => uid == 0 || uid == v,
            _ => uid == 0 || self.users.is_user_in_group(uid as u32, v as u32),
        };
        if !allowed {
            return Outcome::Done(Err(SyscallError::PermissionDenied));
        }
        let mut p = self.processes.take_process(c).unwrap();
        let ghost p0 = p;
        match s {
            Syscall::SetUid => {
                p.uid = v;
                p.euid = v;
            },
            Syscall::SetGid => {
                p.gid = v;
                p.egid = v;
            },
            Syscall::SetEuid => {
                p.euid = v;
            },
            _ => {
                p.egid = v;
            },
        }
        self.processes.put_process(c, p);
        assert(self.processes.slots() =~= old(self).processes.slots().update(c as int, self.processes.slots()[c as int]));
        Outcome::Done(Ok(0))
    }

    /// The power call with command `args[0]` and argument `args[1]`.
    fn sys_power_management(&mut self, args: &[usize], text: Option<&str>) -> (out: Outcome)
        requires
            call_ok(*old(self), Syscall::PowerManagement, args@, text),
        ensures
            final(self).ready(),
            syscall_post(*old(self), *final(self), Syscall::PowerManagement, args@, text, out),
    {
        let r = syscall_power_management(&mut self.power, args[0] as u64, args[1] as u64, 0, 0, 0, 0, 0);
        assert(power_call_post(old(self).power, self.power, args[0] as u64, args[1] as u64, r));
        if r < 0 { Outcome::Done(Err(SyscallError::NotSupported)) } else { Outcome::Done(Ok(r as usize)) }
    }

    /// The frequency call with command `args[0]` and argument `args[1]`.
    fn sys_cpu_frequency(&mut self, args: &[usize], text: Option<&str>) -> (out: Outcome)
        requires
            call_ok(*old(self), Syscall::CpuFrequency, args@, text),
        ensures
            final(self).ready(),
            syscall_post(*old(self), *final(self), Syscall::CpuFrequency, args@, text, out),
    {
        let r = syscall_cpu_frequency(&mut self.cpu, args[0] as u64, args[1] as u64, 0, 0, 0, 0, 0);
        assert(cpu_call_post(old(self).cpu, self.cpu, args[0] as u64, args[1] as u64, r));
        if r < 0 { Outcome::Done(Err(SyscallError::NotSupported)) } else { Outcome::Done(Ok(r as usize)) }
    }

    /// The device call with command `args[0]` and arguments `args[1]`, `args[2]`.
    fn sys_device_power_management(&mut self, args: &[usize], text: Option<&str>) -> (out: Outcome)
        requires
            call_ok(*old(self), Syscall::DevicePowerManagement, args@, text),
        ensures
            final(self).ready(),
            syscall_post(*old(self), *final(self), Syscall::DevicePowerManagement, args@, text, out),
    {
        let r = syscall_device_power_management(&mut self.devices, args[0] as u64, args[1] as u64, args[2] as u64, 0, 0, 0, 0);
        assert(device_call_post(old(self).devices, self.devices, args[0] as u64, args[1] as u64, args[2] as u64, r));
        if r < 0 { Outcome::Done(Err(SyscallError::NotSupported)) } else { Outcome::Done(Ok(r as usize)) }
    }

    /// Runs call `s` with arguments `args`; `text` is the string the call reads
    /// from user memory, when it reads one.
    pub fn handle_syscall_enum(&mut self, s: Syscall, args: &[usize], text: Option<&str>) -> (out: Outcome)
        requires
            call_ok(*old(self), s, args@, text),
        ensures
            final(self).ready(),
            syscall_post(*old(self), *final(self), s, args@, text, out),
    {
        match s {
            Syscall::Exit => self.sys_exit(args, text),
            Syscall::Fork => self.sys_fork(args, text),
            Syscall::Exec | Syscall::Waitpid | Syscall::Mmap | Syscall::Munmap => Outcome::Done(Err(SyscallError::NotSupported)),
            Syscall::Open => self.sys_open(args, text),
            Syscall::Read => self.sys_read(args, text),
            Syscall::Write => self.sys_write(args, text),
            Syscall::Close => self.sys_close(args, text),
            Syscall::Brk => Outcome::Done(Ok(args[0])),
            Syscall::Unlink => self.sys_unlink(args, text),
            Syscall::Pipe => self.sys_pipe(args, text),
            Syscall::ShmCreate => self.sys_shm_create(args, text),
            Syscall::ShmOpen => self.sys_shm_open(args, text),
            Syscall::ShmMap => self.sys_shm_map(args, text),
            Syscall::ShmUnmap => self.sys_shm_unmap(args, text),
            Syscall::ShmClose => self.sys_shm_close(args, text),
            Syscall::SemCreate => self.sys_sem_create(args, text),
            Syscall::SemOpen => self.sys_sem_open(args, text),
            Syscall::SemP => self.sys_sem_p(args, text),
            Syscall::SemV => self.sys_sem_v(args, text),
            Syscall::SemClose => self.sys_sem_close(args, text),
            Syscall::GetUid | Syscall::GetGid | Syscall::GetEuid | Syscall::GetEgid => self.sys_get_id(s, args, text),
            Syscall::SetUid | Syscall::SetGid | Syscall::SetEuid | Syscall::SetEgid => self.sys_set_id(s, args, text),
            Syscall::PowerManagement => self.sys_power_management(args, text),
            Syscall::CpuFrequency => self.sys_cpu_frequency(args, text),
            Syscall::DevicePowerManagement => self.sys_device_power_management(args, text),
        }
    }

    /// Decodes call number `syscall_num` and runs it with the six arguments; an
    /// unknown number fails with `InvalidSyscall` and changes nothing.
    pub fn handle_syscall(
        &mut self,
        syscall_num: usize,
        arg1: usize,
        arg2: usize,
        arg3: usize,
        arg4: usize,
        arg5: usize,
        arg6: usize,
        text: Option<&str>,
    ) -> (out: Outcome)
        requires
            syscall_of(syscall_num) matches Ok(s) ==> call_ok(*old(self), s, seq![arg1, arg2, arg3, arg4, arg5, arg6], text),
        ensures
            match syscall_of(syscall_num) {
                Ok(s) => final(self).ready() && syscall_post(*old(self), *final(self), s, seq![arg1, arg2, arg3, arg4, arg5, arg6], text, out),
                Err(_) => *final(self) == *old(self) && out == Outcome::Done(Err(SyscallError::InvalidSyscall)),
            },
    {
        let args = [arg1, arg2, arg3, arg4, arg5, arg6];
        let args_slice = args.as_slice();
        assert(args_slice@ =~= seq![arg1, arg2, arg3, arg4, arg5, arg6]);
        match super::decode(syscall_num) {
            Ok(s) => self.handle_syscall_enum(s, args_slice, text),
            Err(_) => Outcome::Done(Err(SyscallError::InvalidSyscall)),
        }
    }

    /// Finishes an open once the file service answered: `NotFound` when it
    /// could not open the path, `ResourceBusy` when the running process has no
    /// descriptor left; otherwise the next descriptor is bound to the inode at
    /// offset 0 with the flags, and returned.
    pub fn complete_open(&mut self, opened: Result<usize, ()>, flags: usize) -> (r: Result<usize, SyscallError>)
        requires
            old(self).ready(),
        ensures
            final(self).ready(),
            match current_process(*old(self)) {
                None => r == Err::<usize, SyscallError>(SyscallError::InvalidArgument) && *final(self) == *old(self),
                Some(p) => match opened {
                    Err(_) => r == Err::<usize, SyscallError>(SyscallError::NotFound) && *final(self) == *old(self),
                    Ok(inode) => if p.next_fd >= MAX_FILE_DESCRIPTORS {
                        r == Err::<usize, SyscallError>(SyscallError::ResourceBusy) && *final(self) == *old(self)
                    } else {
                        let c = old(self).processes.current_pid()->0;
                        &&& r == Ok::<usize, SyscallError>(p.next_fd)
                        &&& replaced(old(self).processes, final(self).processes, c)
                        &&& with_descriptor(p, final(self).processes.slots()[c as int]->0, p.next_fd,
                            Some(FileDescriptor { inode, offset: 0, flags: flags as u32 }), (p.next_fd + 1) as usize)
                        &&& keeps(*old(self), *final(self), true, false, false, false, false, false, false)
                    },
                },
            },
    {
        let c = match self.processes.get_current_pid() {
            Some(c) => c,
            None => return Err(SyscallError::InvalidArgument),
        };
        let fd = match self.current() {
            Some(p) => p.next_fd,
            None => return Err(SyscallError::InvalidArgument),
        };
        let inode = match opened {
            Ok(i) => i,
            Err(_) => return Err(SyscallError::NotFound),
        };
        if fd >= MAX_FILE_DESCRIPTORS {
            return Err(SyscallError::ResourceBusy);
        }
        let mut p = self.processes.take_process(c).unwrap();
        p.file_descriptors.set(fd, Some(FileDescriptor { inode, offset: 0, flags: flags as u32 }));
        p.next_fd = fd + 1;
        self.processes.put_process(c, p);
        assert(self.processes.slots() =~= old(self).processes.slots().update(c as int, self.processes.slots()[c as int]));
        Ok(fd)
    }

    /// Finishes a read or write through descriptor `fd` of the running
    /// process once the file service answered: a missing inode is `NotFound`,
    /// a failed transfer `InvalidArgument`; `n` bytes moved advance the
    /// descriptor's offset by `n`, and `n` is returned.
    pub fn complete_transfer(&mut self, fd: usize, moved: Result<usize, TransferError>) -> (r: Result<usize, SyscallError>)
        requires
            old(self).ready(),
            current_process(*old(self)) is Some,
            fd < MAX_FILE_DESCRIPTORS,
            current_process(*old(self))->0.file_descriptors@[fd as int] is Some,
            moved matches Ok(n) ==> current_process(*old(self))->0.file_descriptors@[fd as int]->0.offset + n <= usize::MAX,
        ensures
            final(self).ready(),
            ({
                let p = current_process(*old(self))->0;
                let d = p.file_descriptors@[fd as int]->0;
                match moved {
                    Err(TransferError::NoInode) => r == Err::<usize, SyscallError>(SyscallError::NotFound) && *final(self) == *old(self),
                    Err(TransferError::Failed) => r == Err::<usize, SyscallError>(SyscallError::InvalidArgument) && *final(self) == *old(self),
                    Ok(n) => {
                        let c = old(self).processes.current_pid()->0;
                        &&& r == Ok::<usize, SyscallError>(n)
                        &&& replaced(old(self).processes, final(self).processes, c)
                        &&& with_descriptor(p, final(self).processes.slots()[c as int]->0, fd,
                            Some(FileDescriptor { offset: (d.offset + n) as usize, ..d }), p.next_fd)
                        &&& keeps(*old(self), *final(self), true, false, false, false, false, false, false)
                    },
                }
            }),
    {
        let n = match moved {
            Ok(n) => n,
            Err(TransferError::NoInode) => return Err(SyscallError::NotFound),
            Err(TransferError::Failed) => return Err(SyscallError::InvalidArgument),
        };
        let c = self.processes.get_current_pid().unwrap();
        let mut p = self.processes.take_process(c).unwrap();
        let d = p.file_descriptors[fd].unwrap();
        p.file_descriptors.set(fd, Some(FileDescriptor { offset: d.offset + n, ..d }));
        self.processes.put_process(c, p);
        assert(self.processes.slots() =~= old(self).processes.slots().update(c as int, self.processes.slots()[c as int]));
        Ok(n)
    }
}

/// Writing to standard output or standard error goes to the console: call
/// number 5 with descriptor 1 or 2 always comes to printing the caller's
/// buffer and count, whatever the running process's descriptor table holds,
/// and leaves the processes, memory and every other part of the kernel as
/// they were.
pub proof fn law_write_to_console(
    old: Kernel, new: Kernel,
    fd: usize, buffer: usize, count: usize, arg4: usize, arg5: usize, arg6: usize,
    text: Option<&str>, out: Outcome,
)
    requires
        fd == 1 || fd == 2,
        syscall_of(5) matches Ok(s) && syscall_post(old, new, s, seq![fd, buffer, count, arg4, arg5, arg6], text, out),
    ensures
        out == (Outcome::Console { buffer: buffer, count: count }),
        new.processes == old.processes,
        new.scheduler == old.scheduler,
        new.memory == old.memory,
        new.pmm == old.pmm,
        new.pending_switch == old.pending_switch,
{
}

/// Writing to any other descriptor goes through the running process's
/// descriptor table: call number 5 hands the file service the descriptor's
/// inode and offset with the caller's buffer and count when the process holds
/// the descriptor, and fails with `InvalidArgument` when it does not or when
/// no process runs; the kernel is left as it was.
pub proof fn law_write_to_descriptor(
    old: Kernel, new: Kernel,
    fd: usize, buffer: usize, count: usize, arg4: usize, arg5: usize, arg6: usize,
    text: Option<&str>, out: Outcome,
)
    requires
        fd != 1 && fd != 2,
        syscall_of(5) matches Ok(s) && syscall_post(old, new, s, seq![fd, buffer, count, arg4, arg5, arg6], text, out),
    ensures
        new.processes == old.processes,
        new.memory == old.memory,
        current_process(old) is None ==> out == Outcome::Done(Err(SyscallError::InvalidArgument)),
        current_process(old) matches Some(p) ==> match p.file_descriptors@[fd as int] {
            Some(d) => out matches Outcome::File(FileRequest::Write { fd: f, inode, offset, buffer: b, count: n })
                && f == fd && inode == d.inode && offset == d.offset && b == buffer && n == count,
            None => out == Outcome::Done(Err(SyscallError::InvalidArgument)),
        },
{
}

} // verus!
