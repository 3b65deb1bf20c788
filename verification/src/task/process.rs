//! Processes: control blocks and the table of live processes, indexed by pid.
use vstd::prelude::*;
use crate::mm::address_space::{AddressSpace, PhysicalMemory, init_effect, map_possible, map_result, walk_in_memory, unmap_result};
use super::scheduler::{Scheduler, ContextSwitch, can_schedule, schedule_effect};
use crate::mm::physical::{
    PhysicalMemoryManager, PmmModel, AllocError, PAGE_SIZE, manager_view, manager_alloc, manager_free,
    manager_ready, frees_frame, lemma_wf_bound, lemma_alloc_result, lemma_effects_alloc, lemma_effects_free,
};

verus! {

/// Number of process slots; pids index them.
pub const MAX_PROCESSES: usize = 64;
/// Number of file descriptors a process can hold.
pub const MAX_FILE_DESCRIPTORS: usize = 64;
/// Number of general-purpose registers kept in a control block.
pub const REGISTER_COUNT: usize = 16;
/// Size of the stack page a process gets.
pub const STACK_SIZE: u64 = 4096;
/// Flags register of a new process: interrupts enabled.
pub const INITIAL_RFLAGS: u64 = 0x202;
/// Priority of a new process.
pub const DEFAULT_PRIORITY: u8 = 128;
/// First descriptor a process hands out; 0, 1 and 2 are the standard streams.
pub const FIRST_FREE_FD: usize = 3;

/// An open file of a process.
#[derive(Clone, Copy)]
pub struct FileDescriptor {
    pub inode: usize,
    pub offset: usize,
    pub flags: u32,
}

/// Scheduling state of a process.
#[derive(Debug, Copy, Clone, PartialEq, Eq, Structural)]
pub enum ProcessState {
    Running,
    Ready,
    Blocked,
    Terminated,
}

/// Everything the kernel keeps about one process.
pub struct ProcessControlBlock {
    pub pid: usize,
    pub state: ProcessState,
    pub priority: u8,
    pub address_space: AddressSpace,
    pub stack_pointer: u64,
    pub program_counter: u64,
    /// rax, rbx, rcx, rdx, rsi, rdi, rbp, rsp, r8 to r15.
    pub registers: Vec<u64>,
    pub rflags: u64,
    pub file_descriptors: Vec<Option<FileDescriptor>>,
    pub next_fd: usize,
    pub uid: usize,
    pub gid: usize,
    pub euid: usize,
    pub egid: usize,
    pub next: Option<usize>,
}

/// Why a process could not be created.
#[derive(Debug, Copy, Clone, PartialEq, Eq, Structural)]
pub enum ProcessError {
    OutOfPids,
    AddressSpaceInitFailed,
    StackAllocationFailed,
    InternalError,
}

impl ProcessControlBlock {
    /// The register file and descriptor table have their fixed sizes.
    pub open spec fn shaped(&self) -> bool {
        &&& self.registers@.len() == REGISTER_COUNT
        &&& self.file_descriptors@.len() == MAX_FILE_DESCRIPTORS
    }

    /// A freshly created process: ready, default priority, root ids, the
    /// given tables, stack top and entry point, cleared registers, no open files.
    pub open spec fn is_fresh(&self, pid: usize, root: u64, stack_top: u64, entry: u64) -> bool {
        &&& self.pid == pid
        &&& self.state == ProcessState::Ready
        &&& self.priority == DEFAULT_PRIORITY
        &&& self.address_space.root() == root
        &&& self.stack_pointer == stack_top
        &&& self.program_counter == entry
        &&& self.registers@ == Seq::new(REGISTER_COUNT as nat, |i: int| 0u64)
        &&& self.rflags == INITIAL_RFLAGS
        &&& self.file_descriptors@ == Seq::new(MAX_FILE_DESCRIPTORS as nat, |i: int| None::<FileDescriptor>)
        &&& self.next_fd == FIRST_FREE_FD
        &&& self.uid == 0 && self.gid == 0 && self.euid == 0 && self.egid == 0
        &&& self.next is None
    }
}

/// `p` with its state replaced.
pub open spec fn with_state(p: ProcessControlBlock, state: ProcessState) -> ProcessControlBlock {
    ProcessControlBlock { state, ..p }
}

/// What creating a process does, given the memory, the allocator and the next
/// pid: the result, the memory and allocator afterwards, the root table and
/// the stack top of the new process. The pid runs out at `MAX_PROCESSES`; a
/// root table at address 0 counts as none.
pub open spec fn create_result(mem: Seq<u64>, pmm: Option<PmmModel>, next_pid: usize)
    -> (Result<usize, ProcessError>, Seq<u64>, Option<PmmModel>, u64, u64)
{
    if next_pid >= MAX_PROCESSES {
        (Err(ProcessError::OutOfPids), mem, pmm, 0, 0)
    } else {
        let (root, m1, p1) = init_effect(0, mem, pmm);
        if root == 0 {
            (Err(ProcessError::AddressSpaceInitFailed), m1, p1, 0, 0)
        } else {
            match manager_alloc(p1) {
                (p2, Ok(stack)) => (Ok(next_pid), m1, p2, root, (stack as u64 + STACK_SIZE) as u64),
                (p2, Err(_)) => (Err(ProcessError::StackAllocationFailed), m1, p2, root, 0),
            }
        }
    }
}

/// When a process can be created.
pub open spec fn process_create_pre(old: ProcessTable, oldm: Option<PhysicalMemoryManager>, oldmem: Seq<u64>) -> bool {
    &&& (old.wf())
    &&& (manager_ready(oldm))
    &&& (oldm matches Some(m) ==> m@.1 * 512 <= oldmem.len() && m@.2 + 1 < usize::MAX)
}

/// What creating a process does to the table, the allocator and memory.
pub open spec fn process_create_post(old: ProcessTable, new: ProcessTable, oldm: Option<PhysicalMemoryManager>, newm: Option<PhysicalMemoryManager>, oldmem: Seq<u64>, newmem: Seq<u64>, entry_point: u64, r: Result<usize, ProcessError>) -> bool {
    &&& (new.wf())
    &&& (newm matches Some(n) ==> n.wf())
    &&& (new.current_pid() == old.current_pid())
    &&& (new.next_pid() == if old.next_pid() < MAX_PROCESSES { (old.next_pid() + 1) as usize } else { old.next_pid() })
    &&& (({
        let (res, m, p, root, top) = create_result(oldmem, manager_view(oldm), old.next_pid());
        &&& r == res
        &&& newmem == m
        &&& manager_view(newm) == p
        &&& match r {
            Ok(pid) => new.slots()[pid as int] matches Some(q) && q.is_fresh(pid, root, top, entry_point)
                && new.slots() == old.slots().update(pid as int, new.slots()[pid as int]),
            Err(_) => new.slots() == old.slots(),
        }
    }))
}

/// Whether the stack page at `addr` can be released twice: once when the
/// process ends and once more when its control block is dropped. The second
/// release must succeed, so the page must be one the allocator holds, with
/// two allocations counted.
pub open spec fn stack_releasable(m: Option<PhysicalMemoryManager>, addr: usize) -> bool {
    m matches Some(x) && x.wf() && frees_frame(x@, addr) && x@.2 >= 2
}

/// The allocator after the stack page at `addr` was released twice.
pub open spec fn released_twice(m: Option<PmmModel>, addr: usize) -> Option<PmmModel> {
    manager_free(manager_free(m, addr).0, addr).0
}

/// When a process can be ended.
pub open spec fn process_exit_pre(old: ProcessTable, olds: Option<Scheduler>, oldm: Option<PhysicalMemoryManager>, pid: usize) -> bool {
    &&& (old.wf())
    &&& (pid < MAX_PROCESSES)
    &&& (oldm matches Some(m) ==> m.wf())
    &&& (old.slots()[pid as int] matches Some(p) ==> {
        &&& p.stack_pointer >= STACK_SIZE
        &&& stack_releasable(oldm, (p.stack_pointer - STACK_SIZE) as usize)
        &&& old.current_pid() == Some(pid) ==> (olds matches Some(s)
            ==> can_schedule(s.queue(), s.current(), old.slots().update(pid as int, None)))
    })
}

/// What ending a process does to the table, the scheduler and the allocator.
pub open spec fn process_exit_post(old: ProcessTable, new: ProcessTable, olds: Option<Scheduler>, news: Option<Scheduler>, oldm: Option<PhysicalMemoryManager>, newm: Option<PhysicalMemoryManager>, pid: usize, r: (Option<Result<(), AllocError>>, Option<ContextSwitch>)) -> bool {
    &&& (new.wf())
    &&& (new.next_pid() == old.next_pid())
    &&& (newm matches Some(n) ==> n.wf())
    &&& (match old.slots()[pid as int] {
        None => {
            &&& r == (None::<Result<(), AllocError>>, None::<ContextSwitch>)
            &&& new.slots() == old.slots()
            &&& new.current_pid() == old.current_pid()
            &&& manager_view(newm) == manager_view(oldm)
            &&& news == olds
        },
        Some(p) => {
            let addr = (p.stack_pointer - STACK_SIZE) as usize;
            let emptied = old.slots().update(pid as int, None);
            &&& manager_view(newm) == released_twice(manager_view(oldm), addr)
            &&& r.0 == Some(Ok::<(), AllocError>(()))
            &&& if old.current_pid() == Some(pid) {
                match olds {
                    Some(s) => news matches Some(t)
                        && (t.queue(), t.current(), new.slots(), new.current_pid(), r.1)
                            == schedule_effect(s.queue(), s.current(), emptied, old.current_pid()),
                    None => news is None && r.1 is None && new.slots() == emptied
                        && new.current_pid() == old.current_pid(),
                }
            } else {
                &&& new.slots() == emptied
                &&& new.current_pid() == old.current_pid()
                &&& r.1 is None
                &&& news == olds
            }
        },
    })
}

/// The process slots, the next pid to hand out and the running process.
pub struct ProcessTable {
    processes: Vec<Option<ProcessControlBlock>>,
    next_pid: usize,
    current_pid: Option<usize>,
}

/// A vector of `n` zeros.
fn zeros(n: usize) -> (v: Vec<u64>)
    ensures
        v@ == Seq::new(n as nat, |i: int| 0u64),
{
    let mut v: Vec<u64> = Vec::new();
    let mut i: usize = 0;
    while i < n
        invariant
            i <= n,
            v@ == Seq::new(i as nat, |k: int| 0u64),
        decreases n - i,
    {
        v.push(0);
        i = i + 1;
    }
    v
}

/// A descriptor table of `n` closed slots.
fn closed_descriptors(n: usize) -> (v: Vec<Option<FileDescriptor>>)
    ensures
        v@ == Seq::new(n as nat, |i: int| None::<FileDescriptor>),
{
    let mut v: Vec<Option<FileDescriptor>> = Vec::new();
    let mut i: usize = 0;
    while i < n
        invariant
            i <= n,
            v@ == Seq::new(i as nat, |k: int| None::<FileDescriptor>),
        decreases n - i,
    {
        v.push(None);
        i = i + 1;
    }
    v
}

impl ProcessTable {
    /// The slots, indexed by pid.
    pub closed spec fn slots(&self) -> Seq<Option<ProcessControlBlock>> {
        self.processes@
    }

    /// The pid the next created process gets.
    pub closed spec fn next_pid(&self) -> usize {
        self.next_pid
    }

    /// The running process, if any.
    pub closed spec fn current_pid(&self) -> Option<usize> {
        self.current_pid
    }

    /// There are exactly `MAX_PROCESSES` slots, and the process in slot `i`
    /// has pid `i` and its fixed-size tables.
    pub open spec fn wf(&self) -> bool {
        &&& self.slots().len() == MAX_PROCESSES
        &&& forall|i: int| 0 <= i < MAX_PROCESSES ==> (#[trigger] self.slots()[i] matches Some(p) ==> p.pid == i && p.shaped())
    }

    /// An empty table: no process, pids handed out from 1, nothing running.
    pub fn new() -> (t: Self)
        ensures
            t.wf(),
            t.slots() == Seq::new(MAX_PROCESSES as nat, |i: int| None::<ProcessControlBlock>),
            t.next_pid() == 1,
            t.current_pid() is None,
    {
        let mut v: Vec<Option<ProcessControlBlock>> = Vec::new();
        let mut i: usize = 0;
        while i < MAX_PROCESSES
            invariant
                i <= MAX_PROCESSES,
                v@ == Seq::new(i as nat, |k: int| None::<ProcessControlBlock>),
            decreases MAX_PROCESSES - i,
        {
            v.push(None);
            i = i + 1;
        }
        ProcessTable { processes: v, next_pid: 1, current_pid: None }
    }

    /// The running process's pid.
    pub fn get_current_pid(&self) -> (r: Option<usize>)
        ensures
            r == self.current_pid(),
    {
        self.current_pid
    }

    /// Records which process runs.
    pub fn set_current_pid(&mut self, pid: Option<usize>)
        ensures
            final(self).current_pid() == pid,
            final(self).slots() == old(self).slots(),
            final(self).next_pid() == old(self).next_pid(),
    {
        self.current_pid = pid;
    }

    /// The process in slot `pid`.
    pub fn get_process(&self, pid: usize) -> (r: Option<&ProcessControlBlock>)
        requires
            self.wf(),
            pid < MAX_PROCESSES,
        ensures
            match r {
                Some(p) => self.slots()[pid as int] == Some(*p),
                None => self.slots()[pid as int] is None,
            },
    {
        self.processes[pid].as_ref()
    }

    /// The running process, when one is recorded and its slot is filled.
    pub fn get_current_process(&self) -> (r: Option<&ProcessControlBlock>)
        requires
            self.wf(),
            self.current_pid() matches Some(c) ==> c < MAX_PROCESSES,
        ensures
            match self.current_pid() {
                Some(c) => match r {
                    Some(p) => self.slots()[c as int] == Some(*p),
                    None => self.slots()[c as int] is None,
                },
                None => r is None,
            },
    {
        match self.current_pid {
            Some(pid) => self.processes[pid].as_ref(),
            None => None,
        }
    }

    /// Sets the state of the process in slot `pid`, if there is one.
    pub fn set_state(&mut self, pid: usize, state: ProcessState)
        requires
            old(self).wf(),
            pid < MAX_PROCESSES,
        ensures
            final(self).wf(),
            final(self).next_pid() == old(self).next_pid(),
            final(self).current_pid() == old(self).current_pid(),
            final(self).slots() == match old(self).slots()[pid as int] {
                Some(p) => old(self).slots().update(pid as int, Some(with_state(p, state))),
                None => old(self).slots(),
            },
    {
        let mut slot: Option<ProcessControlBlock> = None;
        self.processes.set_and_swap(pid, &mut slot);
        match slot {
            Some(mut p) => {
                p.state = state;
                let mut back = Some(p);
                self.processes.set_and_swap(pid, &mut back);
            },
            None => {},
        }
        proof {
            assert(self.processes@ =~= match old(self).slots()[pid as int] {
                Some(p) => old(self).slots().update(pid as int, Some(with_state(p, state))),
                None => old(self).slots(),
            });
        }
    }

    /// Creates a process that starts at `entry_point`: takes the next pid,
    /// builds its address space and gives it one stack page. The stack size
    /// argument is not used; a failed step leaves the pid consumed.
    pub fn process_create(
        &mut self,
        pmm: &mut Option<PhysicalMemoryManager>,
        mem: &mut PhysicalMemory,
        entry_point: u64,
        stack_size: u64,
    ) -> (r: Result<usize, ProcessError>)
        requires
            process_create_pre(*old(self), *old(pmm), old(mem)@),
        ensures
            process_create_post(*old(self), *final(self), *old(pmm), *final(pmm), old(mem)@, final(mem)@, entry_point, r),
    {
        let pid = self.next_pid;
        if pid >= MAX_PROCESSES {
            return Err(ProcessError::OutOfPids);
        }
        self.next_pid = pid + 1;
        proof {
            if *pmm is Some {
                lemma_wf_bound(pmm->0);
                lemma_effects_alloc(pmm->0@);
            }
        }
        let mut address_space = AddressSpace::new();
        address_space.init(pmm, mem);
        let root = address_space.page_table_root();
        if root == 0 {
            return Err(ProcessError::AddressSpaceInitFailed);
        }
        let ghost p1 = *pmm;
        proof {
            if p1 is Some {
                lemma_wf_bound(p1->0);
                lemma_alloc_result(p1->0@);
                lemma_effects_alloc(p1->0@);
            }
        }
        let stack_start: u64 = match crate::mm::physical::allocate_page(pmm) {
            Ok(addr) => {
                proof {
                    assert(addr + PAGE_SIZE <= p1->0@.1 * PAGE_SIZE) by (nonlinear_arith)
                        requires
                            addr % 4096 == 0,
                            addr / 4096 < p1->0@.1,
                    ;
                }
                addr as u64
            },
            Err(_) => {
                return Err(ProcessError::StackAllocationFailed);
            },
        };
        let stack_pointer = stack_start + STACK_SIZE;
        let process = ProcessControlBlock {
            pid,
            state: ProcessState::Ready,
            priority: DEFAULT_PRIORITY,
            address_space,
            stack_pointer,
            program_counter: entry_point,
            registers: zeros(REGISTER_COUNT),
            rflags: INITIAL_RFLAGS,
            file_descriptors: closed_descriptors(MAX_FILE_DESCRIPTORS),
            next_fd: FIRST_FREE_FD,
            uid: 0,
            gid: 0,
            euid: 0,
            egid: 0,
            next: None,
        };
        let mut slot = Some(process);
        self.processes.set_and_swap(pid, &mut slot);
        proof {
            assert(self.processes@ =~= old(self).slots().update(pid as int, self.processes@[pid as int]));
        }
        Ok(pid)
    }

    /// Creates the first process, at entry point 0, and makes it the running
    /// one. The result says whether that worked.
    pub fn init(&mut self, pmm: &mut Option<PhysicalMemoryManager>, mem: &mut PhysicalMemory) -> (r: Result<usize, ProcessError>)
        requires
            old(self).wf(),
            manager_ready(*old(pmm)),
            *old(pmm) matches Some(m) ==> m@.1 * 512 <= old(mem)@.len() && m@.2 + 1 < usize::MAX,
        ensures
            final(self).wf(),
            *final(pmm) matches Some(n) ==> n.wf(),
            final(self).next_pid() == if old(self).next_pid() < MAX_PROCESSES { (old(self).next_pid() + 1) as usize } else { old(self).next_pid() },
            ({
                let (res, m, p, root, top) = create_result(old(mem)@, manager_view(*old(pmm)), old(self).next_pid());
                &&& r == res
                &&& final(mem)@ == m
                &&& manager_view(*final(pmm)) == p
                &&& match r {
                    Ok(pid) => {
                        &&& final(self).current_pid() == Some(pid)
                        &&& final(self).slots()[pid as int] matches Some(q) && q.state == ProcessState::Running
                            && with_state(q, ProcessState::Ready).is_fresh(pid, root, top, 0)
                        &&& final(self).slots() == old(self).slots().update(pid as int, final(self).slots()[pid as int])
                    },
                    Err(_) => final(self).slots() == old(self).slots() && final(self).current_pid() == old(self).current_pid(),
                }
            }),
    {
        let r = self.process_create(pmm, mem, 0, 0);
        if let Ok(pid) = r {
            self.set_current_process(pid);
            proof {
                assert(self.slots() =~= old(self).slots().update(pid as int, self.slots()[pid as int]));
            }
        }
        r
    }

    /// Ends process `pid`: releases its stack page, empties its slot (dropping
    /// the control block releases the stack page once more) and, when it was
    /// the running process, schedules. Returns what the first release gave
    /// (none when the slot was empty) and the switch scheduling asks for.
    pub fn process_exit(
        &mut self,
        scheduler: &mut Option<Scheduler>,
        pmm: &mut Option<PhysicalMemoryManager>,
        pid: usize,
    ) -> (r: (Option<Result<(), AllocError>>, Option<ContextSwitch>))
        requires
            process_exit_pre(*old(self), *old(scheduler), *old(pmm), pid),
        ensures
            process_exit_post(*old(self), *final(self), *old(scheduler), *final(scheduler), *old(pmm), *final(pmm), pid, r),
    {
        let mut slot: Option<ProcessControlBlock> = None;
        self.processes.set_and_swap(pid, &mut slot);
        match slot {
            None => {
                proof {
                    assert(self.processes@ =~= old(self).slots());
                }
                (None, None)
            },
            Some(p) => {
                proof {
                    assert(self.processes@ =~= old(self).slots().update(pid as int, None));
                }
                let stack_start = p.stack_pointer - STACK_SIZE;
                proof {
                    lemma_wf_bound(pmm->0);
                    lemma_effects_free(pmm->0@, stack_start as usize);
                }
                let freed = crate::mm::physical::free_page(pmm, stack_start as usize);
                let dropped = crate::mm::physical::free_page(pmm, stack_start as usize);
                assert(dropped is Ok);
                let is_current = match self.current_pid {
                    Some(c) => c == pid,
                    None => false,
                };
                let switch = if is_current {
                    super::scheduler::schedule(scheduler, self)
                } else {
                    None
                };
                (Some(freed), switch)
            },
        }
    }

    /// Maps `va` to `pa` with `flags` in the address space of process `pid`,
    /// which must exist.
    pub fn map_page(
        &mut self,
        pid: usize,
        pmm: &mut Option<PhysicalMemoryManager>,
        mem: &mut PhysicalMemory,
        va: u64,
        pa: u64,
        flags: u64,
    )
        requires
            old(self).wf(),
            pid < MAX_PROCESSES,
            old(self).slots()[pid as int] matches Some(p) && {
                &&& p.address_space.root() == 0 ==> manager_ready(*old(pmm))
                &&& map_possible(p.address_space.root(), old(mem)@, manager_view(*old(pmm)), va, flags)
            },
            *old(pmm) matches Some(m) ==> m.wf() && m@.1 * 512 <= old(mem)@.len(),
        ensures
            final(self).wf(),
            final(self).next_pid() == old(self).next_pid(),
            final(self).current_pid() == old(self).current_pid(),
            *final(pmm) matches Some(n) ==> n.wf() && (*old(pmm) matches Some(o) && n@.1 == o@.1),
            final(mem)@.len() == old(mem)@.len(),
            ({
                let p = old(self).slots()[pid as int]->0;
                let (root, m, pm) = map_result(p.address_space.root(), old(mem)@, manager_view(*old(pmm)), va, pa, flags);
                &&& final(mem)@ == m
                &&& manager_view(*final(pmm)) == pm
                &&& final(self).slots().len() == old(self).slots().len()
                &&& forall|i: int| 0 <= i < old(self).slots().len() && i != pid ==> #[trigger] final(self).slots()[i] == old(self).slots()[i]
                &&& final(self).slots()[pid as int] matches Some(q) && q.address_space.root() == root
                    && (ProcessControlBlock { address_space: p.address_space, ..q }) == p
            }),
    {
        let mut slot: Option<ProcessControlBlock> = None;
        self.processes.set_and_swap(pid, &mut slot);
        let mut p = slot.unwrap();
        p.address_space.map(pmm, mem, va, pa, flags);
        let mut back = Some(p);
        self.processes.set_and_swap(pid, &mut back);
    }

    /// Unmaps `va` in the address space of process `pid`, which must exist.
    pub fn unmap_page(&mut self, pid: usize, mem: &mut PhysicalMemory, va: u64)
        requires
            old(self).wf(),
            pid < MAX_PROCESSES,
            old(self).slots()[pid as int] matches Some(p) && walk_in_memory(old(mem)@, p.address_space.root(), va),
        ensures
            *final(self) == *old(self),
            final(mem)@ == unmap_result(old(mem)@, old(self).slots()[pid as int]->0.address_space.root(), va),
    {
        match self.get_process(pid) {
            Some(p) => {
                let mut space = p.address_space;
                space.unmap(mem, va);
            },
            None => {},
        }
    }

    /// Empties slot `pid` and hands out what it held.
    pub fn take_process(&mut self, pid: usize) -> (r: Option<ProcessControlBlock>)
        requires
            old(self).wf(),
            pid < MAX_PROCESSES,
        ensures
            final(self).wf(),
            r == old(self).slots()[pid as int],
            final(self).slots() == old(self).slots().update(pid as int, None),
            final(self).next_pid() == old(self).next_pid(),
            final(self).current_pid() == old(self).current_pid(),
            r matches Some(p) ==> p.pid == pid && p.shaped(),
    {
        let mut slot: Option<ProcessControlBlock> = None;
        self.processes.set_and_swap(pid, &mut slot);
        slot
    }

    /// Puts `p` in slot `pid`.
    pub fn put_process(&mut self, pid: usize, p: ProcessControlBlock)
        requires
            old(self).wf(),
            pid < MAX_PROCESSES,
            p.pid == pid,
            p.shaped(),
        ensures
            final(self).wf(),
            final(self).slots() == old(self).slots().update(pid as int, Some(p)),
            final(self).next_pid() == old(self).next_pid(),
            final(self).current_pid() == old(self).current_pid(),
    {
        let mut slot = Some(p);
        self.processes.set_and_swap(pid, &mut slot);
    }

    /// Makes `pid` the running process and marks it running, if it exists.
    pub fn set_current_process(&mut self, pid: usize)
        requires
            old(self).wf(),
            pid < MAX_PROCESSES,
        ensures
            final(self).wf(),
            final(self).current_pid() == Some(pid),
            final(self).next_pid() == old(self).next_pid(),
            final(self).slots() == match old(self).slots()[pid as int] {
                Some(p) => old(self).slots().update(pid as int, Some(with_state(p, ProcessState::Running))),
                None => old(self).slots(),
            },
    {
        self.current_pid = Some(pid);
        self.set_state(pid, ProcessState::Running);
    }
}

} // verus!
