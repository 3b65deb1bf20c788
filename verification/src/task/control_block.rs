//! A self-contained process control block with accessors, for code that
//! manages one process at a time.
use vstd::prelude::*;
use crate::mm::address_space::AddressSpace;

verus! {

/// Number of general-purpose registers kept.
pub const REGISTER_COUNT: usize = 16;

/// Scheduling state of a process.
#[derive(Debug, Copy, Clone, PartialEq, Eq, Structural)]
pub enum ProcessState {
    Running,
    Ready,
    Blocked,
    Terminated,
}

/// A process: identity, name, address space, priority and saved registers.
pub struct ProcessControlBlock {
    pid: usize,
    state: ProcessState,
    name: &'static str,
    address_space: AddressSpace,
    priority: u32,
    stack_pointer: u64,
    instruction_pointer: u64,
    registers: Vec<u64>,
    rflags: u64,
}

/// What a control block holds, as plain values.
pub struct PcbView {
    pub pid: usize,
    pub state: ProcessState,
    pub name: &'static str,
    pub address_space: AddressSpace,
    pub priority: u32,
    pub stack_pointer: u64,
    pub instruction_pointer: u64,
    pub registers: Seq<u64>,
    pub rflags: u64,
}

impl View for ProcessControlBlock {
    type V = PcbView;

    closed spec fn view(&self) -> PcbView {
        PcbView {
            pid: self.pid,
            state: self.state,
            name: self.name,
            address_space: self.address_space,
            priority: self.priority,
            stack_pointer: self.stack_pointer,
            instruction_pointer: self.instruction_pointer,
            registers: self.registers@,
            rflags: self.rflags,
        }
    }
}

impl ProcessControlBlock {
    /// The register file has its fixed size.
    pub open spec fn wf(&self) -> bool {
        self@.registers.len() == REGISTER_COUNT
    }

    /// A ready process with the given identity, an address space without
    /// tables, and all saved registers zero.
    pub fn new(pid: usize, name: &'static str, priority: u32) -> (p: Self)
        ensures
            p.wf(),
            p@.pid == pid,
            p@.state == ProcessState::Ready,
            p@.name == name,
            p@.address_space.root() == 0,
            p@.priority == priority,
            p@.stack_pointer == 0,
            p@.instruction_pointer == 0,
            p@.registers == Seq::new(REGISTER_COUNT as nat, |i: int| 0u64),
            p@.rflags == 0,
    {
        let mut registers: Vec<u64> = Vec::new();
        let mut i: usize = 0;
        while i < REGISTER_COUNT
            invariant
                i <= REGISTER_COUNT,
                registers@ == Seq::new(i as nat, |k: int| 0u64),
            decreases REGISTER_COUNT - i,
        {
            registers.push(0);
            i = i + 1;
        }
        ProcessControlBlock {
            pid,
            state: ProcessState::Ready,
            name,
            address_space: AddressSpace::new(),
            priority,
            stack_pointer: 0,
            instruction_pointer: 0,
            registers,
            rflags: 0,
        }
    }

    /// The pid.
    pub fn pid(&self) -> (r: usize)
        ensures r == self@.pid,
    {
        self.pid
    }

    /// The state.
    pub fn state(&self) -> (r: &ProcessState)
        ensures *r == self@.state,
    {
        &self.state
    }

    /// Replaces the state; nothing else changes.
    pub fn set_state(&mut self, state: ProcessState)
        ensures
            final(self)@ == (PcbView { state, ..old(self)@ }),
    {
        self.state = state;
    }

    /// The name.
    pub fn name(&self) -> (r: &'static str)
        ensures r == self@.name,
    {
        self.name
    }

    /// The address space.
    pub fn address_space(&self) -> (r: &AddressSpace)
        ensures *r == self@.address_space,
    {
        &self.address_space
    }

    /// The address space, for changing it.
    pub fn address_space_mut(&mut self) -> (r: &mut AddressSpace)
        ensures
            *r == old(self)@.address_space,
            final(self)@ == (PcbView { address_space: *final(r), ..old(self)@ }),
    {
        &mut self.address_space
    }

    /// The priority.
    pub fn priority(&self) -> (r: u32)
        ensures r == self@.priority,
    {
        self.priority
    }

    /// Replaces the saved stack pointer; nothing else changes.
    pub fn set_stack_pointer(&mut self, sp: u64)
        ensures
            final(self)@ == (PcbView { stack_pointer: sp, ..old(self)@ }),
    {
        self.stack_pointer = sp;
    }

    /// The saved stack pointer.
    pub fn stack_pointer(&self) -> (r: u64)
        ensures r == self@.stack_pointer,
    {
        self.stack_pointer
    }

    /// Replaces the saved instruction pointer; nothing else changes.
    pub fn set_instruction_pointer(&mut self, ip: u64)
        ensures
            final(self)@ == (PcbView { instruction_pointer: ip, ..old(self)@ }),
    {
        self.instruction_pointer = ip;
    }

    /// The saved instruction pointer.
    pub fn instruction_pointer(&self) -> (r: u64)
        ensures r == self@.instruction_pointer,
    {
        self.instruction_pointer
    }

    /// Sets saved register `index`; an index past the register file is ignored.
    pub fn set_register(&mut self, index: usize, value: u64)
        requires
            old(self).wf(),
        ensures
            final(self).wf(),
            final(self)@ == (PcbView {
                registers: if index < REGISTER_COUNT { old(self)@.registers.update(index as int, value) } else { old(self)@.registers },
                ..old(self)@
            }),
    {
        if index < REGISTER_COUNT {
            self.registers.set(index, value);
        }
    }

    /// Saved register `index`; 0 past the register file.
    pub fn register(&self, index: usize) -> (r: u64)
        requires
            self.wf(),
        ensures
            r == if index < REGISTER_COUNT { self@.registers[index as int] } else { 0 },
    {
        if index < REGISTER_COUNT {
            self.registers[index]
        } else {
            0
        }
    }

    /// Replaces the saved flags register; nothing else changes.
    pub fn set_rflags(&mut self, flags: u64)
        ensures
            final(self)@ == (PcbView { rflags: flags, ..old(self)@ }),
    {
        self.rflags = flags;
    }

    /// The saved flags register.
    pub fn rflags(&self) -> (r: u64)
        ensures r == self@.rflags,
    {
        self.rflags
    }
}

} // verus!
