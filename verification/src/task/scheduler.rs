//! Round-robin scheduling over a queue of ready pids.
use vstd::prelude::*;
use super::process::{ProcessTable, ProcessState, ProcessControlBlock, MAX_PROCESSES, with_state};

verus! {

/// The switch the hardware layer is to perform: load `page_table_root` if
/// present, save the running context into the control block of `save_into`
/// and resume at the given stack and instruction pointers.
#[derive(Debug, Copy, Clone, PartialEq, Eq, Structural)]
pub struct ContextSwitch {
    pub page_table_root: Option<u64>,
    pub save_into: Option<usize>,
    pub new_stack_pointer: u64,
    pub new_program_counter: u64,
}

/// The ready queue and the pid it last handed the processor to.
pub struct Scheduler {
    ready_queue: Vec<usize>,
    current_pid: Option<usize>,
}

/// `q` without its first occurrence of `pid`.
pub open spec fn without_first(q: Seq<usize>, pid: usize) -> Seq<usize> {
    if exists|i: int| 0 <= i < q.len() && q[i] == pid {
        let i = choose|i: int| 0 <= i < q.len() && q[i] == pid && forall|j: int| 0 <= j < i ==> q[j] != pid;
        q.remove(i)
    } else {
        q
    }
}

/// Whether scheduling would find the recorded process still running. The
/// queueing it then does takes the scheduler's lock a second time, which the
/// kernel never gets back from.
pub open spec fn requeues_running(current: Option<usize>, slots: Seq<Option<ProcessControlBlock>>) -> bool {
    match current {
        Some(c) => c < MAX_PROCESSES && (slots[c as int] matches Some(p) && p.state == ProcessState::Running),
        None => false,
    }
}

/// Whether scheduling can proceed: the pids it looks up are slot indices and
/// it does not find the recorded process still running.
pub open spec fn can_schedule(queue: Seq<usize>, current: Option<usize>, slots: Seq<Option<ProcessControlBlock>>) -> bool {
    &&& current matches Some(c) ==> c < MAX_PROCESSES
    &&& queue.len() > 0 ==> queue[0] < MAX_PROCESSES
    &&& !requeues_running(current, slots)
}

/// What scheduling does to the queue, the recorded pid, the process slots and
/// the running pid, and the switch it asks for.
pub open spec fn schedule_effect(queue: Seq<usize>, current: Option<usize>, slots: Seq<Option<ProcessControlBlock>>, running: Option<usize>)
    -> (Seq<usize>, Option<usize>, Seq<Option<ProcessControlBlock>>, Option<usize>, Option<ContextSwitch>)
{
    if queue.len() > 0 {
        let next = queue[0];
        match slots[next as int] {
            Some(p) => (queue.drop_first(), Some(next), slots.update(next as int, Some(with_state(p, ProcessState::Running))), Some(next), Some(switch_to(p, next))),
            None => (queue.drop_first(), Some(next), slots, running, None),
        }
    } else {
        let s2 = match current {
            Some(c) => match slots[c as int] {
                Some(p) => slots.update(c as int, Some(with_state(p, ProcessState::Running))),
                None => slots,
            },
            None => slots,
        };
        (queue, current, s2, running, None)
    }
}

/// The switch to the process `p` with pid `pid`, which also receives the saved context.
pub open spec fn switch_to(p: ProcessControlBlock, pid: usize) -> ContextSwitch {
    ContextSwitch {
        page_table_root: if p.address_space.root() != 0 { Some(p.address_space.root()) } else { None },
        save_into: Some(pid),
        new_stack_pointer: p.stack_pointer,
        new_program_counter: p.program_counter,
    }
}

impl Scheduler {
    /// The ready pids, first to run first.
    pub closed spec fn queue(&self) -> Seq<usize> {
        self.ready_queue@
    }

    /// The pid last scheduled.
    pub closed spec fn current(&self) -> Option<usize> {
        self.current_pid
    }

    /// An empty queue with nothing scheduled.
    pub fn new() -> (s: Self)
        ensures
            s.queue() == Seq::<usize>::empty(),
            s.current() is None,
    {
        Scheduler { ready_queue: Vec::new(), current_pid: None }
    }

    /// The ready pids, first to run first.
    pub fn ready_queue(&self) -> (q: &[usize])
        ensures
            q@ == self.queue(),
    {
        self.ready_queue.as_slice()
    }

    /// The pid last scheduled.
    pub fn current_pid(&self) -> (r: Option<usize>)
        ensures
            r == self.current(),
    {
        self.current_pid
    }

    /// Appends `pid` to the ready queue.
    pub fn add_to_ready_queue(&mut self, pid: usize)
        ensures
            final(self).queue() == old(self).queue().push(pid),
            final(self).current() == old(self).current(),
    {
        self.ready_queue.push(pid);
    }

    /// Removes the first occurrence of `pid` from the ready queue.
    pub fn remove_from_ready_queue(&mut self, pid: usize)
        ensures
            final(self).queue() == without_first(old(self).queue(), pid),
            final(self).current() == old(self).current(),
    {
        let mut i: usize = 0;
        while i < self.ready_queue.len()
            invariant
                i <= self.ready_queue.len(),
                self.ready_queue@ == old(self).queue(),
                self.current_pid == old(self).current(),
                forall|j: int| 0 <= j < i ==> self.ready_queue@[j] != pid,
            decreases self.ready_queue.len() - i,
        {
            if self.ready_queue[i] == pid {
                let ghost q = self.ready_queue@;
                self.ready_queue.remove(i);
                proof {
                    let k = choose|k: int| 0 <= k < q.len() && q[k] == pid && forall|j: int| 0 <= j < k ==> q[j] != pid;
                    assert(q[i as int] == pid);
                    if k < i {
                        assert(q[k] != pid);
                    } else if k > i {
                        assert(q[i as int] != pid);
                    }
                    assert(k == i);
                }
                return;
            }
            i = i + 1;
        }
    }

    /// Hands the processor to the first ready pid: it leaves the queue, is
    /// recorded as current, and, if its process exists, is marked running and
    /// made the running process; the switch to it is returned. With nothing
    /// ready, the recorded process, if it exists, is marked running.
    pub fn schedule(&mut self, procs: &mut ProcessTable) -> (r: Option<ContextSwitch>)
        requires
            old(procs).wf(),
            can_schedule(old(self).queue(), old(self).current(), old(procs).slots()),
        ensures
            final(procs).wf(),
            final(procs).next_pid() == old(procs).next_pid(),
            (final(self).queue(), final(self).current(), final(procs).slots(), final(procs).current_pid(), r)
                == schedule_effect(old(self).queue(), old(self).current(), old(procs).slots(), old(procs).current_pid()),
    {
        if self.ready_queue.len() > 0 {
            let next_pid = self.ready_queue.remove(0);
            self.current_pid = Some(next_pid);
            let found = match procs.get_process(next_pid) {
                Some(p) => Some(ContextSwitch {
                    page_table_root: p.address_space.activate(),
                    save_into: None,
                    new_stack_pointer: p.stack_pointer,
                    new_program_counter: p.program_counter,
                }),
                None => None,
            };
            match found {
                Some(switch) => {
                    procs.set_state(next_pid, ProcessState::Running);
                    procs.set_current_process(next_pid);
                    let save_into = procs.get_current_pid();
                    proof {
                        assert(procs.slots() =~= old(procs).slots().update(
                            next_pid as int, Some(with_state(old(procs).slots()[next_pid as int]->0, ProcessState::Running))));
                    }
                    Some(ContextSwitch { save_into, ..switch })
                },
                None => None,
            }
        } else {
            if let Some(current) = self.current_pid {
                procs.set_state(current, ProcessState::Running);
            }
            None
        }
    }
}

/// Removing a pid undoes adding it: a pid that was not queued, appended to
/// the ready queue and then removed, leaves the queue as it was.
pub proof fn law_remove_undoes_add(q: Seq<usize>, pid: usize)
    requires
        !q.contains(pid),
    ensures
        without_first(q.push(pid), pid) == q,
{
    let p = q.push(pid);
    assert(p[q.len() as int] == pid);
    let i = choose|i: int| 0 <= i < p.len() && p[i] == pid && forall|j: int| 0 <= j < i ==> p[j] != pid;
    if i < q.len() {
        assert(q[i] == pid);
        assert(q.contains(pid));
    }
    assert(p.remove(i) =~= q);
}

/// A scheduler with an empty queue.
pub fn init() -> (s: Option<Scheduler>)
    ensures
        s matches Some(x) && x.queue() == Seq::<usize>::empty() && x.current() is None,
{
    Some(Scheduler::new())
}

/// Appends `pid` to the installed scheduler's queue; nothing without one.
pub fn add_to_ready_queue(scheduler: &mut Option<Scheduler>, pid: usize)
    ensures
        match *old(scheduler) {
            Some(s) => *final(scheduler) matches Some(t) && t.queue() == s.queue().push(pid) && t.current() == s.current(),
            None => *final(scheduler) is None,
        },
{
    if let Some(s) = scheduler {
        s.add_to_ready_queue(pid);
    }
}

/// Schedules with the installed scheduler; nothing without one.
pub fn schedule(scheduler: &mut Option<Scheduler>, procs: &mut ProcessTable) -> (r: Option<ContextSwitch>)
    requires
        old(procs).wf(),
        *old(scheduler) matches Some(s) ==> can_schedule(s.queue(), s.current(), old(procs).slots()),
    ensures
        final(procs).wf(),
        final(procs).next_pid() == old(procs).next_pid(),
        match *old(scheduler) {
            Some(s) => *final(scheduler) matches Some(t)
                && (t.queue(), t.current(), final(procs).slots(), final(procs).current_pid(), r)
                    == schedule_effect(s.queue(), s.current(), old(procs).slots(), old(procs).current_pid()),
            None => *final(scheduler) is None && r is None && final(procs).slots() == old(procs).slots()
                && final(procs).current_pid() == old(procs).current_pid(),
        },
{
    match scheduler {
        Some(s) => s.schedule(procs),
        None => None,
    }
}

/// Removes the first occurrence of `pid` from the installed scheduler's queue.
pub fn remove_from_ready_queue(scheduler: &mut Option<Scheduler>, pid: usize)
    ensures
        match *old(scheduler) {
            Some(s) => *final(scheduler) matches Some(t) && t.queue() == without_first(s.queue(), pid) && t.current() == s.current(),
            None => *final(scheduler) is None,
        },
{
    if let Some(s) = scheduler {
        s.remove_from_ready_queue(pid);
    }
}

} // verus!
