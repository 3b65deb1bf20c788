//! Processes and their scheduling.
use vstd::prelude::*;

pub mod control_block;
pub mod process;
pub mod run_queue;
pub mod scheduler;

use crate::mm::address_space::PhysicalMemory;
use crate::mm::physical::{PhysicalMemoryManager, manager_ready, manager_view};
use process::{ProcessTable, ProcessError, ProcessState, create_result, with_state};
use scheduler::Scheduler;

verus! {

/// Sets up process management: creates the first process, makes it the
/// running one, and installs an empty scheduler.
pub fn init(
    procs: &mut ProcessTable,
    scheduler: &mut Option<Scheduler>,
    pmm: &mut Option<PhysicalMemoryManager>,
    mem: &mut PhysicalMemory,
) -> (r: Result<usize, ProcessError>)
    requires
        old(procs).wf(),
        manager_ready(*old(pmm)),
        *old(pmm) matches Some(m) ==> m@.1 * 512 <= old(mem)@.len() && m@.2 + 1 < usize::MAX,
    ensures
        final(procs).wf(),
        *final(pmm) matches Some(n) ==> n.wf(),
        *final(scheduler) matches Some(s) && s.queue() == Seq::<usize>::empty() && s.current() is None,
        ({
            let (res, m, p, root, top) = create_result(old(mem)@, manager_view(*old(pmm)), old(procs).next_pid());
            &&& r == res
            &&& final(mem)@ == m
            &&& manager_view(*final(pmm)) == p
            &&& match r {
                Ok(pid) => {
                    &&& final(procs).current_pid() == Some(pid)
                    &&& final(procs).slots()[pid as int] matches Some(q) && q.state == ProcessState::Running
                        && with_state(q, ProcessState::Ready).is_fresh(pid, root, top, 0)
                    &&& final(procs).slots() == old(procs).slots().update(pid as int, final(procs).slots()[pid as int])
                },
                Err(_) => final(procs).slots() == old(procs).slots() && final(procs).current_pid() == old(procs).current_pid(),
            }
        }),
{
    let r = procs.init(pmm, mem);
    *scheduler = scheduler::init();
    r
}

} // verus!
