//! Counting and binary semaphores that block and wake processes.
use vstd::prelude::*;
use super::IpcError;
use crate::task::process::{ProcessTable, ProcessState, ProcessControlBlock, MAX_PROCESSES, with_state};
use crate::task::scheduler::{Scheduler, add_to_ready_queue};

verus! {

/// The most semaphores ever created.
pub const MAX_SEMAPHORES: usize = 64;

/// Whether a semaphore starts at 0 or 1, or higher.
#[derive(Debug, Copy, Clone, PartialEq, Eq, Structural)]
pub enum SemaphoreType {
    Binary,
    Counting,
}

/// A semaphore: its value, its kind, its name, the processes blocked on it
/// (most recent last) and whether it is live.
pub struct Semaphore {
    pub value: isize,
    pub sem_type: SemaphoreType,
    pub name: Option<String>,
    pub waiting_processes: Vec<usize>,
    pub is_initialized: bool,
}

/// Whether slot `s` holds a semaphore named `name`.
pub open spec fn sem_named(s: Option<Semaphore>, name: Seq<char>) -> bool {
    s matches Some(x) && x.name matches Some(n) && n@ == name
}

/// The pending pids of the installed scheduler, if any.
pub open spec fn ready_of(s: Option<Scheduler>) -> Option<Seq<usize>> {
    match s {
        Some(x) => Some(x.queue()),
        None => None,
    }
}

/// Waking `pid`: a process in its slot becomes ready and joins the ready queue.
pub open spec fn wake(slots: Seq<Option<ProcessControlBlock>>, ready: Option<Seq<usize>>, pid: usize)
    -> (Seq<Option<ProcessControlBlock>>, Option<Seq<usize>>)
{
    match slots[pid as int] {
        Some(p) => (
            slots.update(pid as int, Some(with_state(p, ProcessState::Ready))),
            match ready {
                Some(q) => Some(q.push(pid)),
                None => None,
            },
        ),
        None => (slots, ready),
    }
}

/// Waking each of `pids` in order.
pub open spec fn wake_all(slots: Seq<Option<ProcessControlBlock>>, ready: Option<Seq<usize>>, pids: Seq<usize>)
    -> (Seq<Option<ProcessControlBlock>>, Option<Seq<usize>>)
    decreases pids.len(),
{
    if pids.len() == 0 {
        (slots, ready)
    } else {
        let (s1, q1) = wake_all(slots, ready, pids.drop_last());
        wake(s1, q1, pids.last())
    }
}

/// What creating a semaphore does: `new` and `r` from `old`.
pub open spec fn create_semaphore_post(old: SemaphoreTable, new: SemaphoreTable, value: isize, name: Option<&str>, r: Result<usize, IpcError>) -> bool {
    &&& (new.wf())
    &&& (value < 0 ==> r == Err::<usize, IpcError>(IpcError::InvalidArgument) && new == old)
    &&& (value >= 0 && old.next_id() >= MAX_SEMAPHORES
        ==> r == Err::<usize, IpcError>(IpcError::ResourceBusy) && new == old)
    &&& (value >= 0 && old.next_id() < MAX_SEMAPHORES ==> {
        &&& new.next_id() == old.next_id() + 1
        &&& if name matches Some(n) && exists|i: int| 0 <= i < old.slots().len() && sem_named(#[trigger] old.slots()[i], n@) {
            &&& r == Err::<usize, IpcError>(IpcError::ResourceBusy)
            &&& new.slots() == old.slots()
        } else {
            &&& r == Ok::<usize, IpcError>(old.next_id())
            &&& new.slots().len() == old.slots().len() + 1
            &&& new.slots().drop_last() == old.slots()
            &&& new.slots().last() matches Some(s) && s.value == value
                && s.sem_type == (if value <= 1 { SemaphoreType::Binary } else { SemaphoreType::Counting })
                && s.waiting_processes@ == Seq::<usize>::empty() && s.is_initialized
                && match name {
                    Some(n) => s.name matches Some(sn) && sn@ == n@,
                    None => s.name is None,
                }
        }
    })
}

/// What opening a semaphore by name gives.
pub open spec fn open_semaphore_post(t: SemaphoreTable, name: &str, r: Result<usize, IpcError>) -> bool {
    &&& (match r {
        Ok(i) => i < t.slots().len() && sem_named(t.slots()[i as int], name@)
            && forall|k: int| 0 <= k < i ==> !sem_named(#[trigger] t.slots()[k], name@),
        Err(e) => e == IpcError::NotFound
            && forall|k: int| 0 <= k < t.slots().len() ==> !sem_named(#[trigger] t.slots()[k], name@),
    })
}

/// What the wait operation does to the semaphores and processes.
pub open spec fn semaphore_p_post(old: SemaphoreTable, new: SemaphoreTable, oldp: ProcessTable, newp: ProcessTable, sem_id: usize, r: Result<(), IpcError>) -> bool {
    &&& (new.wf())
    &&& (newp.wf())
    &&& (newp.next_pid() == oldp.next_pid())
    &&& (newp.current_pid() == oldp.current_pid())
    &&& (new.next_id() == old.next_id())
    &&& (!old.live(sem_id) || oldp.current_pid() is None ==> {
        &&& r == Err::<(), IpcError>(IpcError::InvalidArgument)
        &&& new.slots() == old.slots()
        &&& newp.slots() == oldp.slots()
    })
    &&& (old.live(sem_id) && oldp.current_pid() is Some ==> {
        let pid = oldp.current_pid()->0;
        let s = old.slots()[sem_id as int]->0;
        let v = s.value - 1;
        &&& r == Ok::<(), IpcError>(())
        &&& new.slots().len() == old.slots().len()
        &&& forall|i: int| 0 <= i < old.slots().len() && i != sem_id ==> #[trigger] new.slots()[i] == old.slots()[i]
        &&& new.slots()[sem_id as int] matches Some(t) && t.value == v && t.sem_type == s.sem_type
            && t.name == s.name && t.is_initialized
            && t.waiting_processes@ == (if v < 0 { s.waiting_processes@.push(pid) } else { s.waiting_processes@ })
        &&& newp.slots() == if v < 0 {
            match oldp.slots()[pid as int] {
                Some(p) => oldp.slots().update(pid as int, Some(with_state(p, ProcessState::Blocked))),
                None => oldp.slots(),
            }
        } else {
            oldp.slots()
        }
    })
}

/// When the wait operation can run.
pub open spec fn semaphore_p_pre(t: SemaphoreTable, procs: ProcessTable, sem_id: usize) -> bool {
    &&& (t.wf())
    &&& (procs.wf())
    &&& (procs.current_pid() matches Some(c) ==> c < MAX_PROCESSES)
    &&& (t.live(sem_id) ==> t.slots()[sem_id as int]->0.value > isize::MIN)
}

/// What the signal operation does to the semaphores, processes and ready queue.
pub open spec fn semaphore_v_post(old: SemaphoreTable, new: SemaphoreTable, oldp: ProcessTable, newp: ProcessTable, olds: Option<Scheduler>, news: Option<Scheduler>, sem_id: usize, r: Result<(), IpcError>) -> bool {
    &&& (new.wf())
    &&& (newp.wf())
    &&& (newp.next_pid() == oldp.next_pid())
    &&& (newp.current_pid() == oldp.current_pid())
    &&& (new.next_id() == old.next_id())
    &&& ((news is Some) == (olds is Some))
    &&& (ready_of(news) matches Some(q) ==> news->0.current() == olds->0.current())
    &&& (!old.live(sem_id) ==> {
        &&& r == Err::<(), IpcError>(IpcError::InvalidArgument)
        &&& new.slots() == old.slots()
        &&& newp.slots() == oldp.slots()
        &&& ready_of(news) == ready_of(olds)
    })
    &&& (old.live(sem_id) ==> {
        let s = old.slots()[sem_id as int]->0;
        let v = s.value + 1;
        let w = s.waiting_processes@;
        let wakes = v <= 0 && w.len() > 0;
        &&& r == Ok::<(), IpcError>(())
        &&& new.slots().len() == old.slots().len()
        &&& forall|i: int| 0 <= i < old.slots().len() && i != sem_id ==> #[trigger] new.slots()[i] == old.slots()[i]
        &&& new.slots()[sem_id as int] matches Some(t) && t.value == v && t.sem_type == s.sem_type
            && t.name == s.name && t.is_initialized
            && t.waiting_processes@ == (if wakes { w.drop_last() } else { w })
        &&& (newp.slots(), ready_of(news)) == if wakes {
            wake(oldp.slots(), ready_of(olds), w.last())
        } else {
            (oldp.slots(), ready_of(olds))
        }
    })
}

/// What closing a semaphore does to the semaphores, processes and ready queue.
pub open spec fn close_semaphore_post(old: SemaphoreTable, new: SemaphoreTable, oldp: ProcessTable, newp: ProcessTable, olds: Option<Scheduler>, news: Option<Scheduler>, sem_id: usize, r: Result<(), IpcError>) -> bool {
    &&& (new.wf())
    &&& (newp.wf())
    &&& (newp.next_pid() == oldp.next_pid())
    &&& (newp.current_pid() == oldp.current_pid())
    &&& (new.next_id() == old.next_id())
    &&& ((news is Some) == (olds is Some))
    &&& (ready_of(news) matches Some(q) ==> news->0.current() == olds->0.current())
    &&& (match (if sem_id < old.slots().len() { old.slots()[sem_id as int] } else { None }) {
        Some(s) => {
            &&& r == Ok::<(), IpcError>(())
            &&& new.slots() == old.slots().update(sem_id as int, None)
            &&& (newp.slots(), ready_of(news))
                == wake_all(oldp.slots(), ready_of(olds), s.waiting_processes@)
        },
        None => {
            &&& r == Err::<(), IpcError>(IpcError::InvalidArgument)
            &&& new.slots() == old.slots()
            &&& newp.slots() == oldp.slots()
            &&& ready_of(news) == ready_of(olds)
        },
    })
}

/// When the signal operation can run.
pub open spec fn semaphore_v_pre(t: SemaphoreTable, procs: ProcessTable, sem_id: usize) -> bool {
    &&& (t.wf())
    &&& (procs.wf())
    &&& (t.live(sem_id) ==> t.slots()[sem_id as int]->0.value < isize::MAX)
}

/// The semaphores, indexed by slot, and the next id to hand out.
pub struct SemaphoreTable {
    semaphores: Vec<Option<Semaphore>>,
    next_sem_id: usize,
}

impl SemaphoreTable {
    /// The slots; a closed semaphore leaves `None`.
    pub closed spec fn slots(&self) -> Seq<Option<Semaphore>> {
        self.semaphores@
    }

    /// The id the next creation hands out.
    pub closed spec fn next_id(&self) -> usize {
        self.next_sem_id
    }

    /// Slots are only added by a creation that took an id, ids stop at
    /// `MAX_SEMAPHORES`, and blocked pids are process slots.
    pub open spec fn wf(&self) -> bool {
        &&& self.slots().len() <= self.next_id() <= MAX_SEMAPHORES
        &&& forall|i: int| 0 <= i < self.slots().len() ==> (#[trigger] self.slots()[i] matches Some(s)
            ==> forall|k: int| 0 <= k < s.waiting_processes@.len() ==> #[trigger] s.waiting_processes@[k] < MAX_PROCESSES)
    }

    /// No semaphore, ids from 0.
    pub fn new() -> (t: Self)
        ensures
            t.wf(),
            t.slots() == Seq::<Option<Semaphore>>::empty(),
            t.next_id() == 0,
    {
        SemaphoreTable { semaphores: Vec::new(), next_sem_id: 0 }
    }

    /// The first slot holding a semaphore named `name`.
    fn find_named(&self, name: &String) -> (r: Option<usize>)
        ensures
            match r {
                Some(i) => i < self.slots().len() && sem_named(self.slots()[i as int], name@)
                    && forall|k: int| 0 <= k < i ==> !sem_named(#[trigger] self.slots()[k], name@),
                None => forall|k: int| 0 <= k < self.slots().len() ==> !sem_named(#[trigger] self.slots()[k], name@),
            },
    {
        let n = self.semaphores.len();
        let mut i: usize = 0;
        while i < n
            invariant
                n == self.semaphores@.len(),
                i <= n,
                forall|k: int| 0 <= k < i ==> !sem_named(#[trigger] self.semaphores@[k], name@),
            decreases n - i,
        {
            if let Some(sem) = &self.semaphores[i] {
                if let Some(sem_name) = &sem.name {
                    if *sem_name == *name {
                        return Some(i);
                    }
                }
            }
            i = i + 1;
        }
        None
    }

    /// Creates a semaphore with initial `value` (binary when at most 1) and an
    /// optional name. A negative value is `InvalidArgument`; running out of ids
    /// or a name already in use is `ResourceBusy`. The id handed out is the
    /// creation count, which a name clash also advances.
    pub fn create_semaphore(&mut self, value: isize, name: Option<&str>) -> (r: Result<usize, IpcError>)
        requires
            old(self).wf(),
        ensures
            create_semaphore_post(*old(self), *final(self), value, name, r),
    {
        if value < 0 {
            return Err(IpcError::InvalidArgument);
        }
        let sem_type = if value <= 1 { SemaphoreType::Binary } else { SemaphoreType::Counting };
        let sem_id = self.next_sem_id;
        if sem_id >= MAX_SEMAPHORES {
            return Err(IpcError::ResourceBusy);
        }
        self.next_sem_id = sem_id + 1;
        let owned: Option<String> = match name {
            Some(n) => {
                let s = n.to_owned();
                if self.find_named(&s).is_some() {
                    return Err(IpcError::ResourceBusy);
                }
                Some(s)
            },
            None => None,
        };
        let ghost before = self.semaphores@;
        self.semaphores.push(Some(Semaphore {
            value,
            sem_type,
            name: owned,
            waiting_processes: Vec::new(),
            is_initialized: true,
        }));
        proof {
            assert(self.semaphores@.drop_last() =~= before);
        }
        Ok(sem_id)
    }

    /// The first slot holding a semaphore named `name`; `NotFound` when none does.
    pub fn open_semaphore(&self, name: &str) -> (r: Result<usize, IpcError>)
        ensures
            open_semaphore_post(*self, name, r),
    {
        let owned = name.to_owned();
        match self.find_named(&owned) {
            Some(i) => Ok(i),
            None => Err(IpcError::NotFound),
        }
    }

    /// Whether `sem_id` names a live semaphore.
    pub open spec fn live(&self, sem_id: usize) -> bool {
        sem_id < self.slots().len() && (self.slots()[sem_id as int] matches Some(s) && s.is_initialized)
    }

    /// The value of semaphore `sem_id`; `InvalidArgument` unless it is live.
    pub fn semaphore_get_value(&self, sem_id: usize) -> (r: Result<isize, IpcError>)
        ensures
            self.live(sem_id) ==> r == Ok::<isize, IpcError>(self.slots()[sem_id as int]->0.value),
            !self.live(sem_id) ==> r == Err::<isize, IpcError>(IpcError::InvalidArgument),
    {
        if sem_id >= self.semaphores.len() {
            return Err(IpcError::InvalidArgument);
        }
        match &self.semaphores[sem_id] {
            Some(s) => if s.is_initialized { Ok(s.value) } else { Err(IpcError::InvalidArgument) },
            None => Err(IpcError::InvalidArgument),
        }
    }

    /// The wait operation for the running process: the value drops by one,
    /// and when it falls below zero the process joins the waiters and is
    /// blocked. `InvalidArgument` unless the semaphore is live and a process runs.
    pub fn semaphore_p(&mut self, procs: &mut ProcessTable, sem_id: usize) -> (r: Result<(), IpcError>)
        requires
            semaphore_p_pre(*old(self), *old(procs), sem_id),
        ensures
            semaphore_p_post(*old(self), *final(self), *old(procs), *final(procs), sem_id, r),
    {
        if sem_id >= self.semaphores.len() {
            return Err(IpcError::InvalidArgument);
        }
        let mut slot: Option<Semaphore> = None;
        self.semaphores.set_and_swap(sem_id, &mut slot);
        let mut sem = match slot {
            Some(s) => s,
            None => {
                proof { assert(self.semaphores@ =~= old(self).slots()); }
                return Err(IpcError::InvalidArgument);
            },
        };
        if !sem.is_initialized {
            let mut back = Some(sem);
            self.semaphores.set_and_swap(sem_id, &mut back);
            proof { assert(self.semaphores@ =~= old(self).slots()); }
            return Err(IpcError::InvalidArgument);
        }
        let pid = match procs.get_current_pid() {
            Some(p) => p,
            None => {
                let mut back = Some(sem);
                self.semaphores.set_and_swap(sem_id, &mut back);
                proof { assert(self.semaphores@ =~= old(self).slots()); }
                return Err(IpcError::InvalidArgument);
            },
        };
        sem.value = sem.value - 1;
        if sem.value < 0 {
            sem.waiting_processes.push(pid);
            procs.set_state(pid, ProcessState::Blocked);
        }
        let mut back = Some(sem);
        self.semaphores.set_and_swap(sem_id, &mut back);
        proof {
            assert forall|i: int| 0 <= i < self.slots().len() implies (#[trigger] self.slots()[i] matches Some(s)
                ==> forall|k: int| 0 <= k < s.waiting_processes@.len() ==> #[trigger] s.waiting_processes@[k] < MAX_PROCESSES) by {
                if i != sem_id {
                    assert(self.slots()[i] == old(self).slots()[i]);
                }
            }
        }
        Ok(())
    }

    /// The signal operation: the value rises by one, and when it is still at
    /// most zero the most recently blocked waiter (last in, first out) leaves the waiters and, if its
    /// process exists, is made ready and queued. `InvalidArgument` unless the
    /// semaphore is live.
    pub fn semaphore_v(&mut self, procs: &mut ProcessTable, scheduler: &mut Option<Scheduler>, sem_id: usize)
        -> (r: Result<(), IpcError>)
        requires
            semaphore_v_pre(*old(self), *old(procs), sem_id),
        ensures
            semaphore_v_post(*old(self), *final(self), *old(procs), *final(procs), *old(scheduler), *final(scheduler), sem_id, r),
    {
        if sem_id >= self.semaphores.len() {
            return Err(IpcError::InvalidArgument);
        }
        let mut slot: Option<Semaphore> = None;
        self.semaphores.set_and_swap(sem_id, &mut slot);
        let mut sem = match slot {
            Some(s) => s,
            None => {
                proof { assert(self.semaphores@ =~= old(self).slots()); }
                return Err(IpcError::InvalidArgument);
            },
        };
        if !sem.is_initialized {
            let mut back = Some(sem);
            self.semaphores.set_and_swap(sem_id, &mut back);
            proof { assert(self.semaphores@ =~= old(self).slots()); }
            return Err(IpcError::InvalidArgument);
        }
        proof {
            assert(old(self).slots()[sem_id as int] matches Some(s)
                ==> forall|k: int| 0 <= k < s.waiting_processes@.len() ==> #[trigger] s.waiting_processes@[k] < MAX_PROCESSES);
        }
        sem.value = sem.value + 1;
        if sem.value <= 0 {
            if let Some(pid) = sem.waiting_processes.pop() {
                let exists = procs.get_process(pid).is_some();
                if exists {
                    procs.set_state(pid, ProcessState::Ready);
                    add_to_ready_queue(scheduler, pid);
                }
            }
        }
        let mut back = Some(sem);
        self.semaphores.set_and_swap(sem_id, &mut back);
        proof {
            assert forall|i: int| 0 <= i < self.slots().len() implies (#[trigger] self.slots()[i] matches Some(s)
                ==> forall|k: int| 0 <= k < s.waiting_processes@.len() ==> #[trigger] s.waiting_processes@[k] < MAX_PROCESSES) by {
                if i != sem_id {
                    assert(self.slots()[i] == old(self).slots()[i]);
                } else {
                    let t = self.slots()[i]->0;
                    assert forall|k: int| 0 <= k < t.waiting_processes@.len() implies #[trigger] t.waiting_processes@[k] < MAX_PROCESSES by {
                        assert(t.waiting_processes@[k] == old(self).slots()[sem_id as int]->0.waiting_processes@[k]);
                    }
                }
            }
        }
        Ok(())
    }

    /// Closes semaphore `sem_id`: every waiter whose process exists is made
    /// ready and queued, in the order they blocked, and the slot is emptied.
    /// `InvalidArgument` when the slot is empty.
    pub fn close_semaphore(&mut self, procs: &mut ProcessTable, scheduler: &mut Option<Scheduler>, sem_id: usize)
        -> (r: Result<(), IpcError>)
        requires
            old(self).wf(),
            old(procs).wf(),
        ensures
            close_semaphore_post(*old(self), *final(self), *old(procs), *final(procs), *old(scheduler), *final(scheduler), sem_id, r),
    {
        if sem_id >= self.semaphores.len() {
            return Err(IpcError::InvalidArgument);
        }
        let mut slot: Option<Semaphore> = None;
        self.semaphores.set_and_swap(sem_id, &mut slot);
        let sem = match slot {
            Some(s) => s,
            None => {
                proof { assert(self.semaphores@ =~= old(self).slots()); }
                return Err(IpcError::InvalidArgument);
            },
        };
        proof {
            assert(self.semaphores@ =~= old(self).slots().update(sem_id as int, None));
            assert(old(self).slots()[sem_id as int] matches Some(s)
                ==> forall|k: int| 0 <= k < s.waiting_processes@.len() ==> #[trigger] s.waiting_processes@[k] < MAX_PROCESSES);
        }
        let w = &sem.waiting_processes;
        let mut i: usize = 0;
        while i < w.len()
            invariant
                i <= w@.len(),
                w@ == sem.waiting_processes@,
                forall|k: int| 0 <= k < w@.len() ==> #[trigger] w@[k] < MAX_PROCESSES,
                procs.wf(),
                procs.next_pid() == old(procs).next_pid(),
                procs.current_pid() == old(procs).current_pid(),
                (*scheduler is Some) == (*old(scheduler) is Some),
                ready_of(*scheduler) matches Some(q) ==> scheduler->0.current() == old(scheduler)->0.current(),
                (procs.slots(), ready_of(*scheduler)) == wake_all(old(procs).slots(), ready_of(*old(scheduler)), w@.take(i as int)),
            decreases w@.len() - i,
        {
            let pid = w[i];
            let exists = procs.get_process(pid).is_some();
            if exists {
                procs.set_state(pid, ProcessState::Ready);
                add_to_ready_queue(scheduler, pid);
            }
            proof {
                assert(w@.take(i + 1).drop_last() =~= w@.take(i as int));
                assert(w@.take(i + 1).last() == pid);
            }
            i = i + 1;
        }
        proof {
            assert(w@.take(w@.len() as int) =~= w@);
        }
        Ok(())
    }
}

/// A wait followed by a signal on the same live semaphore restores its value
/// and its waiters: a process the wait blocked is the one the signal wakes.
pub proof fn law_wait_then_signal(
    s0: SemaphoreTable, s1: SemaphoreTable, s2: SemaphoreTable,
    p0: ProcessTable, p1: ProcessTable, p2: ProcessTable,
    q0: Option<Scheduler>, q1: Option<Scheduler>,
    sem_id: usize, r1: Result<(), IpcError>, r2: Result<(), IpcError>,
)
    requires
        s0.live(sem_id),
        p0.current_pid() is Some,
        semaphore_p_post(s0, s1, p0, p1, sem_id, r1),
        semaphore_v_post(s1, s2, p1, p2, q0, q1, sem_id, r2),
    ensures
        r1 == Ok::<(), IpcError>(()) && r2 == Ok::<(), IpcError>(()),
        s2.slots()[sem_id as int]->0.value == s0.slots()[sem_id as int]->0.value,
        s2.slots()[sem_id as int]->0.waiting_processes@ == s0.slots()[sem_id as int]->0.waiting_processes@,
        s0.slots()[sem_id as int]->0.value <= 0 ==> (p2.slots(), ready_of(q1))
            == wake(p1.slots(), ready_of(q0), p0.current_pid()->0),
{
    let w0 = s0.slots()[sem_id as int]->0.waiting_processes@;
    let pid = p0.current_pid()->0;
    if s0.slots()[sem_id as int]->0.value - 1 < 0 {
        assert(w0.push(pid).drop_last() =~= w0);
        assert(w0.push(pid).last() == pid);
    }
}

/// A semaphore whose blocked processes number exactly how far its value is
/// below zero.
pub open spec fn waiters_match_value(s: Semaphore) -> bool {
    s.waiting_processes@.len() == (if s.value < 0 { -s.value } else { 0 })
}

/// Every operation keeps a semaphore's waiters matched to its value: a new
/// semaphore starts matched, and a wait or a signal on a matched live
/// semaphore leaves it matched.
pub proof fn law_waiters_match_value(
    s0: SemaphoreTable, s1: SemaphoreTable,
    p0: ProcessTable, p1: ProcessTable,
    q0: Option<Scheduler>, q1: Option<Scheduler>,
    sem_id: usize, value: isize, name: Option<&str>,
    rc: Result<usize, IpcError>, r: Result<(), IpcError>,
)
    ensures
        create_semaphore_post(s0, s1, value, name, rc) && rc is Ok ==> waiters_match_value(s1.slots().last()->0),
        semaphore_p_post(s0, s1, p0, p1, sem_id, r) && s0.live(sem_id) && p0.current_pid() is Some
            && waiters_match_value(s0.slots()[sem_id as int]->0)
            ==> waiters_match_value(s1.slots()[sem_id as int]->0),
        semaphore_v_post(s0, s1, p0, p1, q0, q1, sem_id, r) && s0.live(sem_id)
            && waiters_match_value(s0.slots()[sem_id as int]->0)
            ==> waiters_match_value(s1.slots()[sem_id as int]->0),
{
    if create_semaphore_post(s0, s1, value, name, rc) && rc is Ok {
        assert(value >= 0);
    }
}

} // verus!
