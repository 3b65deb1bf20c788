//! A single-slot run queue and a scheduler over it, for processes named by
//! their pid.
use vstd::prelude::*;

verus! {

/// A run queue that holds at most one process: a process queued while another
/// waits is not kept.
pub struct ProcessQueue {
    head: Option<usize>,
    tail: Option<usize>,
}

impl ProcessQueue {
    /// The waiting process, if any.
    pub closed spec fn waiting(&self) -> Option<usize> {
        self.head
    }

    /// Head and tail agree.
    pub closed spec fn wf(&self) -> bool {
        self.head == self.tail
    }

    /// An empty queue.
    pub fn new() -> (q: Self)
        ensures
            q.wf(),
            q.waiting() is None,
    {
        ProcessQueue { head: None, tail: None }
    }

    /// Queues `process` when nothing waits; otherwise the queue is unchanged.
    pub fn push(&mut self, process: usize)
        requires
            old(self).wf(),
        ensures
            final(self).wf(),
            final(self).waiting() == if old(self).waiting() is None { Some(process) } else { old(self).waiting() },
    {
        if self.tail.is_none() {
            self.head = Some(process);
            self.tail = Some(process);
        }
    }

    /// Takes the waiting process, leaving the queue empty.
    pub fn pop(&mut self) -> (r: Option<usize>)
        requires
            old(self).wf(),
        ensures
            final(self).wf(),
            r == old(self).waiting(),
            final(self).waiting() is None,
    {
        let head = self.head;
        if head.is_some() {
            self.head = None;
            self.tail = None;
        }
        head
    }
}

/// A scheduler over a `ProcessQueue`.
pub struct Scheduler {
    ready_queue: ProcessQueue,
    current_process: Option<usize>,
}

impl Scheduler {
    /// The waiting process.
    pub closed spec fn waiting(&self) -> Option<usize> {
        self.ready_queue.waiting()
    }

    /// The process switched to last.
    pub closed spec fn current(&self) -> Option<usize> {
        self.current_process
    }

    /// The queue is well formed.
    pub closed spec fn wf(&self) -> bool {
        self.ready_queue.wf()
    }

    /// Nothing waiting, nothing running.
    pub fn new() -> (s: Self)
        ensures
            s.wf(),
            s.waiting() is None,
            s.current() is None,
    {
        Scheduler { ready_queue: ProcessQueue::new(), current_process: None }
    }

    /// Queues `process` (kept only when nothing waits).
    pub fn add_process(&mut self, process: usize)
        requires
            old(self).wf(),
        ensures
            final(self).wf(),
            final(self).waiting() == if old(self).waiting() is None { Some(process) } else { old(self).waiting() },
            final(self).current() == old(self).current(),
    {
        self.ready_queue.push(process);
    }

    /// Takes the waiting process.
    pub fn select_next_process(&mut self) -> (r: Option<usize>)
        requires
            old(self).wf(),
        ensures
            final(self).wf(),
            r == old(self).waiting(),
            final(self).waiting() is None,
            final(self).current() == old(self).current(),
    {
        self.ready_queue.pop()
    }

    /// Records `next_process` as running.
    pub fn switch_process(&mut self, next_process: usize)
        requires
            old(self).wf(),
        ensures
            final(self).wf(),
            final(self).current() == Some(next_process),
            final(self).waiting() == old(self).waiting(),
    {
        self.current_process = Some(next_process);
    }

    /// The process switched to last.
    pub fn current_process(&self) -> (r: Option<usize>)
        ensures
            r == self.current(),
    {
        self.current_process
    }
}

} // verus!
