//! The enclave scheduler: one queue per enclave kind, served by fixed priority.
use vstd::prelude::*;

pub mod context_switch;
pub mod monitoring;
pub mod core_binding;
pub mod queue;
pub mod ring_buffer;

use queue::{EnclaveQueue, QueueStatus};
use core_binding::CoreBindingManager;
use monitoring::MonitoringStats;
use ring_buffer::RING_BUFFER_SIZE;

verus! {

/// The four kinds of enclave process the scheduler serves.
#[derive(Debug, Clone, Copy, PartialEq, Eq, Structural)]
pub enum EnclaveType {
    GraphicEnclave,
    AIEnclave,
    MediaEnclave,
    NetworkEnclave,
}

/// Scheduler of the four enclave kinds: AI first, then graphics, media and network.
pub struct EnclaveScheduler {
    ai_queue: EnclaveQueue,
    graphic_queue: EnclaveQueue,
    media_queue: EnclaveQueue,
    network_queue: EnclaveQueue,
    core_binding: CoreBindingManager,
    monitoring: MonitoringStats,
    current_enclave: Option<EnclaveType>,
}

/// The kinds in the order the scheduler serves them.
pub open spec fn priority_rank(t: EnclaveType) -> int {
    match t {
        EnclaveType::AIEnclave => 0,
        EnclaveType::GraphicEnclave => 1,
        EnclaveType::MediaEnclave => 2,
        EnclaveType::NetworkEnclave => 3,
    }
}

impl EnclaveScheduler {
    /// Each queue is consistent and holds its own kind; the core layout is well formed.
    pub closed spec fn wf(&self) -> bool {
        &&& self.ai_queue.wf() && self.ai_queue.kind() == EnclaveType::AIEnclave
        &&& self.graphic_queue.wf() && self.graphic_queue.kind() == EnclaveType::GraphicEnclave
        &&& self.media_queue.wf() && self.media_queue.kind() == EnclaveType::MediaEnclave
        &&& self.network_queue.wf() && self.network_queue.kind() == EnclaveType::NetworkEnclave
        &&& self.core_binding.wf()
    }

    /// The queue of kind `t`.
    pub closed spec fn queue_spec(&self, t: EnclaveType) -> EnclaveQueue {
        match t {
            EnclaveType::AIEnclave => self.ai_queue,
            EnclaveType::GraphicEnclave => self.graphic_queue,
            EnclaveType::MediaEnclave => self.media_queue,
            EnclaveType::NetworkEnclave => self.network_queue,
        }
    }

    /// The entries waiting in the queue of kind `t`, oldest first.
    pub open spec fn queue_of(&self, t: EnclaveType) -> Seq<EnclaveType> {
        self.queue_spec(t)@
    }

    /// The running enclave.
    pub closed spec fn current_spec(&self) -> Option<EnclaveType> {
        self.current_enclave
    }

    /// The core binding manager.
    pub closed spec fn core_binding_spec(&self) -> CoreBindingManager {
        self.core_binding
    }

    /// The scheduling counters.
    pub closed spec fn monitoring_spec(&self) -> MonitoringStats {
        self.monitoring
    }

    /// The first kind, in serving order, whose queue is not empty.
    pub open spec fn next_kind(&self) -> Option<EnclaveType> {
        if self.queue_of(EnclaveType::AIEnclave).len() > 0 {
            Some(EnclaveType::AIEnclave)
        } else if self.queue_of(EnclaveType::GraphicEnclave).len() > 0 {
            Some(EnclaveType::GraphicEnclave)
        } else if self.queue_of(EnclaveType::MediaEnclave).len() > 0 {
            Some(EnclaveType::MediaEnclave)
        } else if self.queue_of(EnclaveType::NetworkEnclave).len() > 0 {
            Some(EnclaveType::NetworkEnclave)
        } else {
            None
        }
    }

    /// Empty queues, the four-core layout, zero counters, nothing running.
    pub fn new() -> (s: Self)
        ensures
            s.wf(),
            forall|t: EnclaveType| #[trigger] s.queue_of(t) == Seq::<EnclaveType>::empty(),
            s.current_spec() is None,
            s.core_binding_spec().config_spec().is_four_core_layout(),
            s.monitoring_spec().counts() == (0usize, 0usize, 0usize, 0usize, 0usize),
    {
        EnclaveScheduler {
            ai_queue: EnclaveQueue::new(EnclaveType::AIEnclave),
            graphic_queue: EnclaveQueue::new(EnclaveType::GraphicEnclave),
            media_queue: EnclaveQueue::new(EnclaveType::MediaEnclave),
            network_queue: EnclaveQueue::new(EnclaveType::NetworkEnclave),
            core_binding: CoreBindingManager::new(),
            monitoring: MonitoringStats::new(),
            current_enclave: None,
        }
    }

    /// Initialises the core binding manager.
    pub fn init(&mut self)
        requires
            old(self).wf(),
        ensures
            final(self).wf(),
            final(self).core_binding_spec().is_initialized(),
            core_binding::allocation_for(4u8, final(self).core_binding_spec().config_spec()),
            forall|t: EnclaveType| #[trigger] final(self).queue_of(t) == old(self).queue_of(t),
            final(self).current_spec() == old(self).current_spec(),
            final(self).monitoring_spec() == old(self).monitoring_spec(),
    {
        self.core_binding.init();
    }

    /// Queues an enclave of kind `enclave_type` in its own queue.
    pub fn enqueue_enclave(&mut self, enclave_type: EnclaveType) -> (r: Result<(), &'static str>)
        requires
            old(self).wf(),
        ensures
            final(self).wf(),
            old(self).queue_of(enclave_type).len() == RING_BUFFER_SIZE - 1 ==> r == Err::<(), &str>("Ring buffer is full")
                && *final(self) == *old(self),
            old(self).queue_of(enclave_type).len() != RING_BUFFER_SIZE - 1 ==> r == Ok::<(), &str>(())
                && final(self).queue_of(enclave_type) == old(self).queue_of(enclave_type).push(enclave_type)
                && final(self).queue_spec(enclave_type).enqueues() == old(self).queue_spec(enclave_type).enqueues().wrapping_add(1)
                && final(self).queue_spec(enclave_type).dequeues() == old(self).queue_spec(enclave_type).dequeues(),
            forall|t: EnclaveType| t != enclave_type ==> #[trigger] final(self).queue_spec(t) == old(self).queue_spec(t),
            forall|t: EnclaveType| t != enclave_type ==> #[trigger] final(self).queue_of(t) == old(self).queue_of(t),
            final(self).current_spec() == old(self).current_spec(),
            final(self).monitoring_spec() == old(self).monitoring_spec(),
            final(self).core_binding_spec() == old(self).core_binding_spec(),
    {
        match enclave_type {
            EnclaveType::AIEnclave => self.ai_queue.enqueue(enclave_type),
            EnclaveType::GraphicEnclave => self.graphic_queue.enqueue(enclave_type),
            EnclaveType::MediaEnclave => self.media_queue.enqueue(enclave_type),
            EnclaveType::NetworkEnclave => self.network_queue.enqueue(enclave_type),
        }
    }

    /// Takes the oldest entry of the first non-empty queue in serving order and
    /// counts the schedule; `None` when every queue is empty.
    pub fn select_next_enclave(&mut self) -> (r: Option<EnclaveType>)
        requires
            old(self).wf(),
        ensures
            final(self).wf(),
            r == old(self).next_kind(),
            r matches Some(k) ==> final(self).queue_of(k) == old(self).queue_of(k).drop_first()
                && final(self).monitoring_spec().counts().0 == old(self).monitoring_spec().counts().0.wrapping_add(1)
                && MonitoringStats::count_of(final(self).monitoring_spec().counts(), k)
                    == MonitoringStats::count_of(old(self).monitoring_spec().counts(), k).wrapping_add(1)
                && forall|t: EnclaveType| t != k ==> #[trigger] MonitoringStats::count_of(final(self).monitoring_spec().counts(), t)
                    == MonitoringStats::count_of(old(self).monitoring_spec().counts(), t),
            r is None ==> final(self).monitoring_spec().counts() == old(self).monitoring_spec().counts(),
            forall|t: EnclaveType| r != Some(t) ==> #[trigger] final(self).queue_of(t) == old(self).queue_of(t),
            final(self).current_spec() == old(self).current_spec(),
            final(self).core_binding_spec() == old(self).core_binding_spec(),
    {
        proof {
            self.ai_queue.lemma_entries_of_kind();
            self.graphic_queue.lemma_entries_of_kind();
            self.media_queue.lemma_entries_of_kind();
            self.network_queue.lemma_entries_of_kind();
        }
        match self.ai_queue.dequeue() {
            Some(enclave) => {
                self.monitoring.record_schedule(EnclaveType::AIEnclave);
                return Some(enclave);
            },
            None => {},
        }
        match self.graphic_queue.dequeue() {
            Some(enclave) => {
                self.monitoring.record_schedule(EnclaveType::GraphicEnclave);
                return Some(enclave);
            },
            None => {},
        }
        match self.media_queue.dequeue() {
            Some(enclave) => {
                self.monitoring.record_schedule(EnclaveType::MediaEnclave);
                return Some(enclave);
            },
            None => {},
        }
        match self.network_queue.dequeue() {
            Some(enclave) => {
                self.monitoring.record_schedule(EnclaveType::NetworkEnclave);
                return Some(enclave);
            },
            None => {},
        }
        None
    }

    /// Whether some queue is not empty.
    pub fn has_pending_enclaves(&self) -> (r: bool)
        requires
            self.wf(),
        ensures
            r == (self.next_kind() is Some),
    {
        !self.ai_queue.is_empty() || !self.graphic_queue.is_empty() || !self.media_queue.is_empty()
            || !self.network_queue.is_empty()
    }

    /// The running enclave.
    pub fn current_enclave(&self) -> (r: Option<EnclaveType>)
        ensures
            r == self.current_spec(),
    {
        self.current_enclave
    }

    /// Sets the running enclave.
    pub fn set_current_enclave(&mut self, enclave: Option<EnclaveType>)
        requires
            old(self).wf(),
        ensures
            final(self).wf(),
            final(self).current_spec() == enclave,
            forall|t: EnclaveType| #[trigger] final(self).queue_of(t) == old(self).queue_of(t),
            final(self).monitoring_spec() == old(self).monitoring_spec(),
            final(self).core_binding_spec() == old(self).core_binding_spec(),
    {
        self.current_enclave = enclave;
    }

    /// The core binding manager.
    pub fn core_binding(&self) -> (c: &CoreBindingManager)
        requires
            self.wf(),
        ensures
            *c == self.core_binding_spec(),
            c.wf(),
    {
        &self.core_binding
    }

    /// The core binding manager, for changes that keep its layout well formed.
    pub fn core_binding_mut(&mut self) -> (c: &mut CoreBindingManager)
        ensures
            *c == old(self).core_binding_spec(),
            final(self).core_binding_spec() == *final(c),
            forall|t: EnclaveType| #[trigger] final(self).queue_of(t) == old(self).queue_of(t),
            final(self).monitoring_spec() == old(self).monitoring_spec(),
            final(self).current_spec() == old(self).current_spec(),
    {
        &mut self.core_binding
    }

    /// The scheduling counters.
    pub fn monitoring(&self) -> (m: &MonitoringStats)
        ensures
            *m == self.monitoring_spec(),
    {
        &self.monitoring
    }

    /// Zeroes the scheduling counters; the start time stamp, the queues, the
    /// running enclave and the core binding stay.
    pub fn reset_stats(&mut self)
        requires
            old(self).wf(),
        ensures
            final(self).wf(),
            final(self).monitoring_spec().counts() == (0usize, 0usize, 0usize, 0usize, 0usize),
            final(self).monitoring_spec().start() == old(self).monitoring_spec().start(),
            forall|t: EnclaveType| #[trigger] final(self).queue_spec(t) == old(self).queue_spec(t),
            final(self).current_spec() == old(self).current_spec(),
            final(self).core_binding_spec() == old(self).core_binding_spec(),
    {
        self.monitoring.reset_stats();
    }

    /// The status of the queue of kind `enclave_type`.
    pub fn queue_status(&self, enclave_type: EnclaveType) -> (s: QueueStatus)
        requires
            self.wf(),
        ensures
            s.length == self.queue_of(enclave_type).len(),
            s.is_empty == (self.queue_of(enclave_type).len() == 0),
            s.is_full == (self.queue_of(enclave_type).len() == RING_BUFFER_SIZE - 1),
            s.total_enqueues == self.queue_spec(enclave_type).enqueues(),
            s.total_dequeues == self.queue_spec(enclave_type).dequeues(),
            s.length == queue::counter_gap(s.total_enqueues, s.total_dequeues),
    {
        match enclave_type {
            EnclaveType::AIEnclave => self.ai_queue.status(),
            EnclaveType::GraphicEnclave => self.graphic_queue.status(),
            EnclaveType::MediaEnclave => self.media_queue.status(),
            EnclaveType::NetworkEnclave => self.network_queue.status(),
        }
    }
}

} // verus!
