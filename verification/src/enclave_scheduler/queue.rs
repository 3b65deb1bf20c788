//! One dedicated queue per enclave kind, with enqueue and dequeue counters.
use vstd::prelude::*;
use super::EnclaveType;
use super::ring_buffer::{LockFreeRingBuffer, RING_BUFFER_SIZE};

verus! {

/// A snapshot of a queue's state.
#[derive(Debug, Clone, Copy)]
pub struct QueueStatus {
    pub length: usize,
    pub is_empty: bool,
    pub is_full: bool,
    pub total_enqueues: usize,
    pub total_dequeues: usize,
}

/// `enq - deq` for counters taken modulo the word size.
pub open spec fn counter_gap(enq: usize, deq: usize) -> int {
    if enq >= deq { enq - deq } else { enq - deq + usize::MAX + 1 }
}

/// The queue of one enclave kind.
pub struct EnclaveQueue {
    enclave_type: EnclaveType,
    ring_buffer: LockFreeRingBuffer,
    total_enqueues: usize,
    total_dequeues: usize,
}

impl EnclaveQueue {
    /// The ring is consistent, holds only this queue's kind, and as many
    /// entries as the counters differ by.
    pub closed spec fn wf(&self) -> bool {
        &&& self.ring_buffer.wf()
        &&& self.ring_buffer@.len() == counter_gap(self.total_enqueues, self.total_dequeues)
        &&& forall|i: int| 0 <= i < self.ring_buffer@.len() ==> #[trigger] self.ring_buffer@[i] == self.enclave_type
    }

    /// Every queued entry is of this queue's kind.
    pub proof fn lemma_entries_of_kind(&self)
        requires
            self.wf(),
        ensures
            forall|i: int| 0 <= i < self@.len() ==> #[trigger] self@[i] == self.kind(),
    {
    }

    /// A consistent queue holds as many entries as its counters differ by.
    pub proof fn lemma_len_counters(&self)
        requires
            self.wf(),
        ensures
            self@.len() == counter_gap(self.enqueues(), self.dequeues()),
    {
    }

    /// The queued entries, oldest first.
    pub closed spec fn view(&self) -> Seq<EnclaveType> {
        self.ring_buffer@
    }

    /// A consistent queue holds at most `RING_BUFFER_SIZE - 1` entries.
    pub proof fn lemma_len_bound(&self)
        requires
            self.wf(),
        ensures
            self@.len() < RING_BUFFER_SIZE,
    {
        self.ring_buffer.lemma_len_bound();
    }

    /// The kind this queue accepts.
    pub closed spec fn kind(&self) -> EnclaveType {
        self.enclave_type
    }

    /// Successful enqueues so far, modulo the word size.
    pub closed spec fn enqueues(&self) -> usize {
        self.total_enqueues
    }

    /// Successful dequeues so far, modulo the word size.
    pub closed spec fn dequeues(&self) -> usize {
        self.total_dequeues
    }

    /// An empty queue for enclaves of kind `enclave_type`.
    pub fn new(enclave_type: EnclaveType) -> (q: Self)
        ensures
            q.wf(),
            q@ == Seq::<EnclaveType>::empty(),
            q.kind() == enclave_type,
            q.enqueues() == 0,
            q.dequeues() == 0,
    {
        EnclaveQueue {
            enclave_type,
            ring_buffer: LockFreeRingBuffer::new(),
            total_enqueues: 0,
            total_dequeues: 0,
        }
    }

    /// The kind this queue accepts.
    pub fn enclave_type(&self) -> (t: EnclaveType)
        ensures
            t == self.kind(),
    {
        self.enclave_type
    }

    /// Appends an entry of this queue's kind; another kind gives
    /// "Enclave type mismatch", a full ring "Ring buffer is full".
    pub fn enqueue(&mut self, enclave_type: EnclaveType) -> (r: Result<(), &'static str>)
        requires
            old(self).wf(),
        ensures
            final(self).wf(),
            final(self).kind() == old(self).kind(),
            final(self).dequeues() == old(self).dequeues(),
            enclave_type != old(self).kind() ==> r == Err::<(), &str>("Enclave type mismatch")
                && final(self)@ == old(self)@ && final(self).enqueues() == old(self).enqueues(),
            enclave_type == old(self).kind() && old(self)@.len() == RING_BUFFER_SIZE - 1
                ==> r == Err::<(), &str>("Ring buffer is full") && *final(self) == *old(self),
            enclave_type == old(self).kind() && old(self)@.len() != RING_BUFFER_SIZE - 1
                ==> r == Ok::<(), &str>(()) && final(self)@ == old(self)@.push(enclave_type)
                && final(self).enqueues() == old(self).enqueues().wrapping_add(1),
    {
        if enclave_type != self.enclave_type {
            return Err("Enclave type mismatch");
        }
        proof { self.ring_buffer.lemma_len_bound(); }
        let result = self.ring_buffer.enqueue(enclave_type);
        proof {
            assert forall|i: int| 0 <= i < self.ring_buffer@.len() implies #[trigger] self.ring_buffer@[i] == self.enclave_type by {
                if i < old(self).ring_buffer@.len() {
                    assert(self.ring_buffer@[i] == old(self).ring_buffer@[i]);
                }
            }
        }
        if result.is_ok() {
            self.total_enqueues = self.total_enqueues.wrapping_add(1);
        }
        result
    }

    /// Removes and returns the oldest entry; `None` when empty.
    pub fn dequeue(&mut self) -> (r: Option<EnclaveType>)
        requires
            old(self).wf(),
        ensures
            final(self).wf(),
            final(self).kind() == old(self).kind(),
            final(self).enqueues() == old(self).enqueues(),
            old(self)@.len() == 0 ==> r == None::<EnclaveType> && final(self)@ == old(self)@
                && final(self).dequeues() == old(self).dequeues(),
            old(self)@.len() > 0 ==> r == Some(old(self)@[0]) && r == Some(old(self).kind())
                && final(self)@ == old(self)@.drop_first()
                && final(self).dequeues() == old(self).dequeues().wrapping_add(1),
    {
        let result = self.ring_buffer.dequeue();
        proof {
            assert forall|i: int| 0 <= i < self.ring_buffer@.len() implies #[trigger] self.ring_buffer@[i] == self.enclave_type by {
                assert(self.ring_buffer@[i] == old(self).ring_buffer@[i + 1]);
            }
        }
        if result.is_some() {
            self.total_dequeues = self.total_dequeues.wrapping_add(1);
        }
        result
    }

    /// Whether no entry is queued.
    pub fn is_empty(&self) -> (r: bool)
        requires
            self.wf(),
        ensures
            r == (self@.len() == 0),
    {
        self.ring_buffer.is_empty()
    }

    /// Whether the queue takes no further entry.
    pub fn is_full(&self) -> (r: bool)
        requires
            self.wf(),
        ensures
            r == (self@.len() == RING_BUFFER_SIZE - 1),
    {
        self.ring_buffer.is_full()
    }

    /// Number of queued entries.
    pub fn len(&self) -> (r: usize)
        requires
            self.wf(),
        ensures
            r == self@.len(),
    {
        self.ring_buffer.len()
    }

    /// A snapshot of length, emptiness, fullness and the counters.
    pub fn status(&self) -> (s: QueueStatus)
        requires
            self.wf(),
        ensures
            s.length == self@.len(),
            s.is_empty == (self@.len() == 0),
            s.is_full == (self@.len() == RING_BUFFER_SIZE - 1),
            s.total_enqueues == self.enqueues(),
            s.total_dequeues == self.dequeues(),
            s.length == counter_gap(s.total_enqueues, s.total_dequeues),
    {
        QueueStatus {
            length: self.len(),
            is_empty: self.is_empty(),
            is_full: self.is_full(),
            total_enqueues: self.total_enqueues,
            total_dequeues: self.total_dequeues,
        }
    }
}

/// Queue priority of an enclave kind; later variants are higher.
#[derive(Debug, Clone, Copy, PartialEq, Eq, PartialOrd, Ord, Structural)]
pub enum EnclaveQueuePriority {
    Network,
    Media,
    Graphic,
    AI,
}

impl EnclaveQueuePriority {
    /// The numeric level: `Network` 0 up to `AI` 3.
    pub open spec fn level_spec(self) -> u8 {
        match self {
            EnclaveQueuePriority::Network => 0,
            EnclaveQueuePriority::Media => 1,
            EnclaveQueuePriority::Graphic => 2,
            EnclaveQueuePriority::AI => 3,
        }
    }

    /// The numeric level: `Network` 0 up to `AI` 3.
    pub fn level(&self) -> (r: u8)
        ensures
            r == self.level_spec(),
    {
        match self {
            EnclaveQueuePriority::Network => 0,
            EnclaveQueuePriority::Media => 1,
            EnclaveQueuePriority::Graphic => 2,
            EnclaveQueuePriority::AI => 3,
        }
    }

    /// The priority of an enclave kind's queue.
    pub open spec fn of_spec(t: EnclaveType) -> EnclaveQueuePriority {
        match t {
            EnclaveType::NetworkEnclave => EnclaveQueuePriority::Network,
            EnclaveType::MediaEnclave => EnclaveQueuePriority::Media,
            EnclaveType::GraphicEnclave => EnclaveQueuePriority::Graphic,
            EnclaveType::AIEnclave => EnclaveQueuePriority::AI,
        }
    }
}

impl From<EnclaveType> for EnclaveQueuePriority {
    fn from(enclave_type: EnclaveType) -> (r: Self) {
        match enclave_type {
            EnclaveType::NetworkEnclave => EnclaveQueuePriority::Network,
            EnclaveType::MediaEnclave => EnclaveQueuePriority::Media,
            EnclaveType::GraphicEnclave => EnclaveQueuePriority::Graphic,
            EnclaveType::AIEnclave => EnclaveQueuePriority::AI,
        }
    }
}

impl vstd::std_specs::convert::FromSpecImpl<EnclaveType> for EnclaveQueuePriority {
    open spec fn obeys_from_spec() -> bool {
        true
    }

    open spec fn from_spec(v: EnclaveType) -> EnclaveQueuePriority {
        EnclaveQueuePriority::of_spec(v)
    }
}

/// Time slice of each enclave kind, in microseconds.
#[derive(Debug, Clone, Copy)]
pub struct TimeSliceConfig {
    pub ai_time_slice: u64,
    pub graphic_time_slice: u64,
    pub media_time_slice: u64,
    pub network_time_slice: u64,
}

impl Default for TimeSliceConfig {
    fn default() -> (c: Self)
        ensures
            c.ai_time_slice == 100_000,
            c.graphic_time_slice == 80_000,
            c.media_time_slice == 60_000,
            c.network_time_slice == 40_000,
    {
        TimeSliceConfig {
            ai_time_slice: 100_000,
            graphic_time_slice: 80_000,
            media_time_slice: 60_000,
            network_time_slice: 40_000,
        }
    }
}

impl TimeSliceConfig {
    /// The slice configured for `enclave_type`.
    pub fn get_time_slice(&self, enclave_type: EnclaveType) -> (r: u64)
        ensures
            r == match enclave_type {
                EnclaveType::AIEnclave => self.ai_time_slice,
                EnclaveType::GraphicEnclave => self.graphic_time_slice,
                EnclaveType::MediaEnclave => self.media_time_slice,
                EnclaveType::NetworkEnclave => self.network_time_slice,
            },
    {
        match enclave_type {
            EnclaveType::AIEnclave => self.ai_time_slice,
            EnclaveType::GraphicEnclave => self.graphic_time_slice,
            EnclaveType::MediaEnclave => self.media_time_slice,
            EnclaveType::NetworkEnclave => self.network_time_slice,
        }
    }
}

} // verus!
