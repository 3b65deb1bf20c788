//! The fixed-capacity ring of enclave entries behind each enclave queue.
use vstd::prelude::*;
use super::EnclaveType;

verus! {

/// Number of slots in the ring; one slot always stays empty.
pub const RING_BUFFER_SIZE: usize = 64;
/// Mask that wraps an index into the ring.
pub const RING_BUFFER_MASK: usize = 63;

/// Position of the `i`-th queued entry in a ring of `RING_BUFFER_SIZE` slots starting at `start`.
pub open spec fn slot_of(start: int, i: int) -> int {
    if start + i < RING_BUFFER_SIZE { start + i } else { start + i - RING_BUFFER_SIZE }
}

/// The slot after `i`, as the mask computes it.
pub proof fn lemma_next_slot(i: usize)
    requires
        i < RING_BUFFER_SIZE,
    ensures
        ((i + 1) as usize) & RING_BUFFER_MASK == (if i + 1 == RING_BUFFER_SIZE { 0 } else { i + 1 }),
{
    assert(((i + 1) as usize) & 63usize == (if i + 1 == 64 { 0usize } else { (i + 1) as usize })) by (bit_vector)
        requires
            i < 64usize,
    ;
}

/// A ring of enclave entries with a read index and a write index.
pub struct LockFreeRingBuffer {
    buffer: Vec<Option<EnclaveType>>,
    read_idx: usize,
    write_idx: usize,
}

impl LockFreeRingBuffer {
    /// Number of entries between the read and the write index.
    pub open spec fn queued(read: int, write: int) -> int {
        if write >= read { write - read } else { RING_BUFFER_SIZE - read + write }
    }

    /// Indices in range and every queued slot filled.
    pub closed spec fn wf(&self) -> bool {
        &&& self.buffer@.len() == RING_BUFFER_SIZE
        &&& self.read_idx < RING_BUFFER_SIZE
        &&& self.write_idx < RING_BUFFER_SIZE
        &&& forall|i: int| 0 <= i < Self::queued(self.read_idx as int, self.write_idx as int)
            ==> (#[trigger] self.buffer@[slot_of(self.read_idx as int, i)]) is Some
    }

    /// The queued entries, oldest first.
    pub closed spec fn view(&self) -> Seq<EnclaveType> {
        Seq::new(
            Self::queued(self.read_idx as int, self.write_idx as int) as nat,
            |i: int| self.buffer@[slot_of(self.read_idx as int, i)]->0,
        )
    }

    /// A consistent ring holds at most `RING_BUFFER_SIZE - 1` entries.
    pub proof fn lemma_len_bound(&self)
        requires
            self.wf(),
        ensures
            self@.len() < RING_BUFFER_SIZE,
    {
    }

    /// An empty ring.
    pub fn new() -> (r: Self)
        ensures
            r.wf(),
            r@ == Seq::<EnclaveType>::empty(),
    {
        let mut buffer: Vec<Option<EnclaveType>> = Vec::new();
        let mut i: usize = 0;
        while i < RING_BUFFER_SIZE
            invariant
                i <= RING_BUFFER_SIZE,
                buffer@.len() == i,
            decreases RING_BUFFER_SIZE - i,
        {
            buffer.push(None);
            i = i + 1;
        }
        let r = LockFreeRingBuffer { buffer, read_idx: 0, write_idx: 0 };
        assert(r@ =~= Seq::<EnclaveType>::empty());
        r
    }

    /// Appends `item` unless the ring already holds `RING_BUFFER_SIZE - 1` entries.
    pub fn enqueue(&mut self, item: EnclaveType) -> (r: Result<(), &'static str>)
        requires
            old(self).wf(),
        ensures
            final(self).wf(),
            old(self)@.len() == RING_BUFFER_SIZE - 1 ==> r == Err::<(), &str>("Ring buffer is full")
                && *final(self) == *old(self),
            old(self)@.len() != RING_BUFFER_SIZE - 1 ==> r == Ok::<(), &str>(()) && final(self)@ == old(self)@.push(item),
            ring_enqueued(old(self)@, final(self)@, item, r),
    {
        proof { self.lemma_len_bound(); }
        let write_idx = self.write_idx;
        let read_idx = self.read_idx;
        proof { lemma_next_slot(write_idx); }
        let next_write_idx = (write_idx + 1) & RING_BUFFER_MASK;
        if next_write_idx == read_idx {
            return Err("Ring buffer is full");
        }
        let ghost old_view = self@;
        self.buffer.set(write_idx, Some(item));
        self.write_idx = next_write_idx;
        proof {
            let q = Self::queued(read_idx as int, write_idx as int);
            assert(slot_of(read_idx as int, q) == write_idx);
            assert forall|i: int| 0 <= i < q implies slot_of(read_idx as int, i) != write_idx by {}
            assert(self@ =~= old_view.push(item));
        }
        Ok(())
    }

    /// Removes and returns the oldest entry; `None` when the ring is empty.
    pub fn dequeue(&mut self) -> (r: Option<EnclaveType>)
        requires
            old(self).wf(),
        ensures
            final(self).wf(),
            old(self)@.len() == 0 ==> r == None::<EnclaveType> && final(self)@ == old(self)@,
            old(self)@.len() > 0 ==> r == Some(old(self)@[0]) && final(self)@ == old(self)@.drop_first(),
            ring_dequeued(old(self)@, final(self)@, r),
    {
        let read_idx = self.read_idx;
        let write_idx = self.write_idx;
        if read_idx == write_idx {
            return None;
        }
        proof { lemma_next_slot(read_idx); }
        let next_read_idx = (read_idx + 1) & RING_BUFFER_MASK;
        let ghost old_view = self@;
        let item = self.buffer[read_idx];
        self.buffer.set(read_idx, None);
        self.read_idx = next_read_idx;
        proof {
            let q = Self::queued(read_idx as int, write_idx as int);
            assert(slot_of(read_idx as int, 0) == read_idx);
            assert forall|i: int| 0 <= i < q - 1 implies
                (#[trigger] slot_of(next_read_idx as int, i)) == slot_of(read_idx as int, i + 1)
                && slot_of(read_idx as int, i + 1) != read_idx by {}
            assert forall|i: int| 0 <= i < q - 1 implies
                (#[trigger] self.buffer@[slot_of(next_read_idx as int, i)]) is Some by {
                assert(old(self).buffer@[slot_of(read_idx as int, i + 1)] is Some);
            }
            assert(self@ =~= old_view.drop_first()) by {
                assert forall|i: int| 0 <= i < q - 1 implies self@[i] == old_view[i + 1] by {
                    assert(slot_of(next_read_idx as int, i) == slot_of(read_idx as int, i + 1));
                }
            }
        }
        item
    }

    /// Whether no entry is queued.
    pub fn is_empty(&self) -> (r: bool)
        requires
            self.wf(),
        ensures
            r == (self@.len() == 0),
    {
        self.read_idx == self.write_idx
    }

    /// Whether the ring holds `RING_BUFFER_SIZE - 1` entries and takes no more.
    pub fn is_full(&self) -> (r: bool)
        requires
            self.wf(),
        ensures
            r == (self@.len() == RING_BUFFER_SIZE - 1),
    {
        proof { lemma_next_slot(self.write_idx); }
        ((self.write_idx + 1) & RING_BUFFER_MASK) == self.read_idx
    }

    /// Number of queued entries.
    pub fn len(&self) -> (r: usize)
        requires
            self.wf(),
        ensures
            r == self@.len(),
    {
        if self.write_idx >= self.read_idx {
            self.write_idx - self.read_idx
        } else {
            RING_BUFFER_SIZE - self.read_idx + self.write_idx
        }
    }
}

/// What enqueueing `item` does to a ring holding `old`, answering `r`.
pub open spec fn ring_enqueued(old: Seq<EnclaveType>, new: Seq<EnclaveType>, item: EnclaveType, r: Result<(), &str>) -> bool {
    if old.len() == RING_BUFFER_SIZE - 1 {
        r == Err::<(), &str>("Ring buffer is full") && new == old
    } else {
        r == Ok::<(), &str>(()) && new == old.push(item)
    }
}

/// What dequeueing does to a ring holding `old`, answering `r`.
pub open spec fn ring_dequeued(old: Seq<EnclaveType>, new: Seq<EnclaveType>, r: Option<EnclaveType>) -> bool {
    if old.len() == 0 {
        r == None::<EnclaveType> && new == old
    } else {
        r == Some(old[0]) && new == old.drop_first()
    }
}

/// Entries leave a ring in the order they entered: after entries `xs` were
/// enqueued, each accepted, onto a ring holding `q`, the ring holds `q + xs`;
/// dequeueing then gives `q`'s entries first and `xs`'s after them.
pub proof fn law_ring_fifo(states: Seq<Seq<EnclaveType>>, xs: Seq<EnclaveType>, rs: Seq<Result<(), &str>>)
    requires
        states.len() == xs.len() + 1,
        rs.len() == xs.len(),
        forall|k: int| 0 <= k < xs.len() ==> #[trigger] ring_enqueued(states[k], states[k + 1], xs[k], rs[k]),
        forall|k: int| 0 <= k < xs.len() ==> #[trigger] rs[k] is Ok,
    ensures
        states.last() == states[0] + xs,
    decreases xs.len(),
{
    if xs.len() == 0 {
        assert(states[0] + xs =~= states[0]);
    } else {
        let n = xs.len() - 1;
        let s1 = states.take(n + 1);
        assert forall|k: int| 0 <= k < n implies #[trigger] ring_enqueued(s1[k], s1[k + 1], xs.take(n)[k], rs.take(n)[k]) by {
            assert(ring_enqueued(states[k], states[k + 1], xs[k], rs[k]));
        }
        assert forall|k: int| 0 <= k < n implies #[trigger] rs.take(n)[k] is Ok by {
            assert(rs[k] is Ok);
        }
        law_ring_fifo(s1, xs.take(n), rs.take(n));
        assert(ring_enqueued(states[n], states[n + 1], xs[n], rs[n]));
        assert(rs[n] is Ok);
        assert(states.last() =~= states[0] + xs) by {
            assert(states[0] + xs =~= (states[0] + xs.take(n)).push(xs[n]));
        }
    }
}

/// Dequeueing a ring holding `q + xs`, where `q` is not empty, gives `q`'s oldest entry.
pub proof fn law_ring_dequeue_oldest(q: Seq<EnclaveType>, xs: Seq<EnclaveType>, new: Seq<EnclaveType>, r: Option<EnclaveType>)
    requires
        q.len() > 0,
        ring_dequeued(q + xs, new, r),
    ensures
        r == Some(q[0]),
        new == q.drop_first() + xs,
{
    assert((q + xs).drop_first() =~= q.drop_first() + xs);
}

/// The entries the first `n` of `ops` enqueue, in order: `Some(x)` enqueues
/// `x`, `None` dequeues.
pub open spec fn ops_enqueued(ops: Seq<Option<EnclaveType>>, n: int) -> Seq<EnclaveType>
    decreases n,
{
    if n <= 0 {
        Seq::empty()
    } else {
        let prev = ops_enqueued(ops, n - 1);
        match ops[n - 1] {
            Some(x) => prev.push(x),
            None => prev,
        }
    }
}

/// The entries the dequeues among the first `n` of `ops` handed out, in order,
/// `outs` holding what each step answered.
pub open spec fn ops_dequeued(ops: Seq<Option<EnclaveType>>, outs: Seq<Option<EnclaveType>>, n: int) -> Seq<EnclaveType>
    decreases n,
{
    if n <= 0 {
        Seq::empty()
    } else {
        let prev = ops_dequeued(ops, outs, n - 1);
        match (ops[n - 1], outs[n - 1]) {
            (None, Some(x)) => prev.push(x),
            _ => prev,
        }
    }
}

/// Step `k` of `ops` took the ring from `states[k]` to `states[k + 1]`: an
/// accepted enqueue, or a dequeue answering `outs[k]`.
pub open spec fn ring_op_at(states: Seq<Seq<EnclaveType>>, ops: Seq<Option<EnclaveType>>, rs: Seq<Result<(), &str>>, outs: Seq<Option<EnclaveType>>, k: int) -> bool {
    match ops[k] {
        Some(x) => ring_enqueued(states[k], states[k + 1], x, rs[k]) && rs[k] is Ok,
        None => ring_dequeued(states[k], states[k + 1], outs[k]),
    }
}

/// A ring buffer is a first-in first-out queue under any interleaving of
/// accepted enqueues and of dequeues: from a ring holding `states[0]`, after
/// the first `n` steps the dequeues have handed out a prefix of `states[0]`
/// followed by the enqueued entries, in that order, and the ring holds the
/// rest of that sequence: as many entries as it started with, plus those
/// enqueued, less those handed out.
pub proof fn law_ring_refines_queue(
    states: Seq<Seq<EnclaveType>>,
    ops: Seq<Option<EnclaveType>>,
    rs: Seq<Result<(), &str>>,
    outs: Seq<Option<EnclaveType>>,
    n: int,
)
    requires
        states.len() == ops.len() + 1,
        rs.len() == ops.len(),
        outs.len() == ops.len(),
        0 <= n <= ops.len(),
        forall|k: int| 0 <= k < ops.len() ==> #[trigger] ring_op_at(states, ops, rs, outs, k),
    ensures
        ({
            let all = states[0] + ops_enqueued(ops, n);
            let got = ops_dequeued(ops, outs, n);
            &&& got.len() <= all.len()
            &&& got == all.take(got.len() as int)
            &&& states[n] == all.skip(got.len() as int)
            &&& states[n].len() == states[0].len() + ops_enqueued(ops, n).len() - got.len()
        }),
    decreases n,
{
    if n == 0 {
        assert(states[0] + ops_enqueued(ops, 0) =~= states[0]);
        assert(states[0].skip(0) =~= states[0]);
    } else {
        let k = n - 1;
        law_ring_refines_queue(states, ops, rs, outs, k);
        assert(ring_op_at(states, ops, rs, outs, k));
        let all0 = states[0] + ops_enqueued(ops, k);
        let g = ops_dequeued(ops, outs, k).len() as int;
        match ops[k] {
            Some(x) => {
                assert(states[0] + ops_enqueued(ops, n) =~= all0.push(x));
                assert(ops_dequeued(ops, outs, n) == ops_dequeued(ops, outs, k));
                assert(all0.skip(g).push(x) =~= all0.push(x).skip(g));
                assert(all0.take(g) =~= all0.push(x).take(g));
            },
            None => {
                assert(states[0] + ops_enqueued(ops, n) == all0);
                if states[k].len() == 0 {
                    assert(ops_dequeued(ops, outs, n) == ops_dequeued(ops, outs, k));
                } else {
                    assert(g < all0.len());
                    assert(states[k][0] == all0[g]);
                    assert(ops_dequeued(ops, outs, n) == ops_dequeued(ops, outs, k).push(all0[g]));
                    assert(all0.take(g).push(all0[g]) =~= all0.take(g + 1));
                    assert(all0.skip(g).drop_first() =~= all0.skip(g + 1));
                }
            },
        }
    }
}

} // verus!
