//! Pipes: a bounded byte ring buffer shared by a reading and a writing end.
use vstd::prelude::*;
use super::IpcError;

verus! {

/// Capacity of a pipe's ring buffer, in bytes.
pub const PIPE_BUFFER_SIZE: usize = 4096;

/// Position of the `i`-th queued byte in a ring that starts at `start`.
pub open spec fn ring_index(start: int, i: int) -> int {
    if start + i < PIPE_BUFFER_SIZE { start + i } else { start + i - PIPE_BUFFER_SIZE }
}

/// Whether a pipe buffer still accepts and yields data.
#[derive(Debug, Clone, Copy, PartialEq, Eq, Structural)]
pub enum PipeState {
    Open,
    Closed,
}

/// A fixed-capacity FIFO byte queue stored in a ring.
pub struct PipeBuffer {
    data: Vec<u8>,
    read_pos: usize,
    write_pos: usize,
    size: usize,
    state: PipeState,
}

impl PipeBuffer {
    /// The ring's layout is consistent: positions in range, the write position
    /// just past the last queued byte.
    pub closed spec fn wf(&self) -> bool {
        &&& self.data@.len() == PIPE_BUFFER_SIZE
        &&& self.read_pos < PIPE_BUFFER_SIZE
        &&& self.write_pos < PIPE_BUFFER_SIZE
        &&& self.size <= PIPE_BUFFER_SIZE
        &&& self.write_pos as int == ring_index(self.read_pos as int, self.size as int)
    }

    /// The queued bytes, oldest first.
    pub closed spec fn contents(&self) -> Seq<u8> {
        Seq::new(self.size as nat, |i: int| self.data@[ring_index(self.read_pos as int, i)])
    }

    /// Whether the buffer has been closed.
    pub closed spec fn closed(&self) -> bool {
        self.state == PipeState::Closed
    }

    /// An open, empty buffer.
    pub fn new() -> (b: Self)
        ensures
            b.wf(),
            b.contents() == Seq::<u8>::empty(),
            !b.closed(),
    {
        let mut data: Vec<u8> = Vec::new();
        let mut i: usize = 0;
        while i < PIPE_BUFFER_SIZE
            invariant
                i <= PIPE_BUFFER_SIZE,
                data@.len() == i,
            decreases PIPE_BUFFER_SIZE - i,
        {
            data.push(0u8);
            i = i + 1;
        }
        let b = PipeBuffer { data, read_pos: 0, write_pos: 0, size: 0, state: PipeState::Open };
        assert(b.contents() =~= Seq::<u8>::empty());
        b
    }

    /// Whether the buffer holds `PIPE_BUFFER_SIZE` bytes.
    pub fn is_full(&self) -> (r: bool)
        requires
            self.wf(),
        ensures
            r == (self.contents().len() == PIPE_BUFFER_SIZE),
    {
        self.size == PIPE_BUFFER_SIZE
    }

    /// Whether no byte is queued.
    pub fn is_empty(&self) -> (r: bool)
        requires
            self.wf(),
        ensures
            r == (self.contents().len() == 0),
    {
        self.size == 0
    }

    /// Appends as many bytes of `src` as fit; a closed or full buffer takes none.
    pub fn write(&mut self, src: &[u8]) -> (written: usize)
        requires
            old(self).wf(),
        ensures
            final(self).wf(),
            final(self).closed() == old(self).closed(),
            written == (if old(self).closed() || old(self).contents().len() == PIPE_BUFFER_SIZE {
                0
            } else {
                vstd::math::min(src@.len() as int, PIPE_BUFFER_SIZE - old(self).contents().len())
            }),
            final(self).contents() == old(self).contents() + src@.subrange(0, written as int),
    {
        if self.is_full() || self.state == PipeState::Closed {
            assert(src@.subrange(0, 0) =~= Seq::<u8>::empty());
            assert(self.contents() + src@.subrange(0, 0) =~= self.contents());
            return 0;
        }
        let ghost old_contents = self.contents();
        let ghost start = self.read_pos as int;
        let ghost old_size = self.size as int;
        let remaining = PIPE_BUFFER_SIZE - self.size;
        let write_size = if src.len() < remaining { src.len() } else { remaining };
        let first_part = if PIPE_BUFFER_SIZE - self.write_pos < write_size {
            PIPE_BUFFER_SIZE - self.write_pos
        } else {
            write_size
        };
        let second_part = write_size - first_part;
        let wp = self.write_pos;
        let mut i: usize = 0;
        while i < first_part
            invariant
                i <= first_part,
                first_part <= write_size,
                write_size <= src@.len(),
                write_size + old_size <= PIPE_BUFFER_SIZE,
                wp + first_part <= PIPE_BUFFER_SIZE,
                wp as int == ring_index(start, old_size),
                0 <= start < PIPE_BUFFER_SIZE,
                0 <= old_size,
                self.data@.len() == PIPE_BUFFER_SIZE,
                self.read_pos as int == start,
                self.size as int == old_size,
                self.state == PipeState::Open,
                forall|k: int| 0 <= k < old_size ==> self.data@[ring_index(start, k)] == old_contents[k],
                forall|k: int| old_size <= k < old_size + i ==> self.data@[ring_index(start, k)] == src@[k - old_size],
                old_contents.len() == old_size,
            decreases first_part - i,
        {
            assert(ring_index(start, old_size + i) == wp + i);
            self.data.set(wp + i, src[i]);
            i = i + 1;
        }
        let mut j: usize = 0;
        while j < second_part
            invariant
                j <= second_part,
                second_part == write_size - first_part,
                first_part <= write_size,
                write_size <= src@.len(),
                write_size + old_size <= PIPE_BUFFER_SIZE,
                second_part > 0 ==> wp + first_part == PIPE_BUFFER_SIZE,
                wp as int == ring_index(start, old_size),
                0 <= start < PIPE_BUFFER_SIZE,
                0 <= old_size,
                self.data@.len() == PIPE_BUFFER_SIZE,
                self.read_pos as int == start,
                self.size as int == old_size,
                self.state == PipeState::Open,
                forall|k: int| 0 <= k < old_size ==> self.data@[ring_index(start, k)] == old_contents[k],
                forall|k: int| old_size <= k < old_size + first_part + j ==> self.data@[ring_index(start, k)] == src@[k - old_size],
                old_contents.len() == old_size,
            decreases second_part - j,
        {
            assert(ring_index(start, old_size + first_part + j) == j);
            self.data.set(j, src[first_part + j]);
            j = j + 1;
        }
        if second_part > 0 {
            self.write_pos = second_part;
        } else {
            self.write_pos = (wp + first_part) % PIPE_BUFFER_SIZE;
        }
        self.size = self.size + write_size;
        proof {
            assert(self.contents() =~= old_contents + src@.subrange(0, write_size as int)) by {
                assert forall|k: int| 0 <= k < self.size implies #[trigger] self.contents()[k] == (old_contents + src@.subrange(0, write_size as int))[k] by {
                    if k < old_size {
                    } else {
                        assert(self.data@[ring_index(start, k)] == src@[k - old_size]);
                    }
                }
            }
        }
        write_size
    }

    /// Moves up to `buf.len()` of the oldest queued bytes into the front of `buf`;
    /// a closed or empty buffer yields none.
    pub fn read(&mut self, buf: &mut [u8]) -> (n: usize)
        requires
            old(self).wf(),
        ensures
            final(self).wf(),
            final(self).closed() == old(self).closed(),
            n == (if old(self).closed() || old(self).contents().len() == 0 {
                0
            } else {
                vstd::math::min(old(buf)@.len() as int, old(self).contents().len() as int)
            }),
            final(buf)@.len() == old(buf)@.len(),
            final(buf)@.subrange(0, n as int) == old(self).contents().subrange(0, n as int),
            final(buf)@.subrange(n as int, old(buf)@.len() as int) == old(buf)@.subrange(n as int, old(buf)@.len() as int),
            final(self).contents() == old(self).contents().subrange(n as int, old(self).contents().len() as int),
    {
        if self.is_empty() || self.state == PipeState::Closed {
            assert(self.contents().subrange(0, self.contents().len() as int) =~= self.contents());
            assert(buf@.subrange(0, 0) =~= self.contents().subrange(0, 0));
            return 0;
        }
        let ghost old_contents = self.contents();
        let ghost old_buf = buf@;
        let ghost start = self.read_pos as int;
        let ghost old_size = self.size as int;
        let read_size = if buf.len() < self.size { buf.len() } else { self.size };
        let first_part = if PIPE_BUFFER_SIZE - self.read_pos < read_size {
            PIPE_BUFFER_SIZE - self.read_pos
        } else {
            read_size
        };
        let second_part = read_size - first_part;
        let rp = self.read_pos;
        let mut i: usize = 0;
        while i < first_part
            invariant
                i <= first_part,
                first_part <= read_size,
                read_size <= old_size,
                read_size <= old_buf.len(),
                rp as int == start,
                rp + first_part <= PIPE_BUFFER_SIZE,
                0 <= start < PIPE_BUFFER_SIZE,
                old_size <= PIPE_BUFFER_SIZE,
                old_contents.len() == old_size,
                self.data@.len() == PIPE_BUFFER_SIZE,
                self.read_pos as int == start,
                self.size as int == old_size,
                self.write_pos == old(self).write_pos,
                self.state == PipeState::Open,
                forall|k: int| 0 <= k < old_size ==> self.data@[ring_index(start, k)] == old_contents[k],
                buf@.len() == old_buf.len(),
                forall|k: int| 0 <= k < i ==> buf@[k] == old_contents[k],
                forall|k: int| i <= k < old_buf.len() ==> buf@[k] == old_buf[k],
            decreases first_part - i,
        {
            assert(ring_index(start, i as int) == rp + i);
            buf[i] = self.data[rp + i];
            i = i + 1;
        }
        let mut j: usize = 0;
        while j < second_part
            invariant
                j <= second_part,
                second_part == read_size - first_part,
                first_part <= read_size,
                read_size <= old_size,
                read_size <= old_buf.len(),
                second_part > 0 ==> rp + first_part == PIPE_BUFFER_SIZE,
                rp as int == start,
                0 <= start < PIPE_BUFFER_SIZE,
                old_size <= PIPE_BUFFER_SIZE,
                old_contents.len() == old_size,
                self.data@.len() == PIPE_BUFFER_SIZE,
                self.read_pos as int == start,
                self.size as int == old_size,
                self.write_pos == old(self).write_pos,
                self.state == PipeState::Open,
                forall|k: int| 0 <= k < old_size ==> self.data@[ring_index(start, k)] == old_contents[k],
                buf@.len() == old_buf.len(),
                forall|k: int| 0 <= k < first_part + j ==> buf@[k] == old_contents[k],
                forall|k: int| first_part + j <= k < old_buf.len() ==> buf@[k] == old_buf[k],
            decreases second_part - j,
        {
            assert(ring_index(start, first_part + j) == j);
            buf[first_part + j] = self.data[j];
            j = j + 1;
        }
        if second_part > 0 {
            self.read_pos = second_part;
        } else {
            self.read_pos = (rp + first_part) % PIPE_BUFFER_SIZE;
        }
        self.size = self.size - read_size;
        proof {
            assert(self.read_pos as int == ring_index(start, read_size as int));
            assert(self.contents() =~= old_contents.subrange(read_size as int, old_size)) by {
                assert forall|k: int| 0 <= k < self.size implies #[trigger] self.contents()[k] == old_contents[read_size + k] by {
                    assert(ring_index(self.read_pos as int, k) == ring_index(start, read_size + k));
                }
            }
            assert(buf@.subrange(0, read_size as int) =~= old_contents.subrange(0, read_size as int));
            assert(buf@.subrange(read_size as int, old_buf.len() as int) =~= old_buf.subrange(read_size as int, old_buf.len() as int));
        }
        read_size
    }

    /// Marks the buffer closed; its contents stay but no longer move.
    pub fn close(&mut self)
        requires
            old(self).wf(),
        ensures
            final(self).wf(),
            final(self).closed(),
            final(self).contents() == old(self).contents(),
    {
        self.state = PipeState::Closed;
    }

    /// Whether the buffer has been closed.
    pub fn is_closed(&self) -> (r: bool)
        ensures
            r == self.closed(),
    {
        self.state == PipeState::Closed
    }
}

/// Which end of a pipe a descriptor designates.
#[derive(Debug, Clone, Copy, PartialEq, Eq, Structural)]
pub enum PipeDirection {
    Read,
    Write,
}

/// One end of a pipe: the buffer it shares with the other end (an index into
/// the table's buffers), the end's direction, and the pipe's name if it has one.
pub struct Pipe {
    pub buffer: usize,
    pub direction: PipeDirection,
    pub name: Option<String>,
}

/// The most descriptors a pipe table hands out.
pub const MAX_PIPES: usize = 64;

/// What creating an anonymous pipe does.
pub open spec fn anonymous_pipe_post(old: PipeTable, new: PipeTable, r: Result<(usize, usize), IpcError>) -> bool {
    &&& (new.wf())
    &&& (PipeTable::buffers_kept(&old, &new, old.num_buffers()))
    &&& (old.next_anonymous_id() >= MAX_PIPES ==> r == Err::<(usize, usize), IpcError>(IpcError::ResourceBusy)
        && new.slots() == old.slots())
    &&& (old.next_anonymous_id() < MAX_PIPES ==> new.next_anonymous_id() == old.next_anonymous_id() + 1)
    &&& (old.next_anonymous_id() < MAX_PIPES && old.next_id() + 2 > MAX_PIPES
        ==> r == Err::<(usize, usize), IpcError>(IpcError::ResourceBusy))
    &&& (old.next_anonymous_id() < MAX_PIPES && old.next_id() + 2 <= MAX_PIPES ==> {
        let b = old.num_buffers() as usize;
        &&& r == Ok::<(usize, usize), IpcError>((old.next_id() as usize, (old.next_id() + 1) as usize))
        &&& new.slots() == old.slots()
            .push(Some(Pipe { buffer: b, direction: PipeDirection::Read, name: None }))
            .push(Some(Pipe { buffer: b, direction: PipeDirection::Write, name: None }))
        &&& new.num_buffers() == old.num_buffers() + 1
        &&& new.contents_of(b as int) == Seq::<u8>::empty()
        &&& !new.closed_of(b as int)
        &&& new.anonymous() == old.anonymous()
            .push(Some((b, old.next_id() as usize, (old.next_id() + 1) as usize)))
    })
}

/// What writing to a pipe descriptor does.
pub open spec fn write_pipe_post(old: PipeTable, new: PipeTable, pipe_id: usize, data: Seq<u8>, r: Result<usize, IpcError>) -> bool {
    &&& (new.wf())
    &&& (new.slots() == old.slots())
    &&& (new.num_buffers() == old.num_buffers())
    &&& (new.anonymous() == old.anonymous())
    &&& (pipe_id >= old.slots().len() || old.slots()[pipe_id as int] is None
        ==> r == Err::<usize, IpcError>(IpcError::InvalidArgument)
        && PipeTable::buffers_kept(&old, &new, old.num_buffers()))
    &&& (pipe_id < old.slots().len() && old.slots()[pipe_id as int] is Some ==> {
        let p = old.slots()[pipe_id as int]->0;
        let b = p.buffer as int;
        let c = old.contents_of(b);
        let w = if p.direction == PipeDirection::Write && !old.closed_of(b) && c.len() < PIPE_BUFFER_SIZE {
            vstd::math::min(data.len() as int, PIPE_BUFFER_SIZE - c.len())
        } else {
            0
        };
        &&& new.contents_of(b) == c + data.subrange(0, w)
        &&& new.closed_of(b) == old.closed_of(b)
        &&& forall|bb: int| 0 <= bb < old.num_buffers() && bb != b ==>
            #[trigger] new.contents_of(bb) == old.contents_of(bb)
            && new.closed_of(bb) == old.closed_of(bb)
        &&& r == (if w == 0 && c.len() < PIPE_BUFFER_SIZE {
            Err::<usize, IpcError>(IpcError::InternalError)
        } else {
            Ok::<usize, IpcError>(w as usize)
        })
    })
}

/// What reading from a pipe descriptor does.
pub open spec fn read_pipe_post(old: PipeTable, new: PipeTable, pipe_id: usize, oldbuf: Seq<u8>, newbuf: Seq<u8>, r: Result<usize, IpcError>) -> bool {
    &&& (new.wf())
    &&& (new.slots() == old.slots())
    &&& (new.num_buffers() == old.num_buffers())
    &&& (new.anonymous() == old.anonymous())
    &&& (newbuf.len() == oldbuf.len())
    &&& (pipe_id >= old.slots().len() || old.slots()[pipe_id as int] is None
        ==> r == Err::<usize, IpcError>(IpcError::InvalidArgument)
        && PipeTable::buffers_kept(&old, &new, old.num_buffers())
        && newbuf == oldbuf)
    &&& (pipe_id < old.slots().len() && old.slots()[pipe_id as int] is Some ==> {
        let p = old.slots()[pipe_id as int]->0;
        let b = p.buffer as int;
        let c = old.contents_of(b);
        let n = if p.direction == PipeDirection::Read && !old.closed_of(b) && c.len() > 0 {
            vstd::math::min(oldbuf.len() as int, c.len() as int)
        } else {
            0
        };
        &&& newbuf.subrange(0, n) == c.subrange(0, n)
        &&& newbuf.subrange(n, oldbuf.len() as int) == oldbuf.subrange(n, oldbuf.len() as int)
        &&& new.contents_of(b) == c.subrange(n, c.len() as int)
        &&& new.closed_of(b) == old.closed_of(b)
        &&& forall|bb: int| 0 <= bb < old.num_buffers() && bb != b ==>
            #[trigger] new.contents_of(bb) == old.contents_of(bb)
            && new.closed_of(bb) == old.closed_of(bb)
        &&& r == (if n == 0 && c.len() > 0 {
            Err::<usize, IpcError>(IpcError::InternalError)
        } else {
            Ok::<usize, IpcError>(n as usize)
        })
    })
}

/// The kernel's pipe descriptors and the buffers behind them.
pub struct PipeTable {
    buffers: Vec<PipeBuffer>,
    pipes: Vec<Option<Pipe>>,
    next_pipe_id: usize,
    anonymous_pipes: Vec<Option<(usize, usize, usize)>>,
    next_anonymous_pipe_id: usize,
}

impl PipeTable {
    /// Every buffer is a consistent ring, every descriptor names an existing
    /// buffer, and descriptors are numbered by their slot.
    pub closed spec fn wf(&self) -> bool {
        &&& forall|b: int| 0 <= b < self.buffers@.len() ==> (#[trigger] self.buffers@[b]).wf()
        &&& forall|i: int| 0 <= i < self.pipes@.len() && (#[trigger] self.pipes@[i]) is Some
            ==> self.pipes@[i]->0.buffer < self.buffers@.len()
        &&& self.pipes@.len() == self.next_pipe_id
        &&& self.next_pipe_id <= MAX_PIPES
        &&& self.anonymous_pipes@.len() <= self.next_anonymous_pipe_id <= MAX_PIPES
        &&& self.buffers@.len() <= self.next_pipe_id + self.next_anonymous_pipe_id
    }

    /// Descriptors are numbered by their slot.
    pub proof fn lemma_numbered(&self)
        requires
            self.wf(),
        ensures
            self.slots().len() == self.next_id(),
    {
    }

    /// The descriptor slots; slot `i` is descriptor `i`, `None` once closed.
    pub closed spec fn slots(&self) -> Seq<Option<Pipe>> {
        self.pipes@
    }

    /// The number of buffers ever created.
    pub closed spec fn num_buffers(&self) -> nat {
        self.buffers@.len()
    }

    /// The bytes queued in buffer `b`.
    pub closed spec fn contents_of(&self, b: int) -> Seq<u8> {
        self.buffers@[b].contents()
    }

    /// Whether buffer `b` has been closed.
    pub closed spec fn closed_of(&self, b: int) -> bool {
        self.buffers@[b].closed()
    }

    /// The descriptor number the next allocation hands out.
    pub closed spec fn next_id(&self) -> nat {
        self.next_pipe_id as nat
    }

    /// The anonymous pipes created so far: (buffer, read end, write end).
    pub closed spec fn anonymous(&self) -> Seq<Option<(usize, usize, usize)>> {
        self.anonymous_pipes@
    }

    /// The number of anonymous pipes whose creation was attempted.
    pub closed spec fn next_anonymous_id(&self) -> nat {
        self.next_anonymous_pipe_id as nat
    }

    /// Buffers `b < n` of `new` hold what they held in `old`.
    pub open spec fn buffers_kept(old: &PipeTable, new: &PipeTable, n: nat) -> bool {
        &&& n <= old.num_buffers()
        &&& n <= new.num_buffers()
        &&& forall|b: int| 0 <= b < n ==> #[trigger] new.contents_of(b) == old.contents_of(b)
            && new.closed_of(b) == old.closed_of(b)
    }

    /// An empty table.
    pub fn new() -> (t: Self)
        ensures
            t.wf(),
            t.slots() == Seq::<Option<Pipe>>::empty(),
            t.num_buffers() == 0,
            t.next_id() == 0,
            t.anonymous() == Seq::<Option<(usize, usize, usize)>>::empty(),
            t.next_anonymous_id() == 0,
    {
        PipeTable {
            buffers: Vec::new(),
            pipes: Vec::new(),
            next_pipe_id: 0,
            anonymous_pipes: Vec::new(),
            next_anonymous_pipe_id: 0,
        }
    }

    /// Hands out the next descriptor for an end of the given direction and name,
    /// on `buffer` if given, else on a fresh empty buffer.
    pub fn allocate_file_descriptor(
        &mut self,
        direction: PipeDirection,
        name: Option<String>,
        buffer: Option<usize>,
    ) -> (r: Result<usize, IpcError>)
        requires
            old(self).wf(),
            buffer matches Some(b) ==> b < old(self).num_buffers(),
        ensures
            final(self).wf(),
            final(self).anonymous() == old(self).anonymous(),
            final(self).next_anonymous_id() == old(self).next_anonymous_id(),
            PipeTable::buffers_kept(old(self), final(self), old(self).num_buffers()),
            old(self).next_id() >= MAX_PIPES ==> r == Err::<usize, IpcError>(IpcError::ResourceBusy)
                && final(self).slots() == old(self).slots()
                && final(self).num_buffers() == old(self).num_buffers(),
            old(self).next_id() < MAX_PIPES ==> {
                let b = match buffer { Some(b) => b as int, None => old(self).num_buffers() as int };
                &&& r == Ok::<usize, IpcError>(old(self).next_id() as usize)
                &&& final(self).next_id() == old(self).next_id() + 1
                &&& final(self).slots() == old(self).slots().push(Some(Pipe { buffer: b as usize, direction, name }))
                &&& final(self).num_buffers() == old(self).num_buffers() + (if buffer is None { 1nat } else { 0nat })
                &&& buffer is None ==> final(self).contents_of(b) == Seq::<u8>::empty() && !final(self).closed_of(b)
            },
    {
        let pipe_id = self.next_pipe_id;
        if pipe_id >= MAX_PIPES {
            return Err(IpcError::ResourceBusy);
        }
        self.next_pipe_id = self.next_pipe_id + 1;
        let b = match buffer {
            Some(b) => b,
            None => {
                let nb = PipeBuffer::new();
                self.buffers.push(nb);
                self.buffers.len() - 1
            },
        };
        self.pipes.push(Some(Pipe { buffer: b, direction, name }));
        proof {
            assert forall|i: int| 0 <= i < self.pipes@.len() && (#[trigger] self.pipes@[i]) is Some
                implies self.pipes@[i]->0.buffer < self.buffers@.len() by {
                if i < old(self).pipes@.len() {
                    assert(self.pipes@[i] == old(self).pipes@[i]);
                }
            }
            assert forall|bb: int| 0 <= bb < self.buffers@.len() implies (#[trigger] self.buffers@[bb]).wf() by {
                if bb < old(self).buffers@.len() {
                    assert(self.buffers@[bb] == old(self).buffers@[bb]);
                }
            }
        }
        Ok(pipe_id)
    }

    /// Creates an anonymous pipe: one buffer with a read end and a write end.
    /// Fails with `ResourceBusy` once `MAX_PIPES` anonymous pipes were attempted,
    /// or when the descriptors run out.
    #[verifier::spinoff_prover]
    pub fn create_anonymous_pipe(&mut self) -> (r: Result<(usize, usize), IpcError>)
        requires
            old(self).wf(),
        ensures
            anonymous_pipe_post(*old(self), *final(self), r),
    {
        let pipe_id = self.next_anonymous_pipe_id;
        if pipe_id >= MAX_PIPES {
            return Err(IpcError::ResourceBusy);
        }
        self.next_anonymous_pipe_id = self.next_anonymous_pipe_id + 1;
        let nb = PipeBuffer::new();
        self.buffers.push(nb);
        let b = self.buffers.len() - 1;
        proof {
            assert forall|bb: int| 0 <= bb < self.buffers@.len() implies (#[trigger] self.buffers@[bb]).wf() by {
                if bb < old(self).buffers@.len() {
                    assert(self.buffers@[bb] == old(self).buffers@[bb]);
                }
            }
            assert forall|i: int| 0 <= i < self.pipes@.len() && (#[trigger] self.pipes@[i]) is Some
                implies self.pipes@[i]->0.buffer < self.buffers@.len() by {}
            assert(PipeTable::buffers_kept(old(self), self, old(self).num_buffers())) by {
                assert forall|bb: int| 0 <= bb < old(self).num_buffers() implies
                    #[trigger] self.contents_of(bb) == old(self).contents_of(bb)
                    && self.closed_of(bb) == old(self).closed_of(bb) by {
                    assert(self.buffers@[bb] == old(self).buffers@[bb]);
                }
            }
        }
        let ghost mid = *self;
        let read_fd = match self.allocate_file_descriptor(PipeDirection::Read, None, Some(b)) {
            Ok(fd) => fd,
            Err(e) => { return Err(e); },
        };
        let ghost mid1 = *self;
        let write_fd = match self.allocate_file_descriptor(PipeDirection::Write, None, Some(b)) {
            Ok(fd) => fd,
            Err(e) => {
                proof {
                    assert forall|bb: int| 0 <= bb < old(self).num_buffers() implies
                        #[trigger] self.contents_of(bb) == old(self).contents_of(bb)
                        && self.closed_of(bb) == old(self).closed_of(bb) by {
                        assert(self.contents_of(bb) == mid1.contents_of(bb));
                        assert(mid1.contents_of(bb) == mid.contents_of(bb));
                    }
                }
                return Err(e);
            },
        };
        let ghost after2 = *self;
        self.anonymous_pipes.push(Some((b, read_fd, write_fd)));
        proof {
            assert(self.buffers == after2.buffers);
            assert(PipeTable::buffers_kept(old(self), self, old(self).num_buffers())) by {
                assert forall|bb: int| 0 <= bb < old(self).num_buffers() implies
                    #[trigger] self.contents_of(bb) == old(self).contents_of(bb)
                    && self.closed_of(bb) == old(self).closed_of(bb) by {
                    assert(self.contents_of(bb) == after2.contents_of(bb));
                    assert(self.closed_of(bb) == after2.closed_of(bb));
                    assert(after2.contents_of(bb) == mid1.contents_of(bb));
                    assert(mid1.contents_of(bb) == mid.contents_of(bb));
                }
            }
            assert(after2.contents_of(b as int) == mid1.contents_of(b as int));
            assert(mid1.contents_of(b as int) == mid.contents_of(b as int));
        }
        Ok((read_fd, write_fd))
    }

    /// Whether descriptor slot `p` is open and carries the name `name`.
    pub open spec fn slot_named(p: Option<Pipe>, name: Seq<char>) -> bool {
        p matches Some(pp) && pp.name matches Some(n) && n@ == name
    }

    /// The first open descriptor carrying `name`, if any.
    pub fn find_named(&self, name: &String) -> (r: Option<usize>)
        ensures
            match r {
                Some(i) => i < self.slots().len() && PipeTable::slot_named(self.slots()[i as int], name@)
                    && forall|k: int| 0 <= k < i ==> !PipeTable::slot_named(#[trigger] self.slots()[k], name@),
                None => forall|k: int| 0 <= k < self.slots().len() ==> !PipeTable::slot_named(#[trigger] self.slots()[k], name@),
            },
    {
        let n = self.pipes.len();
        let mut i: usize = 0;
        while i < n
            invariant
                n == self.pipes@.len(),
                i <= n,
                forall|k: int| 0 <= k < i ==> !PipeTable::slot_named(#[trigger] self.pipes@[k], name@),
            decreases n - i,
        {
            match &self.pipes[i] {
                Some(pipe) => {
                    match &pipe.name {
                        Some(pipe_name) => {
                            if *pipe_name == *name {
                                return Some(i);
                            }
                        },
                        None => {},
                    }
                },
                None => {},
            }
            i = i + 1;
        }
        None
    }

    /// Creates the write end of a named pipe on a fresh buffer; a name that an
    /// open descriptor already carries gives `ResourceBusy`.
    pub fn create_named_pipe(&mut self, name: &str) -> (r: Result<usize, IpcError>)
        requires
            old(self).wf(),
        ensures
            final(self).wf(),
            PipeTable::buffers_kept(old(self), final(self), old(self).num_buffers()),
            final(self).anonymous() == old(self).anonymous(),
            (exists|i: int| 0 <= i < old(self).slots().len() && PipeTable::slot_named(#[trigger] old(self).slots()[i], name@))
                ==> r == Err::<usize, IpcError>(IpcError::ResourceBusy) && final(self).slots() == old(self).slots(),
            !(exists|i: int| 0 <= i < old(self).slots().len() && PipeTable::slot_named(#[trigger] old(self).slots()[i], name@))
                && old(self).next_id() >= MAX_PIPES
                ==> r == Err::<usize, IpcError>(IpcError::ResourceBusy) && final(self).slots() == old(self).slots(),
            !(exists|i: int| 0 <= i < old(self).slots().len() && PipeTable::slot_named(#[trigger] old(self).slots()[i], name@))
                && old(self).next_id() < MAX_PIPES ==> {
                &&& r == Ok::<usize, IpcError>(old(self).next_id() as usize)
                &&& final(self).slots().len() == old(self).slots().len() + 1
                &&& final(self).slots().take(old(self).slots().len() as int) == old(self).slots()
            },
            !(exists|i: int| 0 <= i < old(self).slots().len() && PipeTable::slot_named(#[trigger] old(self).slots()[i], name@))
                && old(self).next_id() < MAX_PIPES ==> {
                &&& PipeTable::slot_named(final(self).slots().last(), name@)
                &&& final(self).slots().last()->0.buffer == old(self).num_buffers()
                &&& final(self).slots().last()->0.direction == PipeDirection::Write
            },
            !(exists|i: int| 0 <= i < old(self).slots().len() && PipeTable::slot_named(#[trigger] old(self).slots()[i], name@))
                && old(self).next_id() < MAX_PIPES ==> {
                &&& final(self).num_buffers() == old(self).num_buffers() + 1
                &&& final(self).contents_of(old(self).num_buffers() as int) == Seq::<u8>::empty()
                &&& !final(self).closed_of(old(self).num_buffers() as int)
            },
    {
        let owned = name.to_owned();
        if self.find_named(&owned).is_some() {
            return Err(IpcError::ResourceBusy);
        }
        let r = self.allocate_file_descriptor(PipeDirection::Write, Some(owned), None);
        proof {
            if old(self).next_id() < MAX_PIPES {
                assert(self.slots().take(old(self).slots().len() as int) =~= old(self).slots());
                assert(self.slots().last() == Some(Pipe { buffer: old(self).num_buffers() as usize, direction: PipeDirection::Write, name: Some(owned) }));
            }
        }
        r
    }

    /// Opens a read end on the buffer of the first open descriptor named `name`;
    /// `NotFound` when no open descriptor carries that name.
    pub fn open_named_pipe(&mut self, name: &str) -> (r: Result<usize, IpcError>)
        requires
            old(self).wf(),
        ensures
            final(self).wf(),
            PipeTable::buffers_kept(old(self), final(self), old(self).num_buffers()),
            final(self).num_buffers() == old(self).num_buffers(),
            final(self).anonymous() == old(self).anonymous(),
            !(exists|i: int| 0 <= i < old(self).slots().len() && PipeTable::slot_named(#[trigger] old(self).slots()[i], name@))
                ==> r == Err::<usize, IpcError>(IpcError::NotFound) && final(self).slots() == old(self).slots(),
            forall|i: int| 0 <= i < old(self).slots().len() && PipeTable::slot_named(old(self).slots()[i], name@)
                && (forall|k: int| 0 <= k < i ==> !PipeTable::slot_named(#[trigger] old(self).slots()[k], name@))
                ==> (if old(self).next_id() >= MAX_PIPES {
                    r == Err::<usize, IpcError>(IpcError::ResourceBusy) && final(self).slots() == old(self).slots()
                } else {
                    &&& r == Ok::<usize, IpcError>(old(self).next_id() as usize)
                    &&& final(self).slots().len() == old(self).slots().len() + 1
                    &&& final(self).slots().take(old(self).slots().len() as int) == old(self).slots()
                    &&& PipeTable::slot_named(final(self).slots().last(), name@)
                    &&& final(self).slots().last()->0.buffer == old(self).slots()[i]->0.buffer
                    &&& final(self).slots().last()->0.direction == PipeDirection::Read
                }),
    {
        let owned = name.to_owned();
        match self.find_named(&owned) {
            None => Err(IpcError::NotFound),
            Some(i) => {
                let b = match &self.pipes[i] {
                    Some(p) => p.buffer,
                    None => { return Err(IpcError::NotFound); },
                };
                let ghost before = *self;
                let r = self.allocate_file_descriptor(PipeDirection::Read, Some(owned), Some(b));
                proof {
                    assert forall|j: int| 0 <= j < old(self).slots().len() && PipeTable::slot_named(old(self).slots()[j], name@)
                        && (forall|k: int| 0 <= k < j ==> !PipeTable::slot_named(#[trigger] old(self).slots()[k], name@))
                        implies j == i as int by {
                        if j < i as int {
                        } else if j > i as int {
                            assert(!PipeTable::slot_named(old(self).slots()[i as int], name@));
                        }
                    }
                    if before.next_id() < MAX_PIPES {
                        assert(self.slots().take(old(self).slots().len() as int) =~= old(self).slots());
                        assert(self.slots().last() == Some(Pipe { buffer: b, direction: PipeDirection::Read, name: Some(owned) }));
                    }
                }
                r
            },
        }
    }

    /// Writes through descriptor `pipe_id`. A read end moves no byte. No byte
    /// moved while the buffer has room is reported as `InternalError`.
    pub fn write_pipe(&mut self, pipe_id: usize, data: &[u8]) -> (r: Result<usize, IpcError>)
        requires
            old(self).wf(),
        ensures
            write_pipe_post(*old(self), *final(self), pipe_id, data@, r),
    {
        if pipe_id >= self.pipes.len() {
            return Err(IpcError::InvalidArgument);
        }
        let (b, direction) = match &self.pipes[pipe_id] {
            Some(p) => (p.buffer, p.direction),
            None => { return Err(IpcError::InvalidArgument); },
        };
        let written = if direction != PipeDirection::Write {
            0
        } else {
            self.buffers[b].write(data)
        };
        proof {
            if direction != PipeDirection::Write {
                assert(data@.subrange(0, 0) =~= Seq::<u8>::empty());
                assert(old(self).contents_of(b as int) + data@.subrange(0, 0) =~= old(self).contents_of(b as int));
            }
            assert forall|bb: int| 0 <= bb < self.buffers@.len() implies (#[trigger] self.buffers@[bb]).wf() by {
                if bb != b as int {
                    assert(self.buffers@[bb] == old(self).buffers@[bb]);
                }
            }
            assert forall|bb: int| 0 <= bb < old(self).num_buffers() && bb != b as int implies
                #[trigger] self.contents_of(bb) == old(self).contents_of(bb)
                && self.closed_of(bb) == old(self).closed_of(bb) by {
                assert(self.buffers@[bb] == old(self).buffers@[bb]);
            }
        }
        if written == 0 && !self.buffers[b].is_full() {
            Err(IpcError::InternalError)
        } else {
            Ok(written)
        }
    }

    /// Reads through descriptor `pipe_id` into the front of `buf`. A write end
    /// moves no byte. No byte moved while the buffer holds some is reported as
    /// `InternalError`.
    pub fn read_pipe(&mut self, pipe_id: usize, buf: &mut [u8]) -> (r: Result<usize, IpcError>)
        requires
            old(self).wf(),
        ensures
            read_pipe_post(*old(self), *final(self), pipe_id, old(buf)@, final(buf)@, r),
    {
        if pipe_id >= self.pipes.len() {
            return Err(IpcError::InvalidArgument);
        }
        let (b, direction) = match &self.pipes[pipe_id] {
            Some(p) => (p.buffer, p.direction),
            None => { return Err(IpcError::InvalidArgument); },
        };
        let n = if direction != PipeDirection::Read {
            0
        } else {
            self.buffers[b].read(buf)
        };
        proof {
            let c = old(self).contents_of(b as int);
            if direction != PipeDirection::Read {
                assert(c.subrange(0, c.len() as int) =~= c);
                assert(buf@.subrange(0, 0) =~= c.subrange(0, 0));
            }
            assert forall|bb: int| 0 <= bb < self.buffers@.len() implies (#[trigger] self.buffers@[bb]).wf() by {
                if bb != b as int {
                    assert(self.buffers@[bb] == old(self).buffers@[bb]);
                }
            }
            assert forall|bb: int| 0 <= bb < old(self).num_buffers() && bb != b as int implies
                #[trigger] self.contents_of(bb) == old(self).contents_of(bb)
                && self.closed_of(bb) == old(self).closed_of(bb) by {
                assert(self.buffers@[bb] == old(self).buffers@[bb]);
            }
        }
        if n == 0 && !self.buffers[b].is_empty() {
            Err(IpcError::InternalError)
        } else {
            Ok(n)
        }
    }

    /// Closes descriptor `pipe_id`: its buffer is closed for both ends and the
    /// slot is emptied.
    pub fn close_pipe(&mut self, pipe_id: usize) -> (r: Result<(), IpcError>)
        requires
            old(self).wf(),
        ensures
            final(self).wf(),
            final(self).num_buffers() == old(self).num_buffers(),
            final(self).next_id() == old(self).next_id(),
            final(self).anonymous() == old(self).anonymous(),
            pipe_id >= old(self).slots().len() || old(self).slots()[pipe_id as int] is None
                ==> r == Err::<(), IpcError>(IpcError::InvalidArgument)
                && final(self).slots() == old(self).slots()
                && PipeTable::buffers_kept(old(self), final(self), old(self).num_buffers()),
            pipe_id < old(self).slots().len() && old(self).slots()[pipe_id as int] is Some ==> {
                let b = old(self).slots()[pipe_id as int]->0.buffer as int;
                &&& r == Ok::<(), IpcError>(())
                &&& final(self).slots() == old(self).slots().update(pipe_id as int, None)
                &&& final(self).closed_of(b)
                &&& final(self).contents_of(b) == old(self).contents_of(b)
                &&& forall|bb: int| 0 <= bb < old(self).num_buffers() && bb != b ==>
                    #[trigger] final(self).contents_of(bb) == old(self).contents_of(bb)
                    && final(self).closed_of(bb) == old(self).closed_of(bb)
            },
    {
        if pipe_id >= self.pipes.len() {
            return Err(IpcError::InvalidArgument);
        }
        let b = match &self.pipes[pipe_id] {
            Some(p) => p.buffer,
            None => { return Err(IpcError::InvalidArgument); },
        };
        self.buffers[b].close();
        self.pipes.set(pipe_id, None);
        proof {
            assert forall|bb: int| 0 <= bb < self.buffers@.len() implies (#[trigger] self.buffers@[bb]).wf() by {
                if bb != b as int {
                    assert(self.buffers@[bb] == old(self).buffers@[bb]);
                }
            }
            assert forall|i: int| 0 <= i < self.pipes@.len() && (#[trigger] self.pipes@[i]) is Some
                implies self.pipes@[i]->0.buffer < self.buffers@.len() by {
                assert(self.pipes@[i] == old(self).pipes@[i]);
            }
            assert forall|bb: int| 0 <= bb < old(self).num_buffers() && bb != b as int implies
                #[trigger] self.contents_of(bb) == old(self).contents_of(bb)
                && self.closed_of(bb) == old(self).closed_of(bb) by {
                assert(self.buffers@[bb] == old(self).buffers@[bb]);
            }
        }
        Ok(())
    }
}

/// The two ends of a new anonymous pipe share one fresh, open and empty
/// buffer: the first end reads, the second writes.
pub proof fn law_anonymous_pipe_ends(old: PipeTable, new: PipeTable, read_fd: usize, write_fd: usize)
    requires
        old.wf(),
        anonymous_pipe_post(old, new, Ok((read_fd, write_fd))),
    ensures
        new.slots()[read_fd as int] matches Some(rp) && rp.direction == PipeDirection::Read,
        new.slots()[write_fd as int] matches Some(wp) && wp.direction == PipeDirection::Write,
        new.slots()[read_fd as int]->0.buffer == new.slots()[write_fd as int]->0.buffer,
        new.contents_of(new.slots()[read_fd as int]->0.buffer as int) == Seq::<u8>::empty(),
        !new.closed_of(new.slots()[read_fd as int]->0.buffer as int),
{
    old.lemma_numbered();
}

/// What is written to a pipe's write end is read, in order, from its read
/// end: writing `data` to an empty open buffer and then reading into a buffer
/// of `data`'s length yields `data`, when it fits in the buffer.
pub proof fn law_pipe_fifo(
    t0: PipeTable,
    t1: PipeTable,
    t2: PipeTable,
    read_fd: usize,
    write_fd: usize,
    data: Seq<u8>,
    oldbuf: Seq<u8>,
    newbuf: Seq<u8>,
    written: Result<usize, IpcError>,
    read: Result<usize, IpcError>,
)
    requires
        t0.wf(),
        read_fd < t0.slots().len() && write_fd < t0.slots().len(),
        t0.slots()[read_fd as int] matches Some(rp) && rp.direction == PipeDirection::Read,
        t0.slots()[write_fd as int] matches Some(wp) && wp.direction == PipeDirection::Write,
        t0.slots()[read_fd as int]->0.buffer == t0.slots()[write_fd as int]->0.buffer,
        t0.contents_of(t0.slots()[read_fd as int]->0.buffer as int) == Seq::<u8>::empty(),
        !t0.closed_of(t0.slots()[read_fd as int]->0.buffer as int),
        0 < data.len() <= PIPE_BUFFER_SIZE,
        oldbuf.len() == data.len(),
        write_pipe_post(t0, t1, write_fd, data, written),
        read_pipe_post(t1, t2, read_fd, oldbuf, newbuf, read),
    ensures
        written == Ok::<usize, IpcError>(data.len() as usize),
        read == Ok::<usize, IpcError>(data.len() as usize),
        newbuf == data,
        t2.contents_of(t0.slots()[read_fd as int]->0.buffer as int) == Seq::<u8>::empty(),
{
    let b = t0.slots()[read_fd as int]->0.buffer as int;
    assert(data.subrange(0, data.len() as int) =~= data);
    assert(Seq::<u8>::empty() + data =~= data);
    assert(t1.contents_of(b) =~= data);
    assert(newbuf.subrange(0, data.len() as int) == data.subrange(0, data.len() as int));
    assert(newbuf =~= newbuf.subrange(0, data.len() as int));
    assert(data.subrange(data.len() as int, data.len() as int) =~= Seq::<u8>::empty());
}

} // verus!
