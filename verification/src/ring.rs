//! A byte queue of fixed size for one producer and one consumer.
//!
//! The bytes lie in a circular array between a read index and a write index.
//! The producer alone moves the write index, the consumer alone the read
//! index. The queue is empty when the two are equal, and full when the write
//! index stands one slot before the read index: one slot always stays free,
//! which is what tells a full queue from an empty one.

use vstd::prelude::*;

verus! {

/// Number of slots in the circular array.
pub const BUF_SIZE: usize = 256;

/// The most bytes that the queue holds at a time.
pub const MAX_QUEUED: usize = 255;

/// The queue after `byte` has arrived: behind the others, or dropped if the
/// queue is full.
pub open spec fn enqueue(queue: Seq<u8>, byte: u8) -> Seq<u8> {
    if queue.len() < MAX_QUEUED {
        queue.push(byte)
    } else {
        queue
    }
}

/// The byte that leaves the queue next, if there is one.
pub open spec fn front(queue: Seq<u8>) -> Option<u8> {
    if queue.len() > 0 {
        Some(queue[0])
    } else {
        None
    }
}

/// The queue after one byte has been taken from it.
pub open spec fn dequeue(queue: Seq<u8>) -> Seq<u8> {
    if queue.len() > 0 {
        queue.drop_first()
    } else {
        queue
    }
}

/// The queue after the bytes of `bytes` have arrived one by one.
pub open spec fn enqueue_all(queue: Seq<u8>, bytes: Seq<u8>) -> Seq<u8>
    decreases bytes.len(),
{
    if bytes.len() == 0 {
        queue
    } else {
        enqueue_all(enqueue(queue, bytes[0]), bytes.drop_first())
    }
}

/// The bytes that `n` takes from the queue yield, in the order in which they
/// come out. A take from an empty queue yields nothing.
pub open spec fn taken(queue: Seq<u8>, n: nat) -> Seq<u8>
    decreases n,
{
    if n == 0 {
        Seq::empty()
    } else {
        match front(queue) {
            Some(byte) => seq![byte] + taken(dequeue(queue), (n - 1) as nat),
            None => taken(dequeue(queue), (n - 1) as nat),
        }
    }
}

/// The queue after `n` takes.
pub open spec fn dequeue_n(queue: Seq<u8>, n: nat) -> Seq<u8>
    decreases n,
{
    if n == 0 {
        queue
    } else {
        dequeue_n(dequeue(queue), (n - 1) as nat)
    }
}

/// The bytes that wait in a circular array `slots` between the read index
/// and the write index, the one at the read index first.
pub open spec fn queued(slots: Seq<u8>, read_index: int, write_index: int) -> Seq<u8> {
    Seq::new(
        ((write_index + BUF_SIZE - read_index) % (BUF_SIZE as int)) as nat,
        |i: int| slots[(read_index + i) % (BUF_SIZE as int)],
    )
}

/// The circular byte queue.
#[derive(Debug)]
pub struct RingBuffer {
    buf: [u8; 256],
    write_idx: usize,
    read_idx: usize,
}

impl View for RingBuffer {
    type V = Seq<u8>;

    /// The queued bytes, the one that leaves next first.
    closed spec fn view(&self) -> Seq<u8> {
        queued(self.buf@, self.read_idx as int, self.write_idx as int)
    }
}

impl RingBuffer {
    /// Every queue is well formed.
    #[verifier::type_invariant]
    pub open spec fn wf(&self) -> bool {
        self.well_formed()
    }

    /// The slot that the next byte is written to.
    pub closed spec fn write_index(&self) -> int {
        self.write_idx as int
    }

    /// The slot that the next byte is read from.
    pub closed spec fn read_index(&self) -> int {
        self.read_idx as int
    }

    /// The circular array, slot by slot.
    pub closed spec fn slots(&self) -> Seq<u8> {
        self.buf@
    }

    /// Whether both indices lie inside the array, the array has all its
    /// slots, and the queued bytes are those that lie in the slots from the
    /// read index up to the write index. This holds of every queue at all
    /// times.
    pub open spec fn well_formed(&self) -> bool {
        &&& 0 <= self.write_index() < BUF_SIZE
        &&& 0 <= self.read_index() < BUF_SIZE
        &&& self.slots().len() == BUF_SIZE
        &&& self@ == queued(self.slots(), self.read_index(), self.write_index())
    }

    /// An empty queue: both indices at the first slot, and every slot zero.
    pub fn new() -> (ring: Self)
        ensures
            ring.well_formed(),
            ring@ == Seq::<u8>::empty(),
            ring.write_index() == 0,
            ring.read_index() == 0,
            ring.slots() == Seq::new(BUF_SIZE as nat, |i: int| 0u8),
    {
        RingBuffer { buf: [0u8; 256], write_idx: 0, read_idx: 0 }
    }

    /// The queue that lies in the array `buf` between the indices given, or
    /// `None` if one of them lies outside the array.
    pub fn from_parts(buf: [u8; 256], write_idx: usize, read_idx: usize) -> (ring: Option<Self>)
        ensures
            ring is Some <==> write_idx < BUF_SIZE && read_idx < BUF_SIZE,
            ring matches Some(ring) ==> ring.well_formed() && ring.slots() == buf@
                && ring.write_index() == write_idx
                && ring.read_index() == read_idx && ring@ == queued(
                buf@,
                read_idx as int,
                write_idx as int,
            ),
    {
        if write_idx < BUF_SIZE && read_idx < BUF_SIZE {
            Some(RingBuffer { buf, write_idx, read_idx })
        } else {
            None
        }
    }

    /// The slot that the next byte is written to.
    pub fn write_idx(&self) -> (index: usize)
        ensures
            index == self.write_index(),
            index < BUF_SIZE,
    {
        proof {
            use_type_invariant(self);
        }
        self.write_idx
    }

    /// The slot that the next byte is read from.
    pub fn read_idx(&self) -> (index: usize)
        ensures
            index == self.read_index(),
            index < BUF_SIZE,
    {
        proof {
            use_type_invariant(self);
        }
        self.read_idx
    }

    /// The circular array, slot by slot.
    pub fn buffer(&self) -> (buf: &[u8; 256])
        ensures
            buf@ == self.slots(),
    {
        &self.buf
    }

    /// The number of queued bytes.
    pub fn len(&self) -> (n: usize)
        ensures
            n == self@.len(),
            n <= MAX_QUEUED,
            n == (self.write_index() + BUF_SIZE - self.read_index()) % (BUF_SIZE as int),
    {
        proof {
            use_type_invariant(self);
        }
        (self.write_idx + BUF_SIZE - self.read_idx) % BUF_SIZE
    }

    /// Whether nothing is queued, which is so exactly when the two indices
    /// are equal.
    pub fn is_empty(&self) -> (empty: bool)
        ensures
            empty == (self@.len() == 0),
            empty == (self.read_index() == self.write_index()),
    {
        proof {
            use_type_invariant(self);
        }
        self.read_idx == self.write_idx
    }

    /// Whether the next byte to arrive would be dropped, which is so exactly
    /// when the write index stands one slot before the read index.
    pub fn is_full(&self) -> (full: bool)
        ensures
            full == (self@.len() == MAX_QUEUED),
            full == ((self.write_index() + 1) % (BUF_SIZE as int) == self.read_index()),
    {
        proof {
            use_type_invariant(self);
        }
        (self.write_idx + 1) % BUF_SIZE == self.read_idx
    }

    /// The `i`-th of the queued bytes, counted from the one that leaves
    /// next. The queue stays as it is.
    pub fn get(&self, i: usize) -> (byte: u8)
        requires
            i < self@.len(),
        ensures
            byte == self@[i as int],
    {
        proof {
            use_type_invariant(self);
        }
        self.buf[(self.read_idx + i) % BUF_SIZE]
    }

    /// Queues `byte` behind the others and returns `true`: the byte goes
    /// into the slot at the write index, which then moves on by one. A full
    /// queue drops the byte instead, stays in every respect as it was, and
    /// the result is `false`.
    ///
    /// This is the producer's side: the read index never moves.
    pub fn push(&mut self, byte: u8) -> (queued: bool)
        ensures
            old(self).well_formed(),
            final(self).well_formed(),
            queued == (old(self)@.len() < MAX_QUEUED),
            final(self)@ == enqueue(old(self)@, byte),
            final(self).read_index() == old(self).read_index(),
            queued ==> final(self).write_index() == (old(self).write_index() + 1) % (
            BUF_SIZE as int),
            queued ==> final(self).slots() == old(self).slots().update(
                old(self).write_index(),
                byte,
            ),
            !queued ==> *final(self) == *old(self),
    {
        proof {
            use_type_invariant(&*self);
        }
        let next: usize = (self.write_idx + 1) % BUF_SIZE;
        if next != self.read_idx {
            self.buf[self.write_idx] = byte;
            self.write_idx = next;
            true
        } else {
            false
        }
    }

    /// Takes the byte that has waited longest, or returns `None` at once if
    /// nothing is queued.
    ///
    /// This is the consumer's side: the write index and the array stay as
    /// they were.
    pub fn pop(&mut self) -> (byte: Option<u8>)
        ensures
            old(self).well_formed(),
            final(self).well_formed(),
            byte == front(old(self)@),
            byte is None <==> old(self).read_index() == old(self).write_index(),
            byte matches Some(taken) ==> taken == old(self).slots()[old(self).read_index()],
            final(self)@ == dequeue(old(self)@),
            final(self).write_index() == old(self).write_index(),
            final(self).slots() == old(self).slots(),
            byte is Some ==> final(self).read_index() == (old(self).read_index() + 1) % (
            BUF_SIZE as int),
            byte is None ==> *final(self) == *old(self),
    {
        proof {
            use_type_invariant(&*self);
        }
        if self.read_idx == self.write_idx {
            return None;
        }
        let byte: u8 = self.buf[self.read_idx];
        self.read_idx = (self.read_idx + 1) % BUF_SIZE;
        Some(byte)
    }
}

/// The queued bytes are those that lie in the slots from the read index up
/// to the write index.
pub proof fn lemma_queued(ring: RingBuffer)
    ensures
        ring@ == queued(ring.slots(), ring.read_index(), ring.write_index()),
        ring.slots().len() == BUF_SIZE,
{
}

/// Bytes that arrive while there is room line up behind the queue, in their
/// order.
pub proof fn lemma_enqueue_all(queue: Seq<u8>, bytes: Seq<u8>)
    requires
        queue.len() + bytes.len() <= MAX_QUEUED,
    ensures
        enqueue_all(queue, bytes) == queue + bytes,
    decreases bytes.len(),
{
    if bytes.len() > 0 {
        lemma_enqueue_all(enqueue(queue, bytes[0]), bytes.drop_first());
    }
}

/// Taking `n` bytes from a queue that holds as many yields its first `n`
/// bytes in order and leaves the rest.
pub proof fn lemma_take(queue: Seq<u8>, n: nat)
    requires
        n <= queue.len(),
    ensures
        taken(queue, n) == queue.take(n as int),
        dequeue_n(queue, n) == queue.skip(n as int),
    decreases n,
{
    if n > 0 {
        lemma_take(dequeue(queue), (n - 1) as nat);
    }
}

/// First in, first out: bytes pushed onto an empty queue, no more than it
/// holds, and then taken one by one come out as they went in, and leave the
/// queue empty.
pub proof fn lemma_fifo(bytes: Seq<u8>)
    requires
        bytes.len() <= MAX_QUEUED,
    ensures
        taken(enqueue_all(Seq::empty(), bytes), bytes.len()) == bytes,
        dequeue_n(enqueue_all(Seq::empty(), bytes), bytes.len()) == Seq::<u8>::empty(),
{
    lemma_enqueue_all(Seq::empty(), bytes);
    lemma_take(bytes, bytes.len());
}

/// A full queue drops what arrives: it holds afterwards what it held before.
pub proof fn lemma_overflow(queue: Seq<u8>, byte: u8)
    requires
        queue.len() == MAX_QUEUED,
    ensures
        enqueue(queue, byte) == queue,
{
}

} // verus!
