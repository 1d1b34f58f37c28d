//! Byte-wide I/O port accesses, as values.
//!
//! The drivers of this crate never touch a port themselves. Each of them
//! computes the writes that are due, in order, and hands them back in a
//! [`PortWrites`]; whoever owns the machine performs them. A batch lives on
//! the stack, so a driver can be called where nothing may be allocated.

use vstd::prelude::*;

verus! {

/// One byte written to one I/O port.
#[derive(Clone, Copy, Debug, PartialEq, Eq, Structural)]
pub struct PortWrite {
    pub port: u16,
    pub value: u8,
}

/// The port that nothing listens on; a write to it only takes time.
pub const DELAY_PORT: u16 = 0x80;

/// The most writes that one batch holds.
pub const MAX_WRITES: usize = 32;

/// The write that stands for one settling delay.
pub open spec fn delay() -> PortWrite {
    PortWrite { port: DELAY_PORT, value: 0 }
}

/// The write that gives the hardware about a microsecond to settle.
pub fn io_wait() -> (w: PortWrite)
    ensures
        w == delay(),
{
    PortWrite { port: DELAY_PORT, value: 0 }
}

/// Port writes in the order in which they are to be performed.
#[derive(Clone, Copy, Debug)]
pub struct PortWrites {
    slots: [PortWrite; 32],
    len: usize,
}

impl View for PortWrites {
    type V = Seq<PortWrite>;

    closed spec fn view(&self) -> Seq<PortWrite> {
        self.slots@.take(self.len as int)
    }
}

impl PortWrites {
    /// The slots in use are a prefix of the storage.
    #[verifier::type_invariant]
    spec fn wf(&self) -> bool {
        self.len <= MAX_WRITES
    }

    /// A batch with nothing to write.
    pub fn new() -> (batch: Self)
        ensures
            batch@ == Seq::<PortWrite>::empty(),
    {
        PortWrites { slots: [PortWrite { port: 0, value: 0 }; 32], len: 0 }
    }

    /// How many writes the batch holds.
    pub fn len(&self) -> (n: usize)
        ensures
            n == self@.len(),
            n <= MAX_WRITES,
    {
        proof {
            use_type_invariant(self);
        }
        self.len
    }

    /// The `i`-th write of the batch.
    pub fn get(&self, i: usize) -> (w: PortWrite)
        requires
            i < self@.len(),
        ensures
            w == self@[i as int],
    {
        proof {
            use_type_invariant(self);
        }
        self.slots[i]
    }

    /// The writes as a slice, first to last.
    pub fn as_slice(&self) -> (out: &[PortWrite])
        ensures
            out@ == self@,
    {
        proof {
            use_type_invariant(self);
        }
        let all: &[PortWrite] = &self.slots;
        vstd::slice::slice_subrange(all, 0, self.len)
    }

    /// Adds one write behind those that the batch holds.
    pub fn push(&mut self, w: PortWrite)
        requires
            old(self)@.len() < MAX_WRITES,
        ensures
            final(self)@ == old(self)@.push(w),
    {
        proof {
            use_type_invariant(&*self);
        }
        self.slots[self.len] = w;
        self.len = self.len + 1;
    }

    /// Adds a write and, behind it, the settling delay.
    pub fn push_settled(&mut self, w: PortWrite)
        requires
            old(self)@.len() + 2 <= MAX_WRITES,
        ensures
            final(self)@ == old(self)@.push(w).push(delay()),
    {
        self.push(w);
        self.push(io_wait());
    }

    /// Adds the writes of `other`, in their order, behind those that the
    /// batch holds.
    pub fn append(&mut self, other: &PortWrites)
        requires
            old(self)@.len() + other@.len() <= MAX_WRITES,
        ensures
            final(self)@ == old(self)@ + other@,
    {
        let n: usize = other.len();
        let mut i: usize = 0;
        while i < n
            invariant
                i <= n,
                n == other@.len(),
                old(self)@.len() + other@.len() <= MAX_WRITES,
                self@ == old(self)@ + other@.take(i as int),
            decreases n - i,
        {
            self.push(other.get(i));
            i += 1;
        }
    }
}

} // verus!
