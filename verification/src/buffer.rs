//! A closable FIFO byte buffer that counts the bytes that pass through it.
use std::collections::VecDeque;
use vstd::prelude::*;

verus! {

/// A byte FIFO with a closed flag and running totals.
pub struct Buffer {
    buffer: VecDeque<u8>,
    closed: bool,
    total_written: usize,
    total_read: usize,
}

/// The error of an operation on a closed buffer.
#[derive(Debug)]
pub struct BufferClosed;

/// The mathematical value of a [`Buffer`].
pub struct BufferView {
    /// The bytes written and not yet read, oldest first.
    pub pending: Seq<u8>,
    pub closed: bool,
    pub total_written: nat,
    pub total_read: nat,
}

impl BufferView {
    /// An open buffer that never held a byte.
    pub open spec fn empty() -> BufferView {
        BufferView { pending: Seq::empty(), closed: false, total_written: 0, total_read: 0 }
    }

    /// Every byte written is either read or pending.
    pub open spec fn wf(self) -> bool {
        self.total_written == self.total_read + self.pending.len()
    }

    /// A write of `data` is refused.
    pub open spec fn write_fails(self) -> bool {
        self.closed
    }

    /// The buffer after `data` is written.
    pub open spec fn after_write(self, data: Seq<u8>) -> BufferView {
        if self.closed {
            self
        } else {
            BufferView {
                pending: self.pending + data,
                total_written: self.total_written + data.len(),
                ..self
            }
        }
    }

    /// A read is refused: nothing is pending and nothing more can come.
    pub open spec fn read_fails(self) -> bool {
        self.pending.len() == 0 && self.closed
    }

    /// The number of bytes a read of at most `n` bytes takes.
    pub open spec fn read_count(self, n: nat) -> nat {
        if n <= self.pending.len() {
            n
        } else {
            self.pending.len()
        }
    }

    /// The bytes a read of at most `n` bytes gives.
    pub open spec fn read_bytes(self, n: nat) -> Seq<u8> {
        self.pending.take(self.read_count(n) as int)
    }

    /// The buffer after a read of at most `n` bytes.
    pub open spec fn after_read(self, n: nat) -> BufferView {
        if self.read_fails() {
            self
        } else {
            BufferView {
                pending: self.pending.skip(self.read_count(n) as int),
                total_read: self.total_read + self.read_count(n),
                ..self
            }
        }
    }

    /// The buffer is worth reading: bytes wait, or a read would report
    /// that the buffer is closed.
    pub open spec fn readable(self) -> bool {
        self.closed || self.pending.len() > 0
    }
}

impl View for Buffer {
    type V = BufferView;

    closed spec fn view(&self) -> BufferView {
        BufferView {
            pending: self.buffer@,
            closed: self.closed,
            total_written: self.total_written as nat,
            total_read: self.total_read as nat,
        }
    }
}

impl Default for Buffer {
    fn default() -> (b: Self)
        ensures
            b@ == BufferView::empty(),
    {
        Buffer { buffer: VecDeque::new(), closed: false, total_written: 0, total_read: 0 }
    }
}

impl Buffer {
    pub fn write(&mut self, data: &[u8]) -> (r: Result<(), BufferClosed>)
        requires
            old(self)@.wf(),
            !old(self)@.closed ==> old(self)@.total_written + data@.len() <= usize::MAX,
        ensures
            final(self)@.wf(),
            r is Err <==> old(self)@.write_fails(),
            final(self)@ == old(self)@.after_write(data@),
    {
        if self.closed {
            return Err(BufferClosed);
        }
        let mut i: usize = 0;
        while i < data.len()
            invariant
                0 <= i <= data@.len(),
                self.buffer@ == old(self).buffer@ + data@.take(i as int),
                self.closed == old(self).closed,
                self.total_written == old(self).total_written,
                self.total_read == old(self).total_read,
            decreases data@.len() - i,
        {
            self.buffer.push_back(data[i]);
            i = i + 1;
            assert(self.buffer@ =~= old(self).buffer@ + data@.take(i as int));
        }
        assert(data@.take(data@.len() as int) =~= data@);
        self.total_written = self.total_written + data.len();
        Ok(())
    }

    pub fn writable(&self) -> (b: bool)
        ensures
            b,
    {
        true
    }

    pub fn read(&mut self, n: usize) -> (r: Result<Vec<u8>, BufferClosed>)
        requires
            old(self)@.wf(),
        ensures
            final(self)@.wf(),
            r is Err <==> old(self)@.read_fails(),
            r matches Ok(bytes) ==> bytes@ == old(self)@.read_bytes(n as nat),
            final(self)@ == old(self)@.after_read(n as nat),
    {
        if self.buffer.len() == 0 && self.closed {
            return Err(BufferClosed);
        }
        let n = if n < self.buffer.len() {
            n
        } else {
            self.buffer.len()
        };
        let mut out: Vec<u8> = Vec::new();
        let mut i: usize = 0;
        while i < n
            invariant
                0 <= i <= n <= old(self).buffer@.len(),
                out@ == old(self).buffer@.take(i as int),
                self.buffer@ == old(self).buffer@.skip(i as int),
                self.closed == old(self).closed,
                self.total_written == old(self).total_written,
                self.total_read == old(self).total_read,
            decreases n - i,
        {
            match self.buffer.pop_front() {
                Some(byte) => out.push(byte),
                None => {},
            }
            i = i + 1;
            assert(out@ =~= old(self).buffer@.take(i as int));
            assert(self.buffer@ =~= old(self).buffer@.skip(i as int));
        }
        self.total_read = self.total_read + n;
        Ok(out)
    }

    pub fn readable(&self) -> (b: bool)
        ensures
            b == self@.readable(),
    {
        self.closed || self.buffer.len() != 0
    }

    pub fn read_all(&mut self) -> (r: Result<Vec<u8>, BufferClosed>)
        requires
            old(self)@.wf(),
        ensures
            final(self)@.wf(),
            r is Err <==> old(self)@.read_fails(),
            r matches Ok(bytes) ==> bytes@ == old(self)@.pending,
            final(self)@ == old(self)@.after_read(old(self)@.pending.len()),
    {
        if self.buffer.len() == 0 && self.closed {
            return Err(BufferClosed);
        }
        let n = self.buffer.len();
        let r = self.read(n);
        assert(old(self)@.pending.take(n as int) =~= old(self)@.pending);
        r
    }

    /// Close the buffer; gives the totals read and written so far.
    pub fn close(&mut self) -> (r: (usize, usize))
        requires
            old(self)@.wf(),
        ensures
            final(self)@.wf(),
            final(self)@ == (BufferView { closed: true, ..old(self)@ }),
            r.0 == old(self)@.total_read,
            r.1 == old(self)@.total_written,
    {
        self.closed = true;
        (self.total_read, self.total_written)
    }

    pub fn is_closed(&self) -> (b: bool)
        ensures
            b == self@.closed,
    {
        self.closed
    }
}

/// Bytes leave the buffer in the order they entered it: after a write,
/// draining the buffer gives what was pending followed by what was
/// written.
pub proof fn lemma_fifo(b: BufferView, data: Seq<u8>)
    requires
        b.wf(),
        !b.closed,
    ensures
        ({
            let w = b.after_write(data);
            &&& w.wf()
            &&& w.read_bytes(w.pending.len()) == b.pending + data
            &&& w.after_read(w.pending.len()).pending.len() == 0
            &&& w.after_read(w.pending.len()).total_read == w.total_written
        }),
{
    let w = b.after_write(data);
    assert(w.pending.take(w.pending.len() as int) =~= b.pending + data);
}

/// Splitting a read in two gives the same bytes as one read of the sum.
pub proof fn lemma_split_reads(b: BufferView, n1: nat, n2: nat)
    requires
        b.wf(),
        n1 + n2 <= b.pending.len(),
    ensures
        b.read_bytes(n1) + b.after_read(n1).read_bytes(n2) == b.read_bytes(n1 + n2),
        b.after_read(n1).after_read(n2) == b.after_read(n1 + n2),
{
    assert(b.read_bytes(n1) + b.after_read(n1).read_bytes(n2) =~= b.read_bytes(n1 + n2));
    assert(b.after_read(n1).after_read(n2).pending =~= b.after_read(n1 + n2).pending);
}

/// A closed buffer refuses every write, and once drained refuses every
/// read; a close never changes the bytes pending.
pub proof fn lemma_closed_buffer(b: BufferView, data: Seq<u8>, n: nat)
    requires
        b.wf(),
        b.closed,
    ensures
        b.write_fails(),
        b.after_write(data) == b,
        b.pending.len() == 0 ==> b.read_fails() && b.after_read(n) == b,
{
}

} // verus!
