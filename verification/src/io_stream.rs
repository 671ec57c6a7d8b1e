//! Byte streams of the WASI `io` interface, backed by a [`Buffer`].
use crate::buffer::{Buffer, BufferClosed, BufferView};
use crate::wasi_types::StreamError;
use vstd::prelude::*;

verus! {

/// The number of bytes a stream accepts at a time.
pub const WRITE_BUDGET: u64 = 4096;

/// An in-memory input/output stream.
pub struct Stream {
    buffer: Buffer,
}

impl View for Stream {
    type V = BufferView;

    closed spec fn view(&self) -> BufferView {
        self.buffer@
    }
}

impl Default for Stream {
    fn default() -> (s: Self)
        ensures
            s@ == BufferView::empty(),
    {
        Stream { buffer: Buffer::default() }
    }
}

impl From<BufferClosed> for StreamError {
    /// A closed buffer is a closed stream.
    fn from(_closed: BufferClosed) -> (e: Self)
        ensures
            e is Closed,
    {
        StreamError::Closed
    }
}

impl vstd::std_specs::convert::FromSpecImpl<BufferClosed> for StreamError {
    open spec fn obeys_from_spec() -> bool {
        true
    }

    open spec fn from_spec(_closed: BufferClosed) -> Self {
        StreamError::Closed
    }
}

/// The number of bytes a splice of at most `len` bytes from `src` moves.
pub open spec fn splice_count(src: BufferView, len: nat) -> nat {
    src.read_count(if len <= WRITE_BUDGET {
        len
    } else {
        WRITE_BUDGET as nat
    })
}

impl Stream {
    pub fn new() -> (s: Self)
        ensures
            s@ == BufferView::empty(),
    {
        Self::default()
    }

    /// How many bytes the stream accepts now.
    pub fn check_write(&self) -> (r: Result<u64, BufferClosed>)
        ensures
            r is Err <==> self@.closed,
            r matches Ok(n) ==> n == WRITE_BUDGET,
    {
        if self.buffer.is_closed() {
            return Err(BufferClosed);
        }
        Ok(WRITE_BUDGET)
    }

    pub fn write(&mut self, data: &[u8]) -> (r: Result<(), BufferClosed>)
        requires
            old(self)@.wf(),
            !old(self)@.closed ==> old(self)@.total_written + data@.len() <= usize::MAX,
        ensures
            final(self)@.wf(),
            r is Err <==> old(self)@.write_fails(),
            final(self)@ == old(self)@.after_write(data@),
    {
        self.buffer.write(data)?;
        Ok(())
    }

    /// Write `len` zero bytes.
    pub fn write_zeroes(&mut self, len: usize) -> (r: Result<(), BufferClosed>)
        requires
            old(self)@.wf(),
            !old(self)@.closed ==> old(self)@.total_written + len <= usize::MAX,
        ensures
            final(self)@.wf(),
            r is Err <==> old(self)@.write_fails(),
            final(self)@ == old(self)@.after_write(Seq::new(len as nat, |i: int| 0u8)),
    {
        let mut zeros: Vec<u8> = Vec::new();
        let mut i: usize = 0;
        while i < len
            invariant
                i <= len,
                zeros@ == Seq::new(i as nat, |k: int| 0u8),
            decreases len - i,
        {
            zeros.push(0u8);
            i = i + 1;
            assert(zeros@ =~= Seq::new(i as nat, |k: int| 0u8));
        }
        self.write(zeros.as_slice())
    }

    pub fn flush(&mut self) -> (r: Result<(), BufferClosed>)
        ensures
            r is Ok,
            final(self)@ == old(self)@,
    {
        Ok(())
    }

    /// Move at most `len` bytes (and at most one write budget) from `src`
    /// into this stream.
    pub fn splice(&mut self, src: &mut Stream, len: usize) -> (r: Result<usize, BufferClosed>)
        requires
            old(self)@.wf(),
            old(src)@.wf(),
            old(self)@.total_written + splice_count(old(src)@, len as nat) <= usize::MAX,
        ensures
            final(self)@.wf(),
            final(src)@.wf(),
            r is Err <==> old(self)@.closed || old(src)@.read_fails(),
            old(self)@.closed ==> final(self)@ == old(self)@ && final(src)@ == old(src)@,
            !old(self)@.closed && old(src)@.read_fails() ==> final(self)@ == old(self)@
                && final(src)@ == old(src)@,
            !old(self)@.closed && !old(src)@.read_fails() ==> {
                let k = splice_count(old(src)@, len as nat);
                &&& r == Ok::<usize, BufferClosed>(k as usize)
                &&& final(src)@ == old(src)@.after_read(
                    if len <= WRITE_BUDGET {
                        len as nat
                    } else {
                        WRITE_BUDGET as nat
                    },
                )
                &&& final(self)@ == old(self)@.after_write(old(src)@.pending.take(k as int))
            },
    {
        let n = self.check_write()? as usize;
        let n = if n < len {
            n
        } else {
            len
        };
        let data = src.buffer.read(n)?;
        self.buffer.write(data.as_slice())?;
        Ok(data.len())
    }

    pub fn read(&mut self, len: usize) -> (r: Result<Vec<u8>, BufferClosed>)
        requires
            old(self)@.wf(),
        ensures
            final(self)@.wf(),
            r is Err <==> old(self)@.read_fails(),
            r matches Ok(bytes) ==> bytes@ == old(self)@.read_bytes(len as nat),
            final(self)@ == old(self)@.after_read(len as nat),
    {
        self.buffer.read(len)
    }

    /// Drop up to `len` pending bytes, telling how many went.
    pub fn skip(&mut self, len: usize) -> (r: Result<u64, BufferClosed>)
        requires
            old(self)@.wf(),
        ensures
            final(self)@.wf(),
            r is Err <==> old(self)@.read_fails(),
            r matches Ok(n) ==> n == old(self)@.read_count(len as nat),
            final(self)@ == old(self)@.after_read(len as nat),
    {
        let data = self.buffer.read(len)?;
        Ok(data.len() as u64)
    }

    pub fn read_all(&mut self) -> (r: Result<Vec<u8>, BufferClosed>)
        requires
            old(self)@.wf(),
        ensures
            final(self)@.wf(),
            r is Err <==> old(self)@.read_fails(),
            r matches Ok(bytes) ==> bytes@ == old(self)@.pending,
            final(self)@ == old(self)@.after_read(old(self)@.pending.len()),
    {
        self.buffer.read_all()
    }

    pub fn readable(&self) -> (b: bool)
        ensures
            b == self@.readable(),
    {
        self.buffer.readable()
    }

    pub fn writable(&self) -> (b: bool)
        ensures
            b,
    {
        self.buffer.writable()
    }

    pub fn close(&mut self) -> (r: (usize, usize))
        requires
            old(self)@.wf(),
        ensures
            final(self)@.wf(),
            final(self)@ == (BufferView { closed: true, ..old(self)@ }),
            r.0 == old(self)@.total_read,
            r.1 == old(self)@.total_written,
    {
        self.buffer.close()
    }
}

} // verus!
