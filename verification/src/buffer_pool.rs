//! A bounded pool of receive buffers.
//!
//! Every buffer the pool hands out is `BUFFER_SIZE` zero bytes. The pool keeps
//! returned buffers up to a limit, so that a busy listener does not allocate
//! for every datagram. A buffer that is never returned costs nothing but its
//! reuse.

use vstd::prelude::*;
use crate::limits::BUFFER_SIZE;

verus! {

/// The content of every buffer the pool hands out.
pub open spec fn blank_buffer() -> Seq<u8> {
    Seq::new(BUFFER_SIZE as nat, |i: int| 0u8)
}

/// Reusable receive buffers, at most `limit()` of them at rest.
pub struct BufferPool {
    buffers: Vec<Vec<u8>>,
    max_size: usize,
}

/// Asks `Vec::capacity` how many bytes the buffer can hold without growing.
/// The one thing taken on trust is that a vector's capacity is never less
/// than its length.
#[verifier::external_body]
fn buffer_capacity(buf: &Vec<u8>) -> (capacity: usize)
    ensures
        capacity >= buf.len(),
{
    buf.capacity()
}

impl BufferPool {
    /// Number of buffers at rest in the pool.
    pub closed spec fn available(&self) -> nat {
        self.buffers.len() as nat
    }

    /// Largest number of buffers the pool keeps.
    pub closed spec fn limit(&self) -> nat {
        self.max_size as nat
    }

    /// The pool never holds more than its limit, and every buffer at rest is
    /// blank.
    pub closed spec fn wf(&self) -> bool {
        &&& self.buffers.len() <= self.max_size
        &&& forall|i: int| 0 <= i < self.buffers.len() ==> (#[trigger] self.buffers[i])@ == blank_buffer()
    }

    /// An empty pool that keeps at most `max_size` buffers.
    pub fn new(max_size: usize) -> (pool: BufferPool)
        ensures
            pool.wf(),
            pool.available() == 0,
            pool.limit() == max_size,
    {
        BufferPool { buffers: Vec::new(), max_size }
    }

    /// Hands out a blank buffer: one at rest if there is any, a new one
    /// otherwise.
    pub fn get_buffer(&mut self) -> (buf: Vec<u8>)
        requires
            old(self).wf(),
        ensures
            final(self).wf(),
            buf@ == blank_buffer(),
            final(self).limit() == old(self).limit(),
            final(self).available() == if old(self).available() > 0 {
                old(self).available() - 1
            } else {
                0
            },
    {
        match self.buffers.pop() {
            Some(buf) => buf,
            None => {
                let buf = vec![0u8; BUFFER_SIZE];
                assert(buf@ =~= blank_buffer());
                buf
            },
        }
    }

    /// Takes a buffer back, given the capacity it was found to have. The
    /// buffer is blanked and kept if that capacity is at least `BUFFER_SIZE`
    /// and the pool is below its limit; otherwise it is dropped.
    pub fn return_buffer_with_capacity(&mut self, buf: Vec<u8>, capacity: usize)
        requires
            old(self).wf(),
        ensures
            final(self).wf(),
            final(self).limit() == old(self).limit(),
            final(self).available() == if capacity >= BUFFER_SIZE && old(self).available() < old(self).limit() {
                old(self).available() + 1
            } else {
                old(self).available()
            },
    {
        if capacity >= BUFFER_SIZE {
            let mut buf = buf;
            buf.clear();
            buf.resize(BUFFER_SIZE, 0);
            assert(buf@ =~= blank_buffer());
            if self.buffers.len() < self.max_size {
                self.buffers.push(buf);
            }
        }
    }

    /// Takes a buffer back. Whether it is kept depends on the capacity the
    /// allocator gave it, which is at least its length: a buffer of
    /// `BUFFER_SIZE` bytes or more is kept whenever the pool is below its
    /// limit, and no buffer is kept by a pool at its limit.
    pub fn return_buffer(&mut self, buf: Vec<u8>)
        requires
            old(self).wf(),
        ensures
            final(self).wf(),
            final(self).limit() == old(self).limit(),
            final(self).available() == old(self).available() || final(self).available() == old(self).available() + 1,
            old(self).available() >= old(self).limit() ==> final(self).available() == old(self).available(),
            buf.len() >= BUFFER_SIZE && old(self).available() < old(self).limit() ==> final(self).available() == old(self).available() + 1,
    {
        let capacity = buffer_capacity(&buf);
        self.return_buffer_with_capacity(buf, capacity);
    }

    /// Number of buffers at rest in the pool.
    pub fn len(&self) -> (n: usize)
        ensures
            n == self.available(),
    {
        self.buffers.len()
    }
}

} // verus!
