//! Media sinks that keep what they are given in memory, or nothing.
use vstd::prelude::*;
use crate::media::interface::MediaError;

verus! {

/// A sink that keeps, in order, every byte it is given.
#[derive(Debug)]
pub struct MemorySink {
    data: Vec<u8>,
}

impl MemorySink {
    /// The bytes written so far.
    pub closed spec fn written(&self) -> Seq<u8> {
        self.data@
    }

    /// An empty sink.
    pub fn new() -> (r: Self)
        ensures
            r.written() == Seq::<u8>::empty(),
    {
        MemorySink { data: Vec::new() }
    }

    /// Write a chunk: its bytes follow those written before.
    pub fn write_chunk(&mut self, data: &[u8]) -> (r: Result<(), MediaError>)
        requires
            old(self).written().len() + data@.len() <= usize::MAX,
        ensures
            r is Ok,
            final(self).written() == old(self).written() + data@,
    {
        let mut i: usize = 0;
        let ghost start = self.data@;
        while i < data.len()
            invariant
                i <= data@.len(),
                self.data@ == start + data@.subrange(0, i as int),
                start.len() + data@.len() <= usize::MAX,
            decreases data@.len() - i,
        {
            self.data.push(data[i]);
            i = i + 1;
            assert(data@.subrange(0, i as int) == data@.subrange(0, i - 1) + seq![data@[i - 1]]);
        }
        assert(data@.subrange(0, data@.len() as int) == data@);
        Ok(())
    }

    /// Flush: the bytes are already held.
    pub fn flush(&mut self) -> (r: Result<(), MediaError>)
        ensures
            r is Ok,
            final(self).written() == old(self).written(),
    {
        Ok(())
    }

    /// The bytes written, in order.
    pub fn into_inner(self) -> (r: Vec<u8>)
        ensures
            r@ == self.written(),
    {
        self.data
    }
}

impl Default for MemorySink {
    fn default() -> (r: Self)
        ensures
            r.written() == Seq::<u8>::empty(),
    {
        MemorySink::new()
    }
}

/// A sink that discards what it is given.
#[derive(Debug)]
pub struct NullSink;

impl NullSink {
    /// Write a chunk: it is discarded.
    pub fn write_chunk(&mut self, data: &[u8]) -> (r: Result<(), MediaError>)
        ensures
            r is Ok,
    {
        Ok(())
    }

    /// Flush: there is nothing to flush.
    pub fn flush(&mut self) -> (r: Result<(), MediaError>)
        ensures
            r is Ok,
    {
        Ok(())
    }
}

impl Default for NullSink {
    fn default() -> (r: Self) {
        NullSink
    }
}

} // verus!
