//! A byte buffer for media: bytes come out in the order they went in.
use vstd::prelude::*;

verus! {

/// Limits and targets of a media buffer.
#[derive(Debug, Clone)]
pub struct BufferConfig {
    /// Largest number of bytes held.
    pub max_size: usize,
    /// Longest duration held, in milliseconds.
    pub max_duration: u64,
    /// Duration to hold before playback starts, in milliseconds.
    pub initial_buffer_target: u64,
}

impl Default for BufferConfig {
    /// 10 MiB, 30 s, 5 s.
    fn default() -> (r: BufferConfig)
        ensures
            r.max_size == 10 * 1024 * 1024,
            r.max_duration == 30_000,
            r.initial_buffer_target == 5_000,
    {
        BufferConfig { max_size: 10 * 1024 * 1024, max_duration: 30_000, initial_buffer_target: 5_000 }
    }
}

/// Why a buffer operation failed.
#[derive(Debug)]
pub struct BufferError {
    message: String,
}

impl BufferError {
    /// The message.
    pub closed spec fn message_text(&self) -> Seq<char> {
        self.message@
    }

    /// An error with this message.
    pub fn from_message(err: &str) -> (r: BufferError)
        ensures
            r.message_text() == err@,
    {
        BufferError { message: String::from_str(err) }
    }

    /// The error as text: `Buffer error: ` and its message.
    pub fn to_string(&self) -> (r: String)
        ensures
            r@ == "Buffer error: "@ + self.message_text(),
    {
        let mut s = String::from_str("Buffer error: ");
        s.append(self.message.as_str());
        s
    }
}

/// A FIFO buffer of media bytes.
#[derive(Debug)]
pub struct MediaBuffer {
    data: Vec<u8>,
    config: BufferConfig,
    position: usize,
    total_bytes: usize,
}

/// The playing time of `size` buffered bytes, in milliseconds, at the
/// assumed rate of 128 bytes per millisecond (1 Mbit/s): `size / 1024 * 8`.
pub open spec fn buffered_ms(size: int) -> int {
    size / 128
}

impl MediaBuffer {
    /// The bytes held, oldest first.
    pub closed spec fn contents(&self) -> Seq<u8> {
        self.data@
    }

    /// The configuration.
    pub closed spec fn limits(&self) -> BufferConfig {
        self.config
    }

    /// Bytes taken out since the buffer was created or cleared.
    pub closed spec fn consumed(&self) -> usize {
        self.position
    }

    /// Bytes put in since the buffer was created.
    pub closed spec fn received(&self) -> usize {
        self.total_bytes
    }

    /// An empty buffer.
    pub fn new(config: BufferConfig) -> (r: MediaBuffer)
        ensures
            r.contents() == Seq::<u8>::empty(),
            r.limits() == config,
            r.consumed() == 0,
            r.received() == 0,
    {
        MediaBuffer { data: Vec::new(), config, position: 0, total_bytes: 0 }
    }

    /// Append `data`; an error, and nothing appended, when the buffer would
    /// then hold more than its maximum size.
    pub fn push(&mut self, data: &[u8]) -> (r: Result<(), BufferError>)
        requires
            old(self).contents().len() + data@.len() <= usize::MAX,
            old(self).received() + data@.len() <= usize::MAX,
        ensures
            old(self).contents().len() + data@.len() > old(self).limits().max_size ==> {
                &&& r matches Err(e) && e.message_text() == "Buffer full"@
                &&& *final(self) == *old(self)
            },
            old(self).contents().len() + data@.len() <= old(self).limits().max_size ==> {
                &&& r is Ok
                &&& final(self).contents() == old(self).contents() + data@
                &&& final(self).received() == old(self).received() + data@.len()
                &&& final(self).consumed() == old(self).consumed()
                &&& final(self).limits() == old(self).limits()
            },
    {
        if self.data.len() + data.len() > self.config.max_size {
            return Err(BufferError::from_message("Buffer full"));
        }
        crate::bytes_be::push_all(&mut self.data, data);
        self.total_bytes = self.total_bytes + data.len();
        Ok(())
    }

    /// Take the `size` oldest bytes; an error, and nothing taken, when
    /// fewer are held.
    pub fn pop(&mut self, size: usize) -> (r: Result<Vec<u8>, BufferError>)
        requires
            old(self).consumed() + size <= usize::MAX,
        ensures
            old(self).contents().len() < size ==> {
                &&& r matches Err(e) && e.message_text() == "Not enough data in buffer"@
                &&& *final(self) == *old(self)
            },
            old(self).contents().len() >= size ==> {
                &&& r matches Ok(v) && v@ == old(self).contents().subrange(0, size as int)
                &&& final(self).contents() == old(self).contents().subrange(
                    size as int,
                    old(self).contents().len() as int,
                )
                &&& final(self).consumed() == old(self).consumed() + size
                &&& final(self).received() == old(self).received()
                &&& final(self).limits() == old(self).limits()
            },
    {
        if self.data.len() < size {
            return Err(BufferError::from_message("Not enough data in buffer"));
        }
        let result = crate::bytes_be::copy_range(self.data.as_slice(), 0, size);
        let rest = crate::bytes_be::copy_range(self.data.as_slice(), size, self.data.len());
        self.data = rest;
        self.position = self.position + size;
        Ok(result)
    }

    /// Number of bytes held.
    pub fn size(&self) -> (r: usize)
        ensures
            r == self.contents().len(),
    {
        self.data.len()
    }

    /// Whether no byte is held.
    pub fn is_empty(&self) -> (r: bool)
        ensures
            r == (self.contents().len() == 0),
    {
        self.data.len() == 0
    }

    /// Drop every byte held and reset the read position.
    pub fn clear(&mut self)
        ensures
            final(self).contents() == Seq::<u8>::empty(),
            final(self).consumed() == 0,
            final(self).received() == old(self).received(),
            final(self).limits() == old(self).limits(),
    {
        self.data = Vec::new();
        self.position = 0;
    }

    /// Bytes taken out so far.
    pub fn position(&self) -> (r: usize)
        ensures
            r == self.consumed(),
    {
        self.position
    }

    /// Bytes put in so far.
    pub fn total_bytes(&self) -> (r: usize)
        ensures
            r == self.received(),
    {
        self.total_bytes
    }

    /// Whether the buffer holds its initial target of playing time.
    pub fn has_enough_data(&self) -> (r: bool)
        ensures
            r == (buffered_ms(self.contents().len() as int) >= self.limits().initial_buffer_target),
    {
        self.duration() >= self.config.initial_buffer_target
    }

    /// Playing time of the bytes held, in milliseconds.
    pub fn duration(&self) -> (r: u64)
        ensures
            r == buffered_ms(self.contents().len() as int),
    {
        (self.data.len() / 128) as u64
    }
}

/// What is pushed comes out first, in order: pushing some bytes onto what
/// a buffer holds and popping as many bytes as it held gives back exactly
/// what it held, and leaves exactly the pushed bytes.
pub proof fn lemma_fifo(held: Seq<u8>, pushed: Seq<u8>)
    ensures
        (held + pushed).subrange(0, held.len() as int) == held,
        (held + pushed).subrange(held.len() as int, (held + pushed).len() as int) == pushed,
{
    assert((held + pushed).subrange(0, held.len() as int) =~= held);
    assert((held + pushed).subrange(held.len() as int, (held + pushed).len() as int) =~= pushed);
}

} // verus!
