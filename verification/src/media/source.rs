//! A media source that reads from memory.
use vstd::prelude::*;
use crate::media::interface::{MediaError, MediaFormat, MediaStream};

verus! {

/// Size of the chunks read.
pub const CHUNK_BYTES: usize = 4096;

/// A source reading held bytes in chunks of at most 4 KiB.
#[derive(Debug)]
pub struct MemorySource {
    data: Vec<u8>,
    position: usize,
    stream: MediaStream,
}

impl MemorySource {
    /// The bytes held.
    pub closed spec fn contents(&self) -> Seq<u8> {
        self.data@
    }

    /// Where the next chunk starts.
    pub closed spec fn pos(&self) -> int {
        self.position as int
    }

    /// The description of the stream.
    pub closed spec fn info(&self) -> MediaStream {
        self.stream
    }

    /// A source of `data`, named `memory`, at its start.
    pub fn new(data: Vec<u8>, format: MediaFormat) -> (r: Self)
        ensures
            r.contents() == data@,
            r.pos() == 0,
            r.info().id@ == "memory"@,
            r.info().format == format,
            r.info().duration_ms is None,
            r.info().bitrate is None,
            r.info().codec is None,
    {
        MemorySource {
            data,
            position: 0,
            stream: MediaStream {
                id: String::from_str("memory"),
                format,
                duration_ms: None,
                bitrate: None,
                codec: None,
            },
        }
    }

    /// The next chunk: up to 4 KiB from the position, which moves past it;
    /// an error at the end of the data.
    pub fn next_chunk(&mut self) -> (r: Result<Vec<u8>, MediaError>)
        ensures
            final(self).contents() == old(self).contents(),
            final(self).info() == old(self).info(),
            old(self).pos() >= old(self).contents().len() ==> {
                &&& r matches Err(e) && e.message_text() == "End of data"@
                &&& final(self).pos() == old(self).pos()
            },
            old(self).pos() < old(self).contents().len() ==> {
                let end = if old(self).pos() + CHUNK_BYTES < old(self).contents().len() {
                    old(self).pos() + CHUNK_BYTES
                } else {
                    old(self).contents().len() as int
                };
                &&& r matches Ok(c) && c@ == old(self).contents().subrange(old(self).pos(), end)
                &&& final(self).pos() == end
            },
    {
        let len = self.data.len();
        if self.position >= len {
            return Err(MediaError::from("End of data"));
        }
        let end = if len - self.position > CHUNK_BYTES {
            self.position + CHUNK_BYTES
        } else {
            len
        };
        let chunk = crate::bytes_be::copy_range(self.data.as_slice(), self.position, end);
        self.position = end;
        Ok(chunk)
    }

    /// Move to `position_ms`, one byte per millisecond; an error, and no
    /// move, past the end of the data.
    pub fn seek(&mut self, position_ms: u64) -> (r: Result<(), MediaError>)
        ensures
            final(self).contents() == old(self).contents(),
            final(self).info() == old(self).info(),
            (position_ms as usize) > old(self).contents().len() ==> {
                &&& r matches Err(e) && e.message_text() == "Seek position out of range"@
                &&& final(self).pos() == old(self).pos()
            },
            (position_ms as usize) <= old(self).contents().len() ==> {
                &&& r is Ok
                &&& final(self).pos() == (position_ms as usize) as int
            },
    {
        let pos_bytes = position_ms as usize;
        if pos_bytes > self.data.len() {
            return Err(MediaError::from("Seek position out of range"));
        }
        self.position = pos_bytes;
        Ok(())
    }

    /// The description of the stream.
    pub fn stream_info(&self) -> (r: &MediaStream)
        ensures
            *r == self.info(),
    {
        &self.stream
    }
}

} // verus!
