//! The byte stream and byte sink adapters: the small state machines that
//! turn a raw byte channel into a one-byte-at-a-time producer or
//! consumer. The raw reads, writes and flushes live with the I/O loop,
//! which reports each outcome back here; the machines decide what to do
//! next, so their protocol is verified even though the channel is not.

use vstd::prelude::*;

verus! {

/// The state of the reading side, at the specification level.
pub enum StreamView {
    /// Awaiting a fresh bulk read.
    Reading,
    /// Handing out `buf` one byte at a time; `pos` is the next byte.
    Draining { buf: Seq<u8>, pos: int },
}

/// The reading side's state, as stored.
enum ReadMode {
    Reading,
    Draining { buf: Vec<u8>, pos: usize },
}

/// Wraps a raw readable channel into a one-byte-at-a-time producer:
/// bulk reads land in a buffer, which is then drained byte by byte.
pub struct ByteStream {
    mode: ReadMode,
}

impl View for ByteStream {
    type V = StreamView;

    closed spec fn view(&self) -> StreamView {
        match self.mode {
            ReadMode::Reading => StreamView::Reading,
            ReadMode::Draining { buf, pos } => StreamView::Draining {
                buf: buf@,
                pos: pos as int,
            },
        }
    }
}

impl ByteStream {
    /// A fresh adapter, awaiting its first read.
    pub fn new() -> (s: ByteStream)
        ensures
            s@ == StreamView::Reading,
    {
        ByteStream { mode: ReadMode::Reading }
    }

    /// Hands out the next buffered byte, if one is buffered: while
    /// draining, the byte at `pos` comes out and `pos` advances; a
    /// drained-out buffer flips the state back to reading and yields
    /// nothing, telling the caller to attempt a fresh bulk read.
    pub fn try_drain(&mut self) -> (r: Option<u8>)
        ensures
            match old(self)@ {
                StreamView::Reading => r is None && final(self)@ == old(self)@,
                StreamView::Draining { buf, pos } => if 0 <= pos < buf.len() {
                    r == Some(buf[pos]) && final(self)@ == (StreamView::Draining {
                        buf,
                        pos: pos + 1,
                    })
                } else {
                    r is None && final(self)@ == StreamView::Reading
                },
            },
    {
        let mut mode = ReadMode::Reading;
        core::mem::swap(&mut self.mode, &mut mode);
        match mode {
            ReadMode::Reading => None,
            ReadMode::Draining { buf, pos } => {
                if pos < buf.len() {
                    let byte = buf[pos];
                    self.mode = ReadMode::Draining { buf, pos: pos + 1 };
                    Some(byte)
                } else {
                    None
                }
            },
        }
    }

    /// Accepts the buffer a completed bulk read produced (the caller
    /// signals end-of-stream itself on a zero-length read, so the buffer
    /// is nonempty) and hands out its first byte at once.
    pub fn accept_buffer(&mut self, data: Vec<u8>) -> (r: u8)
        requires
            old(self)@ == StreamView::Reading,
            data@.len() > 0,
        ensures
            r == data@[0],
            final(self)@ == (StreamView::Draining { buf: data@, pos: 1int }),
    {
        self.mode = ReadMode::Draining { buf: data, pos: 0 };
        let drained = self.try_drain();
        match drained {
            Some(byte) => byte,
            None => 0,
        }
    }
}

/// The state of the writing side: a written byte is not durable until
/// flushed, so every accepted write is followed by a flush.
#[derive(Debug, Clone, Copy, PartialEq, Eq, Structural)]
pub enum WriteMode {
    /// Clear to write the next byte.
    Writing,
    /// A flush of the last written byte is still pending.
    Flushing,
}

/// Wraps a raw writable channel into a one-byte-at-a-time consumer that
/// flushes after every byte.
pub struct ByteSink {
    mode: WriteMode,
}

impl View for ByteSink {
    type V = WriteMode;

    closed spec fn view(&self) -> WriteMode {
        self.mode
    }
}

impl ByteSink {
    /// A fresh adapter, clear to write.
    pub fn new() -> (s: ByteSink)
        ensures
            s@ == WriteMode::Writing,
    {
        ByteSink { mode: WriteMode::Writing }
    }

    /// Whether a byte may be written now; while a flush is pending the
    /// caller must report backpressure and retry later.
    pub fn can_write(&self) -> (r: bool)
        ensures
            r == (self@ == WriteMode::Writing),
    {
        match self.mode {
            WriteMode::Writing => true,
            WriteMode::Flushing => false,
        }
    }

    /// Resolves a flush attempt: a completed flush makes the sink clear
    /// to write again, a still-pending one leaves it flushing. With no
    /// flush pending there is nothing to resolve. Returns whether the
    /// sink is clear to receive the next byte.
    pub fn note_flush_outcome(&mut self, completed: bool) -> (ready: bool)
        ensures
            old(self)@ == WriteMode::Writing ==> ready && final(self)@ == WriteMode::Writing,
            old(self)@ == WriteMode::Flushing ==> ready == completed && final(self)@ == (
            if completed {
                WriteMode::Writing
            } else {
                WriteMode::Flushing
            }),
    {
        match self.mode {
            WriteMode::Writing => true,
            WriteMode::Flushing => {
                if completed {
                    self.mode = WriteMode::Writing;
                    true
                } else {
                    false
                }
            },
        }
    }

    /// Records that the channel accepted a one-byte write: the byte is
    /// not durable until flushed, so a flush is now pending.
    pub fn note_write_accepted(&mut self)
        requires
            old(self)@ == WriteMode::Writing,
        ensures
            final(self)@ == WriteMode::Flushing,
    {
        self.mode = WriteMode::Flushing;
    }
}

} // verus!
