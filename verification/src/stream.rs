//! The input side of a streaming decompressor: bytes are fed in as they
//! arrive and read out by the decoder, which is told to come back later
//! where there are none yet.

use std::collections::VecDeque;
use vstd::prelude::*;

verus! {

/// The most bytes of a compressed chunk in the framing format: the size of
/// the buffer that one round of decompression fills.
pub const CHUNK_SIZE: usize = 65536;

/// Why nothing could be read.
#[derive(Debug, Clone, Copy, PartialEq, Eq, Structural)]
pub enum ReadError {
    /// There are not enough bytes yet, and more may come.
    WouldBlock,
    /// There are not enough bytes, and no more will come.
    UnexpectedEof,
}

/// The bytes fed in and not yet read, and whether the end of the input was
/// signalled.
pub struct StreamIterator {
    pub eof: bool,
    pub buffer: VecDeque<u8>,
}

/// What a read takes from the buffer: at most `max` bytes from its front.
pub open spec fn read_len(buffer: Seq<u8>, max: nat) -> nat {
    if max < buffer.len() {
        max
    } else {
        buffer.len()
    }
}

impl Default for StreamIterator {
    /// A stream with no bytes, whose end was not signalled.
    fn default() -> (r: Self)
        ensures
            !r.eof,
            r.buffer@ == Seq::<u8>::empty(),
    {
        StreamIterator::new()
    }
}

impl StreamIterator {
    /// A stream with no bytes, whose end was not signalled.
    pub fn new() -> (r: Self)
        ensures
            !r.eof,
            r.buffer@ == Seq::<u8>::empty(),
    {
        StreamIterator { eof: false, buffer: VecDeque::new() }
    }

    /// Takes the bytes that arrived. No bytes signal the end of the input.
    pub fn feed(&mut self, buf: &[u8])
        ensures
            buf@.len() == 0 ==> final(self).eof && final(self).buffer@ == old(self).buffer@,
            buf@.len() > 0 ==> final(self).eof == old(self).eof && final(self).buffer@ == old(
                self,
            ).buffer@ + buf@,
    {
        if buf.len() == 0 {
            self.eof = true;
        } else {
            let mut i: usize = 0;
            while i < buf.len()
                invariant
                    i <= buf.len(),
                    self.eof == old(self).eof,
                    self.buffer@ == old(self).buffer@ + buf@.subrange(0, i as int),
                decreases buf.len() - i,
            {
                self.buffer.push_back(buf[i]);
                assert(self.buffer@ =~= old(self).buffer@ + buf@.subrange(0, i + 1));
                i = i + 1;
            }
            assert(buf@.subrange(0, buf.len() as int) =~= buf@);
        }
    }

    /// Takes `n` bytes from the front of the buffer.
    fn take(&mut self, n: usize) -> (r: Vec<u8>)
        requires
            n <= old(self).buffer@.len(),
        ensures
            r@ == old(self).buffer@.subrange(0, n as int),
            final(self).buffer@ == old(self).buffer@.subrange(
                n as int,
                old(self).buffer@.len() as int,
            ),
            final(self).eof == old(self).eof,
    {
        let mut out: Vec<u8> = Vec::new();
        let mut i: usize = 0;
        while i < n
            invariant
                i <= n <= old(self).buffer@.len(),
                self.eof == old(self).eof,
                out@ == old(self).buffer@.subrange(0, i as int),
                self.buffer@ == old(self).buffer@.subrange(
                    i as int,
                    old(self).buffer@.len() as int,
                ),
            decreases n - i,
        {
            match self.buffer.pop_front() {
                Some(b) => {
                    out.push(b);
                },
                None => {},
            }
            assert(out@ =~= old(self).buffer@.subrange(0, i + 1));
            assert(self.buffer@ =~= old(self).buffer@.subrange(
                i + 1,
                old(self).buffer@.len() as int,
            ));
            i = i + 1;
        }
        out
    }

    /// Reads at most `max` bytes from the front of the buffer. Where
    /// nothing is read and the end of the input was not signalled, the
    /// reader is told to come back.
    pub fn read(&mut self, max: usize) -> (r: Result<Vec<u8>, ReadError>)
        ensures
            final(self).eof == old(self).eof,
            match r {
                Ok(bytes) => {
                    let n = read_len(old(self).buffer@, max as nat);
                    &&& old(self).eof || n > 0
                    &&& bytes@ == old(self).buffer@.subrange(0, n as int)
                    &&& final(self).buffer@ == old(self).buffer@.subrange(
                        n as int,
                        old(self).buffer@.len() as int,
                    )
                },
                Err(e) => {
                    &&& e == ReadError::WouldBlock
                    &&& !old(self).eof
                    &&& read_len(old(self).buffer@, max as nat) == 0
                    &&& final(self).buffer@ == old(self).buffer@
                },
            },
    {
        let len: usize = if max < self.buffer.len() {
            max
        } else {
            self.buffer.len()
        };
        if !self.eof && len == 0 {
            Err(ReadError::WouldBlock)
        } else {
            Ok(self.take(len))
        }
    }

    /// Reads exactly `n` bytes from the front of the buffer, or none: where
    /// there are fewer, the reader is told to come back, or that the input
    /// ended early where its end was signalled.
    pub fn read_exact(&mut self, n: usize) -> (r: Result<Vec<u8>, ReadError>)
        ensures
            final(self).eof == old(self).eof,
            match r {
                Ok(bytes) => {
                    &&& n <= old(self).buffer@.len()
                    &&& bytes@ == old(self).buffer@.subrange(0, n as int)
                    &&& final(self).buffer@ == old(self).buffer@.subrange(
                        n as int,
                        old(self).buffer@.len() as int,
                    )
                },
                Err(e) => {
                    &&& old(self).buffer@.len() < n
                    &&& e == if old(self).eof {
                        ReadError::UnexpectedEof
                    } else {
                        ReadError::WouldBlock
                    }
                    &&& final(self).buffer@ == old(self).buffer@
                },
            },
    {
        if self.buffer.len() < n {
            if self.eof {
                Err(ReadError::UnexpectedEof)
            } else {
                Err(ReadError::WouldBlock)
            }
        } else {
            Ok(self.take(n))
        }
    }
}

} // verus!
