use crate::types::ArchiveError;
use vstd::prelude::*;

verus! {

/// A sequence of bytes with a cursor: the archive as the decoders see it.
///
/// The cursor may stand anywhere, also behind the last byte; a read that
/// needs more bytes than are left fails and moves nothing.
#[derive(Debug)]
pub struct ByteSource {
    /// The bytes of the archive.
    pub data: Vec<u8>,
    /// Index of the next byte to read.
    pub pos: usize,
}

/// `n` bytes can be read from `data` at `pos`.
pub open spec fn available(data: Seq<u8>, pos: usize, n: int) -> bool {
    0 <= n && pos + n <= data.len()
}

impl ByteSource {
    /// Makes a source that reads `data` from its start.
    pub fn new(data: Vec<u8>) -> (r: ByteSource)
        ensures
            r.data == data,
            r.pos == 0,
    {
        ByteSource { data, pos: 0 }
    }

    /// Index of the next byte to read.
    pub fn position(&self) -> (r: usize)
        ensures
            r == self.pos,
    {
        self.pos
    }

    /// Moves the cursor to `pos`.
    pub fn seek(&mut self, pos: usize)
        ensures
            final(self).data == old(self).data,
            final(self).pos == pos,
    {
        self.pos = pos;
    }

    /// Number of bytes between the cursor and the end.
    pub fn remaining(&self) -> (r: usize)
        ensures
            r == if self.pos <= self.data@.len() { self.data@.len() - self.pos } else { 0 },
    {
        if self.pos <= self.data.len() {
            self.data.len() - self.pos
        } else {
            0
        }
    }
}

/// A decoder's result is what its model gives: the same error, or a value
/// with that view and the same position.
pub open spec fn gives<T: View>(
    r: Result<(T, usize), ArchiveError>,
    outcome: Result<(T::V, usize), ArchiveError>,
) -> bool {
    match outcome {
        Ok((v, next)) => r is Ok && r->Ok_0.0@ == v && r->Ok_0.1 == next,
        Err(e) => r is Err && r->Err_0 == e,
    }
}

/// A read from a source gives what the decoder's model gives at the
/// cursor: the same error, with the cursor left alone, or a value with that
/// view, with the cursor behind it. The source keeps its bytes.
pub open spec fn reads_as<T: View>(
    before: ByteSource,
    after: ByteSource,
    r: Result<T, ArchiveError>,
    outcome: Result<(T::V, usize), ArchiveError>,
) -> bool {
    &&& after.data == before.data
    &&& match outcome {
        Ok((v, next)) => r is Ok && r->Ok_0@ == v && after.pos == next,
        Err(e) => r is Err && r->Err_0 == e && after.pos == before.pos,
    }
}

} // verus!
