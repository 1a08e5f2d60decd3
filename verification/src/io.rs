use crate::codec::{
    byte_at, byte_at_spec, int_at, int_at_spec, number_at, number_at_spec, offset_at,
    offset_at_spec, string_at, string_at_spec,
};
use crate::source::{available, ByteSource};
use crate::types::{ArchiveError, BlockType, DecodeError, Field, Offset, Oid, block_type_of};
use vstd::prelude::*;
use vstd::slice::slice_subrange;
use vstd::string::StringExecFns;

verus! {

/// The widths that an archive stores its integers and offsets with.
///
/// Both are found in the header of the archive. A width of zero means that
/// the width is not known yet: nothing that depends on it can be read.
#[derive(Clone, Copy, Debug, PartialEq, Eq, Structural)]
pub struct ReadConfig {
    /// Number of magnitude bytes of an integer.
    pub int_size: usize,
    /// Number of magnitude bytes of an offset.
    pub offset_size: usize,
}

impl Default for ReadConfig {
    fn default() -> (r: ReadConfig)
        ensures
            r.int_size == 0,
            r.offset_size == 0,
    {
        ReadConfig::new()
    }
}

/// A read of a value from a source: the source keeps its bytes; where
/// `outcome` is a value and a position, the read gives that value and the
/// cursor stands at that position; where it is an error, the read fails with
/// it and the cursor stays.
pub open spec fn reads<T>(
    before: ByteSource,
    after: ByteSource,
    r: Result<T, DecodeError>,
    outcome: Result<(T, usize), DecodeError>,
) -> bool {
    &&& after.data == before.data
    &&& match outcome {
        Ok((v, next)) => r == Ok::<T, DecodeError>(v) && after.pos == next,
        Err(e) => r == Err::<T, DecodeError>(e) && after.pos == before.pos,
    }
}

/// A read of a string from a source, as `reads` for the characters of the
/// string.
pub open spec fn reads_string(
    before: ByteSource,
    after: ByteSource,
    r: Result<String, DecodeError>,
    outcome: Result<(Seq<char>, usize), DecodeError>,
) -> bool {
    &&& after.data == before.data
    &&& match outcome {
        Ok((chars, next)) => r is Ok && r->Ok_0@ == chars && after.pos == next,
        Err(e) => r == Err::<String, DecodeError>(e) && after.pos == before.pos,
    }
}

/// What a boolean stored as an integer reads as.
pub open spec fn int_bool_at_spec(data: Seq<u8>, pos: usize, int_size: usize) -> Result<
    (bool, usize),
    DecodeError,
> {
    match int_at_spec(data, pos, int_size) {
        Err(e) => Err(e),
        Ok((v, next)) => Ok((v != 0, next)),
    }
}

/// What a boolean stored as a string reads as: true for the text `true` and
/// false for any other text.
pub open spec fn string_bool_at_spec(data: Seq<u8>, pos: usize, int_size: usize) -> Result<
    (bool, usize),
    DecodeError,
> {
    match string_at_spec(data, pos, int_size) {
        Err(e) => Err(e),
        Ok((chars, next)) => Ok((chars == "true"@, next)),
    }
}

/// Decodes a boolean stored as an integer at `pos`.
pub fn int_bool_at(data: &[u8], pos: usize, int_size: usize) -> (r: Result<
    (bool, usize),
    DecodeError,
>)
    ensures
        r == int_bool_at_spec(data@, pos, int_size),
{
    match int_at(data, pos, int_size) {
        Err(e) => Err(e),
        Ok((v, next)) => Ok((v != 0, next)),
    }
}

/// Decodes a boolean stored as a string at `pos`.
pub fn string_bool_at(data: &[u8], pos: usize, int_size: usize) -> (r: Result<
    (bool, usize),
    DecodeError,
>)
    ensures
        r == string_bool_at_spec(data@, pos, int_size),
{
    match string_at(data, pos, int_size) {
        Err(e) => Err(e),
        Ok((s, next)) => {
            let yes = String::from_str("true");
            Ok((s == yes, next))
        },
    }
}

/// A boolean cannot be decoded while the width of integers is zero,
/// whether it is stored as an integer or as a string.
pub proof fn unset_width_rejects_booleans(data: Seq<u8>, pos: usize)
    ensures
        int_bool_at_spec(data, pos, 0) == Err::<(bool, usize), DecodeError>(
            DecodeError::ConfigUnset,
        ),
        string_bool_at_spec(data, pos, 0) == Err::<(bool, usize), DecodeError>(
            DecodeError::ConfigUnset,
        ),
{
}

/// Reads one integer with a magnitude of `int_size` bytes.
pub fn read_int(f: &mut ByteSource, int_size: usize) -> (r: Result<i64, DecodeError>)
    ensures
        reads(*old(f), *final(f), r, int_at_spec(old(f).data@, old(f).pos, int_size)),
{
    match int_at(f.data.as_slice(), f.pos, int_size) {
        Err(e) => Err(e),
        Ok((v, next)) => {
            f.pos = next;
            Ok(v)
        },
    }
}

impl ReadConfig {
    /// A configuration in which no width is known yet.
    pub fn new() -> (r: ReadConfig)
        ensures
            r.int_size == 0,
            r.offset_size == 0,
    {
        ReadConfig { int_size: 0, offset_size: 0 }
    }

    /// Reads one byte. This needs no width.
    pub fn read_byte(&self, f: &mut ByteSource) -> (r: Result<u8, DecodeError>)
        ensures
            reads(*old(f), *final(f), r, byte_at_spec(old(f).data@, old(f).pos)),
    {
        match byte_at(f.data.as_slice(), f.pos) {
            Err(e) => Err(e),
            Ok((v, next)) => {
                f.pos = next;
                Ok(v)
            },
        }
    }

    /// Reads one integer: a sign byte and `int_size` magnitude bytes.
    pub fn read_int(&self, f: &mut ByteSource) -> (r: Result<i64, DecodeError>)
        ensures
            reads(*old(f), *final(f), r, int_at_spec(old(f).data@, old(f).pos, self.int_size)),
    {
        read_int(f, self.int_size)
    }

    /// Reads one string: an integer length and that many bytes of UTF-8. The
    /// length -1 reads as the empty string and takes no further byte.
    pub fn read_string(&self, f: &mut ByteSource) -> (r: Result<String, DecodeError>)
        ensures
            reads_string(
                *old(f),
                *final(f),
                r,
                string_at_spec(old(f).data@, old(f).pos, self.int_size),
            ),
    {
        match string_at(f.data.as_slice(), f.pos, self.int_size) {
            Err(e) => Err(e),
            Ok((s, next)) => {
                f.pos = next;
                Ok(s)
            },
        }
    }

    /// Reads a boolean stored as an integer: true unless the integer is zero.
    pub fn read_int_bool(&self, f: &mut ByteSource) -> (r: Result<bool, DecodeError>)
        ensures
            reads(
                *old(f),
                *final(f),
                r,
                int_bool_at_spec(old(f).data@, old(f).pos, self.int_size),
            ),
    {
        match int_bool_at(f.data.as_slice(), f.pos, self.int_size) {
            Err(e) => Err(e),
            Ok((v, next)) => {
                f.pos = next;
                Ok(v)
            },
        }
    }

    /// Reads a boolean stored as a string: true for the text `true` alone.
    pub fn read_string_bool(&self, f: &mut ByteSource) -> (r: Result<bool, DecodeError>)
        ensures
            reads(
                *old(f),
                *final(f),
                r,
                string_bool_at_spec(old(f).data@, old(f).pos, self.int_size),
            ),
    {
        match string_bool_at(f.data.as_slice(), f.pos, self.int_size) {
            Err(e) => Err(e),
            Ok((v, next)) => {
                f.pos = next;
                Ok(v)
            },
        }
    }

    /// Reads an object identifier, stored as a string that holds a decimal
    /// number.
    pub fn read_oid(&self, f: &mut ByteSource) -> (r: Result<Oid, DecodeError>)
        ensures
            reads(
                *old(f),
                *final(f),
                r,
                number_at_spec(old(f).data@, old(f).pos, self.int_size, u64::MAX),
            ),
    {
        match number_at(f.data.as_slice(), f.pos, self.int_size, u64::MAX) {
            Err(e) => Err(e),
            Ok((v, next)) => {
                f.pos = next;
                Ok(v)
            },
        }
    }

    /// Reads an offset: a tag byte and `offset_size` magnitude bytes, which
    /// are taken whatever the tag is.
    pub fn read_offset(&self, f: &mut ByteSource) -> (r: Result<Offset, DecodeError>)
        ensures
            reads(
                *old(f),
                *final(f),
                r,
                offset_at_spec(old(f).data@, old(f).pos, self.offset_size),
            ),
    {
        match offset_at(f.data.as_slice(), f.pos, self.offset_size) {
            Err(e) => Err(e),
            Ok((v, next)) => {
                f.pos = next;
                Ok(v)
            },
        }
    }
}

/// State of the decoder of one data block.
///
/// A block is a sequence of chunks, each an integer length and that many
/// bytes; a chunk of length zero ends the block. The reader counts the bytes
/// that are left of the chunk it is in and notes when the block has ended.
/// The source is handed to each read, with its cursor where the last read of
/// this reader left it.
#[derive(Clone, Copy, Debug, PartialEq, Eq, Structural)]
pub struct DataReader {
    /// Number of magnitude bytes of a chunk length.
    pub int_size: usize,
    /// Bytes that are left of the current chunk.
    pub remaining: u64,
    /// The block has ended.
    pub eof: bool,
}

/// `prefix` put before the bytes of an outcome.
pub open spec fn prepend(prefix: Seq<u8>, outcome: Result<(Seq<u8>, usize), ArchiveError>) -> Result<
    (Seq<u8>, usize),
    ArchiveError,
> {
    match outcome {
        Ok((rest, end)) => Ok((prefix + rest, end)),
        Err(e) => Err(e),
    }
}

/// The bytes of the chunks of `data` from the chunk boundary `pos` up to the
/// end of the block, and the position behind the block.
pub open spec fn chunks_at(data: Seq<u8>, pos: usize, int_size: usize) -> Result<
    (Seq<u8>, usize),
    ArchiveError,
>
    decreases data.len() - pos,
    when data.len() <= usize::MAX
{
    match int_at_spec(data, pos, int_size) {
        Err(e) => Err(ArchiveError::InvalidData(Field::ChunkLength, e)),
        Ok((len, body)) => {
            if len == 0 {
                Ok((Seq::empty(), body))
            } else if len < 0 {
                Err(ArchiveError::InvalidData(Field::ChunkLength, DecodeError::InvalidLength))
            } else if !available(data, body, len as int) {
                Err(ArchiveError::InvalidData(Field::ChunkData, DecodeError::Truncated))
            } else {
                prepend(
                    data.subrange(body as int, body + len),
                    chunks_at(data, (body + len) as usize, int_size),
                )
            }
        },
    }
}

impl DataReader {
    /// A reader at the first chunk of a block.
    pub fn new(int_size: usize) -> (r: DataReader)
        ensures
            r == (DataReader { int_size, remaining: 0, eof: false }),
    {
        DataReader { int_size, remaining: 0, eof: false }
    }

    /// A reader of a block that has no data.
    pub fn empty() -> (r: DataReader)
        ensures
            r == (DataReader { int_size: 0, remaining: 0, eof: true }),
    {
        DataReader { int_size: 0, remaining: 0, eof: true }
    }

    /// One read of at most `max` bytes with the cursor at `pos`: the reader
    /// after it, the position after it, and the bytes that it gives.
    ///
    /// At the end of a chunk the next chunk length is decoded first. A read
    /// gives bytes of one chunk only: as many as are left of it, but at most
    /// `max`. Once the block has ended, every read gives no bytes.
    pub open spec fn read_spec(self, data: Seq<u8>, pos: usize, max: usize) -> Result<
        (DataReader, usize, Seq<u8>),
        ArchiveError,
    > {
        if self.eof {
            Ok((self, pos, Seq::empty()))
        } else if self.remaining == 0 {
            match int_at_spec(data, pos, self.int_size) {
                Err(e) => Err(ArchiveError::InvalidData(Field::ChunkLength, e)),
                Ok((len, body)) => {
                    if len == 0 {
                        Ok((DataReader { eof: true, ..self }, body, Seq::empty()))
                    } else if len < 0 {
                        Err(
                            ArchiveError::InvalidData(
                                Field::ChunkLength,
                                DecodeError::InvalidLength,
                            ),
                        )
                    } else {
                        self.span_spec(data, body, len as u64, max)
                    }
                },
            }
        } else {
            self.span_spec(data, pos, self.remaining, max)
        }
    }

    /// The part of `read_spec` that takes bytes of a chunk of which
    /// `remaining` bytes are left.
    pub open spec fn span_spec(self, data: Seq<u8>, pos: usize, remaining: u64, max: usize) -> Result<
        (DataReader, usize, Seq<u8>),
        ArchiveError,
    > {
        let n = if remaining <= max {
            remaining as int
        } else {
            max as int
        };
        if !available(data, pos, n) {
            Err(ArchiveError::InvalidData(Field::ChunkData, DecodeError::Truncated))
        } else {
            Ok(
                (
                    DataReader { remaining: (remaining - n) as u64, ..self },
                    (pos + n) as usize,
                    data.subrange(pos as int, pos + n),
                ),
            )
        }
    }

    /// All bytes that are left of the block with the cursor at `pos`, and
    /// the position behind the block.
    pub open spec fn rest_spec(self, data: Seq<u8>, pos: usize) -> Result<
        (Seq<u8>, usize),
        ArchiveError,
    > {
        if self.eof {
            Ok((Seq::empty(), pos))
        } else if !available(data, pos, self.remaining as int) {
            Err(ArchiveError::InvalidData(Field::ChunkData, DecodeError::Truncated))
        } else {
            prepend(
                data.subrange(pos as int, pos + self.remaining),
                chunks_at(data, (pos + self.remaining) as usize, self.int_size),
            )
        }
    }

    /// Reads at most `max` bytes of the block. A failed read changes
    /// neither the reader nor the source.
    pub fn read(&mut self, f: &mut ByteSource, max: usize) -> (r: Result<Vec<u8>, ArchiveError>)
        ensures
            final(f).data == old(f).data,
            match old(self).read_spec(old(f).data@, old(f).pos, max) {
                Ok((reader, next, bytes)) => r is Ok && r->Ok_0@ == bytes && *final(self) == reader
                    && final(f).pos == next,
                Err(e) => r == Err::<Vec<u8>, ArchiveError>(e) && *final(self) == *old(self)
                    && final(f).pos == old(f).pos,
            },
    {
        if self.eof {
            return Ok(Vec::new());
        }
        let data = f.data.as_slice();
        let mut pos: usize = f.pos;
        let mut remaining: u64 = self.remaining;
        if remaining == 0 {
            match int_at(data, pos, self.int_size) {
                Err(e) => {
                    return Err(ArchiveError::InvalidData(Field::ChunkLength, e));
                },
                Ok((len, body)) => {
                    if len == 0 {
                        self.eof = true;
                        f.pos = body;
                        return Ok(Vec::new());
                    }
                    if len < 0 {
                        return Err(
                            ArchiveError::InvalidData(
                                Field::ChunkLength,
                                DecodeError::InvalidLength,
                            ),
                        );
                    }
                    remaining = len as u64;
                    pos = body;
                },
            }
        }
        let n: usize = if remaining <= max as u64 {
            remaining as usize
        } else {
            max
        };
        if pos > data.len() || n > data.len() - pos {
            return Err(ArchiveError::InvalidData(Field::ChunkData, DecodeError::Truncated));
        }
        let mut out: Vec<u8> = Vec::new();
        out.extend_from_slice(slice_subrange(data, pos, pos + n));
        self.remaining = remaining - n as u64;
        f.pos = pos + n;
        Ok(out)
    }

    /// Reads all that is left of the block. A failed read changes neither
    /// the reader nor the source; after any other the block has ended.
    pub fn read_to_end(&mut self, f: &mut ByteSource) -> (r: Result<Vec<u8>, ArchiveError>)
        ensures
            final(f).data == old(f).data,
            match old(self).rest_spec(old(f).data@, old(f).pos) {
                Ok((bytes, end)) => r is Ok && r->Ok_0@ == bytes && final(f).pos == end
                    && *final(self) == (DataReader { remaining: 0, eof: true, ..*old(self) }),
                Err(e) => r == Err::<Vec<u8>, ArchiveError>(e) && *final(self) == *old(self)
                    && final(f).pos == old(f).pos,
            },
    {
        let mut out: Vec<u8> = Vec::new();
        if self.eof {
            self.remaining = 0;
            return Ok(out);
        }
        let data = f.data.as_slice();
        let mut pos: usize = f.pos;
        if pos > data.len() || self.remaining > (data.len() - pos) as u64 {
            return Err(ArchiveError::InvalidData(Field::ChunkData, DecodeError::Truncated));
        }
        let first: usize = self.remaining as usize;
        out.extend_from_slice(slice_subrange(data, pos, pos + first));
        pos = pos + first;
        let int_size: usize = self.int_size;
        let ghost goal = self.rest_spec(data@, f.pos);
        assert(out@ =~= data@.subrange(f.pos as int, f.pos + first));
        loop
            invariant
                pos <= data@.len() <= usize::MAX,
                *f == *old(f),
                *self == *old(self),
                data@ == f.data@,
                goal == self.rest_spec(data@, f.pos),
                goal == prepend(out@, chunks_at(data@, pos, int_size)),
            decreases data@.len() - pos,
        {
            match int_at(data, pos, int_size) {
                Err(e) => {
                    return Err(ArchiveError::InvalidData(Field::ChunkLength, e));
                },
                Ok((len, body)) => {
                    if len == 0 {
                        assert(out@ + Seq::<u8>::empty() =~= out@);
                        self.remaining = 0;
                        self.eof = true;
                        f.pos = body;
                        return Ok(out);
                    }
                    if len < 0 {
                        return Err(
                            ArchiveError::InvalidData(
                                Field::ChunkLength,
                                DecodeError::InvalidLength,
                            ),
                        );
                    }
                    if len as u64 > (data.len() - body) as u64 {
                        return Err(
                            ArchiveError::InvalidData(Field::ChunkData, DecodeError::Truncated),
                        );
                    }
                    let n: usize = len as usize;
                    let ghost before = out@;
                    out.extend_from_slice(slice_subrange(data, body, body + n));
                    proof {
                        let chunk = data@.subrange(body as int, body + n);
                        let rest = chunks_at(data@, (body + n) as usize, int_size);
                        assert(chunks_at(data@, pos, int_size) == prepend(chunk, rest));
                        assert(out@ == before + chunk);
                        if rest is Ok {
                            assert((before + chunk) + rest->Ok_0.0 =~= before + (chunk
                                + rest->Ok_0.0));
                        }
                        assert(prepend(before, prepend(chunk, rest)) == prepend(out@, rest));
                    }
                    pos = body + n;
                },
            }
        }
    }
}

/// What is left of a block is what one read gives, followed by what is
/// left after that read: reading piece by piece gives the same bytes as
/// reading all at once, whatever the sizes of the pieces are.
pub proof fn read_then_rest(reader: DataReader, data: Seq<u8>, pos: usize, max: usize)
    requires
        data.len() <= usize::MAX,
        reader.read_spec(data, pos, max) is Ok,
    ensures
        ({
            let (after, next, bytes) = reader.read_spec(data, pos, max)->Ok_0;
            reader.rest_spec(data, pos) == prepend(bytes, after.rest_spec(data, next))
        }),
{
    let (after, next, bytes) = reader.read_spec(data, pos, max)->Ok_0;
    let later = after.rest_spec(data, next);
    if reader.eof {
        assert(Seq::<u8>::empty() + Seq::<u8>::empty() =~= Seq::<u8>::empty());
    } else if reader.remaining == 0 {
        let (len, body) = int_at_spec(data, pos, reader.int_size)->Ok_0;
        assert(data.subrange(pos as int, pos + 0) =~= Seq::<u8>::empty());
        let all = chunks_at(data, pos, reader.int_size);
        if all is Ok {
            assert(Seq::<u8>::empty() + all->Ok_0.0 =~= all->Ok_0.0);
        }
        assert(reader.rest_spec(data, pos) == all);
        if len == 0 {
            assert(Seq::<u8>::empty() + Seq::<u8>::empty() =~= Seq::<u8>::empty());
        } else {
            split_span(data, body, len as u64, bytes.len() as int, reader.int_size);
        }
    } else {
        split_span(data, pos, reader.remaining, bytes.len() as int, reader.int_size);
    }
}

/// The bytes that are left of a chunk and all after them are the first `n`
/// of them, followed by the others and all after them.
proof fn split_span(data: Seq<u8>, pos: usize, remaining: u64, n: int, int_size: usize)
    requires
        data.len() <= usize::MAX,
        0 <= n <= remaining,
        available(data, pos, n),
    ensures
        ({
            let whole = if !available(data, pos, remaining as int) {
                Err(ArchiveError::InvalidData(Field::ChunkData, DecodeError::Truncated))
            } else {
                prepend(
                    data.subrange(pos as int, pos + remaining),
                    chunks_at(data, (pos + remaining) as usize, int_size),
                )
            };
            let tail = if !available(data, (pos + n) as usize, remaining - n) {
                Err(ArchiveError::InvalidData(Field::ChunkData, DecodeError::Truncated))
            } else {
                prepend(
                    data.subrange(pos + n, pos + remaining),
                    chunks_at(data, (pos + remaining) as usize, int_size),
                )
            };
            whole == prepend(data.subrange(pos as int, pos + n), tail)
        }),
{
    if available(data, pos, remaining as int) {
        let behind = chunks_at(data, (pos + remaining) as usize, int_size);
        if behind is Ok {
            assert(data.subrange(pos as int, pos + remaining) + behind->Ok_0.0 =~= data.subrange(
                pos as int,
                pos + n,
            ) + (data.subrange(pos + n, pos + remaining) + behind->Ok_0.0));
        }
    }
}

/// Opening an entry without data gives a reader that has ended and leaves
/// the cursor where it was.
pub proof fn no_data_opens_ended(data: Seq<u8>, pos: usize, int_size: usize)
    ensures
        open_spec(data, pos, int_size, Offset::NoData) == Ok::<(DataReader, usize), ArchiveError>(
            (DataReader { int_size: 0, remaining: 0, eof: true }, pos),
        ),
{
}

/// Once a block has ended, every read gives no bytes, fails on nothing,
/// and moves neither the reader nor the cursor.
pub proof fn ended_reader_gives_nothing(reader: DataReader, data: Seq<u8>, pos: usize, max: usize)
    requires
        reader.eof,
    ensures
        reader.read_spec(data, pos, max) == Ok::<(DataReader, usize, Seq<u8>), ArchiveError>(
            (reader, pos, Seq::empty()),
        ),
        reader.rest_spec(data, pos) == Ok::<(Seq<u8>, usize), ArchiveError>((Seq::empty(), pos)),
{
}

/// An entry whose position is unknown or was never set cannot be opened,
/// whatever the archive holds.
pub proof fn unset_position_has_no_data(data: Seq<u8>, pos: usize, int_size: usize)
    ensures
        open_spec(data, pos, int_size, Offset::PosNotSet) == Err::<
            (DataReader, usize),
            ArchiveError,
        >(ArchiveError::NoDataPresent),
        open_spec(data, pos, int_size, Offset::Unknown) == Err::<(DataReader, usize), ArchiveError>(
            ArchiveError::NoDataPresent,
        ),
{
}

/// A block with the tag of a large object is refused once its tag and its
/// id are decoded, whatever follows them.
pub proof fn blob_is_refused(data: Seq<u8>, pos: usize, int_size: usize, at: u64)
    requires
        at < data.len() <= usize::MAX,
        data[at as int] == 3,
        int_at_spec(data, (at + 1) as usize, int_size) is Ok,
    ensures
        open_spec(data, pos, int_size, Offset::PosSet(at)) == Err::<
            (DataReader, usize),
            ArchiveError,
        >(ArchiveError::BlobNotSupported),
{
}

/// The block of `data` at `pos`: a tag byte, which must stand for table
/// data, and an integer, the id of the entry, which is not looked at. Gives
/// the reader of the block and the position of its first chunk.
pub open spec fn block_at_spec(data: Seq<u8>, pos: usize, int_size: usize) -> Result<
    (DataReader, usize),
    ArchiveError,
> {
    match byte_at_spec(data, pos) {
        Err(e) => Err(ArchiveError::InvalidData(Field::BlockType, e)),
        Ok((tag, after_tag)) => match block_type_of(tag) {
            None => Err(ArchiveError::InvalidBlockType),
            Some(kind) => match int_at_spec(data, after_tag, int_size) {
                Err(e) => Err(ArchiveError::InvalidData(Field::BlockId, e)),
                Ok((_, first_chunk)) => match kind {
                    BlockType::Blob => Err(ArchiveError::BlobNotSupported),
                    BlockType::Data => Ok(
                        (DataReader { int_size, remaining: 0, eof: false }, first_chunk),
                    ),
                },
            },
        },
    }
}

/// What opening the data at `offset` gives with the cursor at `pos`: the
/// reader and the position of the cursor.
///
/// An entry without data gives a reader that has ended and leaves the cursor
/// alone. A position that is unknown or not set cannot be opened. A position
/// that is set is where the block is decoded.
pub open spec fn open_spec(data: Seq<u8>, pos: usize, int_size: usize, offset: Offset) -> Result<
    (DataReader, usize),
    ArchiveError,
> {
    match offset {
        Offset::NoData => Ok((DataReader { int_size: 0, remaining: 0, eof: true }, pos)),
        Offset::PosNotSet => Err(ArchiveError::NoDataPresent),
        Offset::Unknown => Err(ArchiveError::NoDataPresent),
        Offset::PosSet(at) => {
            if at >= data.len() {
                Err(ArchiveError::InvalidData(Field::BlockType, DecodeError::Truncated))
            } else {
                block_at_spec(data, at as usize, int_size)
            }
        },
    }
}

impl ReadConfig {
    /// Opens the data block that an offset points to. On success the cursor
    /// stands at the first chunk of the block; a failure, and an entry
    /// without data, leave the cursor where it was.
    pub fn read_data(&self, f: &mut ByteSource, o: Offset) -> (r: Result<DataReader, ArchiveError>)
        ensures
            final(f).data == old(f).data,
            match open_spec(old(f).data@, old(f).pos, self.int_size, o) {
                Ok((reader, next)) => r == Ok::<DataReader, ArchiveError>(reader) && final(f).pos
                    == next,
                Err(e) => r == Err::<DataReader, ArchiveError>(e) && final(f).pos == old(f).pos,
            },
    {
        match o {
            Offset::NoData => Ok(DataReader::empty()),
            Offset::PosNotSet => Err(ArchiveError::NoDataPresent),
            Offset::Unknown => Err(ArchiveError::NoDataPresent),
            Offset::PosSet(at) => {
                let data = f.data.as_slice();
                if at >= data.len() as u64 {
                    return Err(
                        ArchiveError::InvalidData(Field::BlockType, DecodeError::Truncated),
                    );
                }
                let (tag, after_tag) = match byte_at(data, at as usize) {
                    Err(e) => {
                        return Err(ArchiveError::InvalidData(Field::BlockType, e));
                    },
                    Ok(v) => v,
                };
                let kind = match BlockType::try_from(tag) {
                    Err(_) => {
                        return Err(ArchiveError::InvalidBlockType);
                    },
                    Ok(k) => k,
                };
                let first_chunk = match int_at(data, after_tag, self.int_size) {
                    Err(e) => {
                        return Err(ArchiveError::InvalidData(Field::BlockId, e));
                    },
                    Ok((_, next)) => next,
                };
                match kind {
                    BlockType::Blob => Err(ArchiveError::BlobNotSupported),
                    BlockType::Data => {
                        f.pos = first_chunk;
                        Ok(DataReader::new(self.int_size))
                    },
                }
            },
        }
    }
}

} // verus!
