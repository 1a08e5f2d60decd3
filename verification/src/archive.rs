use crate::header::{header_at, header_at_spec, Timestamp};
use crate::io::{open_spec, ReadConfig};
use crate::source::{reads_as, ByteSource};
use crate::toc::{entry_views, toc_at, toc_at_spec, TocEntry, TocEntryView};
use crate::types::{ArchiveError, CompressionMethod, Offset, Section, Version};
use flate2::read::{GzDecoder, ZlibDecoder};
use vstd::prelude::*;
use vstd::utf8::{encode_utf8, encode_utf8_decode_utf8};

verus! {

/// An object providing access to a PostgreSQL archive.
///
/// An `Archive` is made by `Archive::parse`, which decodes the header and
/// the table of contents, and is not changed afterwards.
#[derive(Debug, PartialEq)]
pub struct Archive {
    /// Archive format version.
    ///
    /// This is generally aligned with the PostgreSQL version, but only
    /// updated when the file format changes.
    pub version: Version,
    /// Compression method used for data and blobs.
    pub compression_method: CompressionMethod,
    /// Date when the archive was created.
    pub create_date: Timestamp,
    /// Name of the database that was dumped.
    pub database_name: String,
    /// Version information for the PostgreSQL server that pg_dump was
    /// accessing, such as `14.6 (Homebrew)`.
    pub server_version: String,
    /// Version information for the pg_dump command that was used to create
    /// the archive.
    pub pgdump_version: String,
    /// The table of contents for the archive: all entities in the archive,
    /// in the order in which the archive lists them.
    pub toc_entries: Vec<TocEntry>,
    /// The widths that the data blocks of the archive are stored with.
    pub io_config: ReadConfig,
}

/// An archive with its strings as character sequences and its entries as a
/// sequence of their views.
pub struct ArchiveView {
    pub version: Version,
    pub compression_method: CompressionMethod,
    pub create_date: Timestamp,
    pub database_name: Seq<char>,
    pub server_version: Seq<char>,
    pub pgdump_version: Seq<char>,
    pub toc_entries: Seq<TocEntryView>,
    pub io_config: ReadConfig,
}

impl View for Archive {
    type V = ArchiveView;

    open spec fn view(&self) -> ArchiveView {
        ArchiveView {
            version: self.version,
            compression_method: self.compression_method,
            create_date: self.create_date,
            database_name: self.database_name@,
            server_version: self.server_version@,
            pgdump_version: self.pgdump_version@,
            toc_entries: entry_views(self.toc_entries@),
            io_config: self.io_config,
        }
    }
}

/// The archive of `data` at `pos`: the header, then the table of contents,
/// decoded with the widths that the header gives.
pub open spec fn archive_at_spec(data: Seq<u8>, pos: usize) -> Result<
    (ArchiveView, usize),
    ArchiveError,
> {
    match header_at_spec(data, pos) {
        Err(e) => Err(e),
        Ok((header, toc)) => match toc_at_spec(data, toc, header.io_config) {
            Err(e) => Err(e),
            Ok((toc_entries, end)) => Ok(
                (
                    ArchiveView {
                        version: header.version,
                        compression_method: header.compression_method,
                        create_date: header.create_date,
                        database_name: header.database_name,
                        server_version: header.server_version,
                        pgdump_version: header.pgdump_version,
                        toc_entries,
                        io_config: header.io_config,
                    },
                    end,
                ),
            ),
        },
    }
}

/// The bytes that a gzip stream holds, as `flate2` decodes it; `None` where
/// it fails.
pub uninterp spec fn gzip_decoded(raw: Seq<u8>) -> Option<Seq<u8>>;

/// The bytes that a zlib stream holds, as `flate2` decodes it; `None` where
/// it fails.
pub uninterp spec fn zlib_decoded(raw: Seq<u8>) -> Option<Seq<u8>>;

/// Decodes a gzip stream by reading `flate2::read::GzDecoder` to its end.
/// The result is `gzip_decoded` of the bytes given: what the decoder
/// produced, or `None` where it reported an error.
#[verifier::external_body]
fn gunzip(raw: &[u8]) -> (r: Option<Vec<u8>>)
    ensures
        r is Some == gzip_decoded(raw@) is Some,
        r matches Some(bytes) ==> gzip_decoded(raw@) == Some(bytes@),
{
    let mut out = Vec::new();
    match std::io::Read::read_to_end(&mut GzDecoder::new(raw), &mut out) {
        Ok(_) => Some(out),
        Err(_) => None,
    }
}

/// Decodes a zlib stream by reading `flate2::read::ZlibDecoder` to its end.
/// The result is `zlib_decoded` of the bytes given: what the decoder
/// produced, or `None` where it reported an error.
#[verifier::external_body]
fn inflate(raw: &[u8]) -> (r: Option<Vec<u8>>)
    ensures
        r is Some == zlib_decoded(raw@) is Some,
        r matches Some(bytes) ==> zlib_decoded(raw@) == Some(bytes@),
{
    let mut out = Vec::new();
    match std::io::Read::read_to_end(&mut ZlibDecoder::new(raw), &mut out) {
        Ok(_) => Some(out),
        Err(_) => None,
    }
}

/// What a decoder's answer means for the caller: its bytes, or the error
/// for data that is no valid compressed stream.
pub open spec fn decoded_or_error_spec(decoded: Option<Seq<u8>>) -> Result<Seq<u8>, ArchiveError> {
    match decoded {
        Some(bytes) => Ok(bytes),
        None => Err(ArchiveError::InvalidCompressedData),
    }
}

/// Turns a decoder's answer into the result of a read.
pub fn decoded_or_error(decoded: Option<Vec<u8>>) -> (r: Result<Vec<u8>, ArchiveError>)
    ensures
        match decoded {
            Some(bytes) => r == Ok::<Vec<u8>, ArchiveError>(bytes),
            None => r == Err::<Vec<u8>, ArchiveError>(ArchiveError::InvalidCompressedData),
        },
{
    match decoded {
        Some(bytes) => Ok(bytes),
        None => Err(ArchiveError::InvalidCompressedData),
    }
}

/// The data that the raw bytes of a block stand for under a compression
/// method. Uncompressed data is the bytes themselves; gzip data is a gzip
/// stream; data marked `ZSTD` is a zlib stream; LZ4 cannot be decoded.
pub open spec fn decompressed(method: CompressionMethod, raw: Seq<u8>) -> Result<
    Seq<u8>,
    ArchiveError,
> {
    match method {
        CompressionMethod::Uncompressed => Ok(raw),
        CompressionMethod::Gzip(_) => decoded_or_error_spec(gzip_decoded(raw)),
        CompressionMethod::ZSTD => decoded_or_error_spec(zlib_decoded(raw)),
        CompressionMethod::LZ4 => Err(ArchiveError::CompressionMethodNotSupported(method)),
    }
}

/// Decodes the raw bytes of a block under a compression method.
pub fn decompress(method: CompressionMethod, raw: Vec<u8>) -> (r: Result<Vec<u8>, ArchiveError>)
    ensures
        match decompressed(method, raw@) {
            Ok(bytes) => r is Ok && r->Ok_0@ == bytes,
            Err(e) => r is Err && r->Err_0 == e,
        },
{
    match method {
        CompressionMethod::Uncompressed => Ok(raw),
        CompressionMethod::Gzip(_) => decoded_or_error(gunzip(raw.as_slice())),
        CompressionMethod::ZSTD => decoded_or_error(inflate(raw.as_slice())),
        CompressionMethod::LZ4 => Err(ArchiveError::CompressionMethodNotSupported(method)),
    }
}

/// Decides whether two texts hold the same characters.
pub fn same_text(a: &str, b: &str) -> (r: bool)
    ensures
        r == (a@ == b@),
{
    let x = a.as_bytes();
    let y = b.as_bytes();
    proof {
        encode_utf8_decode_utf8(a@);
        encode_utf8_decode_utf8(b@);
    }
    if x.len() != y.len() {
        return false;
    }
    let mut i: usize = 0;
    while i < x.len()
        invariant
            i <= x@.len(),
            x@.len() == y@.len(),
            x@ == encode_utf8(a@),
            y@ == encode_utf8(b@),
            forall|j: int| 0 <= j < i ==> x@[j] == y@[j],
        decreases x@.len() - i,
    {
        if x[i] != y[i] {
            return false;
        }
        i += 1;
    }
    assert(x@ =~= y@);
    true
}

/// The entry is the one that a lookup by section, description and tag asks
/// for.
pub open spec fn entry_matches(
    entry: TocEntryView,
    section: Section,
    desc: Seq<char>,
    tag: Seq<char>,
) -> bool {
    entry.section == section && entry.desc == desc && entry.tag == tag
}

/// `index` is the place of the first entry that a lookup asks for.
pub open spec fn is_first_match(
    entries: Seq<TocEntryView>,
    index: int,
    section: Section,
    desc: Seq<char>,
    tag: Seq<char>,
) -> bool {
    &&& 0 <= index < entries.len()
    &&& entry_matches(entries[index], section, desc, tag)
    &&& forall|j: int| 0 <= j < index ==> !entry_matches(#[trigger] entries[j], section, desc, tag)
}

/// No entry is one that a lookup asks for.
pub open spec fn no_match(
    entries: Seq<TocEntryView>,
    section: Section,
    desc: Seq<char>,
    tag: Seq<char>,
) -> bool {
    forall|j: int| 0 <= j < entries.len() ==> !entry_matches(#[trigger] entries[j], section, desc, tag)
}

/// What `Archive::read_data` gives for the entry with this offset, with the
/// cursor at `pos`: the data of the entry and the position behind its block.
///
/// The block is opened first; then the compression method is looked at;
/// then the chunks of the block are put together and decoded.
pub open spec fn data_at_spec(
    data: Seq<u8>,
    pos: usize,
    cfg: ReadConfig,
    method: CompressionMethod,
    offset: Offset,
) -> Result<(Seq<u8>, usize), ArchiveError> {
    match open_spec(data, pos, cfg.int_size, offset) {
        Err(e) => Err(e),
        Ok((reader, first_chunk)) => {
            if method is LZ4 {
                Err(ArchiveError::CompressionMethodNotSupported(method))
            } else {
                match reader.rest_spec(data, first_chunk) {
                    Err(e) => Err(e),
                    Ok((raw, end)) => match decompressed(method, raw) {
                        Err(e) => Err(e),
                        Ok(bytes) => Ok((bytes, end)),
                    },
                }
            }
        },
    }
}

/// The data of an entry without data is what the compression method makes
/// of no bytes, with the cursor where it was; an entry whose position is
/// unknown or not set has no data, whatever the compression method is.
pub proof fn data_of_entries_without_block(
    data: Seq<u8>,
    pos: usize,
    cfg: ReadConfig,
    method: CompressionMethod,
)
    ensures
        data_at_spec(data, pos, cfg, CompressionMethod::Uncompressed, Offset::NoData) == Ok::<
            (Seq<u8>, usize),
            ArchiveError,
        >((Seq::empty(), pos)),
        !(method is LZ4) ==> data_at_spec(data, pos, cfg, method, Offset::NoData) == (
        match decompressed(method, Seq::empty()) {
            Ok(bytes) => Ok::<(Seq<u8>, usize), ArchiveError>((bytes, pos)),
            Err(e) => Err::<(Seq<u8>, usize), ArchiveError>(e),
        }),
        data_at_spec(data, pos, cfg, method, Offset::PosNotSet) == Err::<
            (Seq<u8>, usize),
            ArchiveError,
        >(ArchiveError::NoDataPresent),
        data_at_spec(data, pos, cfg, method, Offset::Unknown) == Err::<
            (Seq<u8>, usize),
            ArchiveError,
        >(ArchiveError::NoDataPresent),
{
}

impl Archive {
    /// Reads and decodes an archive: its header and its table of contents.
    /// A failure leaves the cursor where it was.
    pub fn parse(f: &mut ByteSource) -> (r: Result<Archive, ArchiveError>)
        ensures
            reads_as(*old(f), *final(f), r, archive_at_spec(old(f).data@, old(f).pos)),
    {
        let data = f.data.as_slice();
        let (header, toc) = match header_at(data, f.pos) {
            Err(e) => {
                return Err(e);
            },
            Ok(v) => v,
        };
        let (toc_entries, end) = match toc_at(data, toc, &header.io_config) {
            Err(e) => {
                return Err(e);
            },
            Ok(v) => v,
        };
        f.pos = end;
        Ok(
            Archive {
                version: header.version,
                compression_method: header.compression_method,
                create_date: header.create_date,
                database_name: header.database_name,
                server_version: header.server_version,
                pgdump_version: header.pgdump_version,
                toc_entries,
                io_config: header.io_config,
            },
        )
    }

    /// Finds the place of the first entry with this section, description
    /// and tag.
    pub fn find_toc_index(&self, section: Section, desc: &str, tag: &str) -> (r: Option<usize>)
        ensures
            match r {
                Some(index) => is_first_match(self@.toc_entries, index as int, section, desc@, tag@),
                None => no_match(self@.toc_entries, section, desc@, tag@),
            },
    {
        let mut i: usize = 0;
        while i < self.toc_entries.len()
            invariant
                i <= self.toc_entries@.len(),
                forall|j: int|
                    0 <= j < i ==> !entry_matches(
                        #[trigger] self@.toc_entries[j],
                        section,
                        desc@,
                        tag@,
                    ),
            decreases self.toc_entries@.len() - i,
        {
            let entry = &self.toc_entries[i];
            if entry.section == section && same_text(entry.desc.as_str(), desc) && same_text(
                entry.tag.as_str(),
                tag,
            ) {
                return Some(i);
            }
            i += 1;
        }
        None
    }

    /// Find a TOC entry by name and section.
    ///
    /// Gives the first entry of the table of contents with this section,
    /// description and tag, or `None` where there is none.
    pub fn find_toc_entry(&self, section: Section, desc: &str, tag: &str) -> (r: Option<&TocEntry>)
        ensures
            match r {
                Some(entry) => exists|index: int|
                    is_first_match(self@.toc_entries, index, section, desc@, tag@)
                        && self.toc_entries@[index] == *entry,
                None => no_match(self@.toc_entries, section, desc@, tag@),
            },
    {
        match self.find_toc_index(section, desc, tag) {
            Some(index) => Some(&self.toc_entries[index]),
            None => None,
        }
    }

    /// Access data for a TOC entry.
    ///
    /// Gives all data of the entry, decompressed. On success the cursor
    /// stands behind the block of the entry, or where it was for an entry
    /// without data; a failure leaves the cursor where it was.
    pub fn read_data(&self, f: &mut ByteSource, entry: &TocEntry) -> (r: Result<
        Vec<u8>,
        ArchiveError,
    >)
        ensures
            final(f).data == old(f).data,
            match data_at_spec(
                old(f).data@,
                old(f).pos,
                self.io_config,
                self.compression_method,
                entry.offset,
            ) {
                Ok((bytes, end)) => r is Ok && r->Ok_0@ == bytes && final(f).pos == end,
                Err(e) => r is Err && r->Err_0 == e && final(f).pos == old(f).pos,
            },
    {
        let start: usize = f.pos;
        let mut reader = match self.io_config.read_data(f, entry.offset) {
            Err(e) => {
                return Err(e);
            },
            Ok(reader) => reader,
        };
        match self.compression_method {
            CompressionMethod::LZ4 => {
                f.pos = start;
                return Err(ArchiveError::CompressionMethodNotSupported(self.compression_method));
            },
            _ => {},
        }
        let raw = match reader.read_to_end(f) {
            Err(e) => {
                f.pos = start;
                return Err(e);
            },
            Ok(raw) => raw,
        };
        match decompress(self.compression_method, raw) {
            Err(e) => {
                f.pos = start;
                Err(e)
            },
            Ok(bytes) => Ok(bytes),
        }
    }
}

} // verus!
