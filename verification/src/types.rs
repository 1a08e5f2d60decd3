use vstd::prelude::*;

verus! {

/// Archive format version: major, minor and patch number, compared in that
/// order.
pub type Version = (u8, u8, u8);

/// Identifier of an entry in the table of contents.
pub type ID = i64;

/// PostgreSQL object identifier.
pub type Oid = u64;

/// PostgreSQL 8.0 - add tablespace.
pub const K_VERS_1_10: Version = (1, 10, 0);

/// PostgreSQL 8.4 - add toc section indicator.
pub const K_VERS_1_11: Version = (1, 11, 0);

/// PostgreSQL 9.0 - add separate BLOB entries.
pub const K_VERS_1_12: Version = (1, 12, 0);

/// PostgreSQL 11 - change search_path behavior.
pub const K_VERS_1_13: Version = (1, 13, 0);

/// PostgreSQL 12 - add tableam.
pub const K_VERS_1_14: Version = (1, 14, 0);

/// PostgreSQL 16 - add compression_algorithm in header.
pub const K_VERS_1_15: Version = (1, 15, 0);

/// PostgreSQL 17 - BLOB METADATA entries and multiple BLOBS, relkind.
pub const K_VERS_1_16: Version = (1, 16, 0);

/// Oldest archive format that can be decoded.
pub const MIN_SUPPORTED_VERSION: Version = K_VERS_1_10;

/// Newest archive format that can be decoded.
pub const MAX_SUPPORTED_VERSION: Version = K_VERS_1_16;

/// Lexicographic order on versions: `a` is strictly older than `b`.
pub open spec fn version_lt(a: Version, b: Version) -> bool {
    a.0 < b.0 || (a.0 == b.0 && (a.1 < b.1 || (a.1 == b.1 && a.2 < b.2)))
}

/// `a` is `b` or older.
pub open spec fn version_le(a: Version, b: Version) -> bool {
    a == b || version_lt(a, b)
}

/// The version lies in the inclusive window of supported formats.
pub open spec fn version_supported(v: Version) -> bool {
    version_le(MIN_SUPPORTED_VERSION, v) && version_le(v, MAX_SUPPORTED_VERSION)
}

/// Decides whether `a` is strictly older than `b`.
pub fn version_before(a: Version, b: Version) -> (r: bool)
    ensures
        r == version_lt(a, b),
{
    a.0 < b.0 || (a.0 == b.0 && (a.1 < b.1 || (a.1 == b.1 && a.2 < b.2)))
}

/// Decides whether a version lies in the supported window.
pub fn is_supported_version(v: Version) -> (r: bool)
    ensures
        r == version_supported(v),
{
    !version_before(v, MIN_SUPPORTED_VERSION) && !version_before(MAX_SUPPORTED_VERSION, v)
}

/// The order on versions is a strict total order.
pub proof fn version_order_is_total(a: Version, b: Version, c: Version)
    ensures
        !version_lt(a, a),
        version_lt(a, b) || a == b || version_lt(b, a),
        version_lt(a, b) ==> !version_lt(b, a),
        version_lt(a, b) && version_lt(b, c) ==> version_lt(a, c),
{
}

/// Why a primitive value could not be decoded.
#[derive(Clone, Copy, Debug, PartialEq, Eq, Structural)]
pub enum DecodeError {
    /// The source ended before the value did.
    Truncated,
    /// The width that the value is stored with is not known yet (it is zero).
    ConfigUnset,
    /// A length prefix is negative and not the "no value" marker.
    InvalidLength,
    /// A string is not valid UTF-8.
    InvalidEncoding,
    /// A numeric field is not a non-negative decimal number in range.
    InvalidId,
    /// A tag byte or a small integer code has no meaning.
    InvalidTag,
    /// A magnitude does not fit the integer type that holds it.
    Overflow,
    /// The reserved field of an entry, which must read as false, is set.
    ReservedFlagSet,
}

/// The field of the archive that a decoder was reading.
#[derive(Clone, Copy, Debug, PartialEq, Eq, Structural)]
pub enum Field {
    Signature,
    Version,
    IntSize,
    OffsetSize,
    Format,
    Compression,
    CreateDate,
    DatabaseName,
    ServerVersion,
    PgdumpVersion,
    TocCount,
    Id,
    HadDumper,
    TableOid,
    Oid,
    Tag,
    Desc,
    Section,
    Defn,
    DropStmt,
    CopyStmt,
    Namespace,
    Tablespace,
    TableAccessMethod,
    Owner,
    Reserved,
    Dependencies,
    Offset,
    BlockType,
    BlockId,
    ChunkLength,
    ChunkData,
}

/// Position of the data that belongs to an entry.
#[derive(Clone, Copy, Debug, PartialEq, Eq, Structural)]
pub enum Offset {
    /// The position was not recorded.
    Unknown,
    /// The entry has data, but its position was never filled in.
    PosNotSet,
    /// The data starts at this position of the archive.
    PosSet(u64),
    /// The entry has no data.
    NoData,
}

/// Kind of a block in the data part of the archive.
#[derive(Clone, Copy, Debug, PartialEq, Eq, Structural)]
pub enum BlockType {
    /// Table data.
    Data,
    /// A large object.
    Blob,
}

/// The block kind that a tag byte stands for.
pub open spec fn block_type_of(value: u8) -> Option<BlockType> {
    if value == 1 {
        Some(BlockType::Data)
    } else if value == 3 {
        Some(BlockType::Blob)
    } else {
        None
    }
}

impl BlockType {
    /// Decodes the tag byte of a block: 1 is data, 3 is a large object.
    pub fn try_from(value: u8) -> (r: Result<BlockType, ()>)
        ensures
            r == match block_type_of(value) {
                Some(v) => Ok::<BlockType, ()>(v),
                None => Err::<BlockType, ()>(()),
            },
    {
        if value == 1 {
            Ok(BlockType::Data)
        } else if value == 3 {
            Ok(BlockType::Blob)
        } else {
            Err(())
        }
    }
}

/// Possible compression methods used for data.
#[derive(Clone, Copy, Debug, PartialEq, Eq, Structural)]
pub enum CompressionMethod {
    /// Data is not compressed.
    Uncompressed,
    /// Data is compressed using gzip, with the given compression level.
    Gzip(i64),
    /// Data is compressed using LZ4.
    LZ4,
    /// Data is stored as a zlib stream.
    ZSTD,
}

/// The compression method that a tag byte of the header stands for.
pub open spec fn compression_of_tag(value: u8) -> Option<CompressionMethod> {
    if value == 0 {
        Some(CompressionMethod::Uncompressed)
    } else if value == 1 {
        Some(CompressionMethod::Gzip(0))
    } else if value == 2 {
        Some(CompressionMethod::LZ4)
    } else if value == 3 {
        Some(CompressionMethod::ZSTD)
    } else {
        None
    }
}

/// The compression method that the compression level of an older header
/// stands for. Zero means no compression and -1 marks a zlib stream, which is
/// reported as `ZSTD`; every other level is a gzip level.
pub open spec fn compression_of_level(level: i64) -> CompressionMethod {
    if level == 0 {
        CompressionMethod::Uncompressed
    } else if level == -1 {
        CompressionMethod::ZSTD
    } else {
        CompressionMethod::Gzip(level)
    }
}

impl CompressionMethod {
    /// Decodes the compression tag of a header: 0 none, 1 gzip, 2 LZ4, 3 ZSTD.
    pub fn try_from(value: u8) -> (r: Result<CompressionMethod, ()>)
        ensures
            r == match compression_of_tag(value) {
                Some(v) => Ok::<CompressionMethod, ()>(v),
                None => Err::<CompressionMethod, ()>(()),
            },
    {
        if value == 0 {
            Ok(CompressionMethod::Uncompressed)
        } else if value == 1 {
            Ok(CompressionMethod::Gzip(0))
        } else if value == 2 {
            Ok(CompressionMethod::LZ4)
        } else if value == 3 {
            Ok(CompressionMethod::ZSTD)
        } else {
            Err(())
        }
    }

    /// Derives the compression method from the compression level of a
    /// header older than 1.15.
    pub fn from_level(level: i64) -> (r: CompressionMethod)
        ensures
            r == compression_of_level(level),
    {
        if level == 0 {
            CompressionMethod::Uncompressed
        } else if level == -1 {
            CompressionMethod::ZSTD
        } else {
            CompressionMethod::Gzip(level)
        }
    }
}

/// Enumeration of table of contents section types.
///
/// Each entry in the table of contents belongs to a section, which
/// determines the order in which the entries are processed during a restore:
/// `PreData`, then `Data`, then `PostData`.
#[derive(Clone, Copy, Debug, PartialEq, Eq, Structural)]
pub enum Section {
    /// Used for entries that do not modify the schema or add data.
    Unassigned,
    /// An entry that must be processed before table data is loaded.
    PreData,
    /// Used for entries that load data into tables.
    Data,
    /// Used for entries that must be processed after table data is loaded.
    PostData,
}

/// The section that an integer code stands for: 1 to 4, in the order of the
/// variants.
pub open spec fn section_of(value: i64) -> Option<Section> {
    if value == 1 {
        Some(Section::Unassigned)
    } else if value == 2 {
        Some(Section::PreData)
    } else if value == 3 {
        Some(Section::Data)
    } else if value == 4 {
        Some(Section::PostData)
    } else {
        None
    }
}

impl Section {
    /// Decodes the section code of an entry.
    pub fn try_from(value: i64) -> (r: Result<Section, ()>)
        ensures
            r == match section_of(value) {
                Some(v) => Ok::<Section, ()>(v),
                None => Err::<Section, ()>(()),
            },
    {
        if value == 1 {
            Ok(Section::Unassigned)
        } else if value == 2 {
            Ok(Section::PreData)
        } else if value == 3 {
            Ok(Section::Data)
        } else if value == 4 {
            Ok(Section::PostData)
        } else {
            Err(())
        }
    }
}

/// Error type used for archive processing errors.
#[derive(Clone, Copy, Debug, PartialEq, Eq)]
pub enum ArchiveError {
    /// The input does not start with the archive signature.
    NotAnArchive,
    /// The archive was made by a pg_dump version that is not supported.
    UnsupportedVersionError(Version),
    /// The archive is not in custom format.
    WrongFormat,
    /// The compression tag of the header has no meaning.
    InvalidCompressionMethod,
    /// The creation time in the header is no calendar date and time.
    InvalidTimestamp,
    /// A field outside the entries could not be decoded.
    InvalidData(Field, DecodeError),
    /// A field of the entry with the given id could not be decoded.
    InvalidEntryData(ID, Field, DecodeError),
    /// The tag byte of a data block has no meaning.
    InvalidBlockType,
    /// The entry has no data that can be located.
    NoDataPresent,
    /// Reading large objects is not supported.
    BlobNotSupported,
    /// An unsupported compression method was used for table data.
    CompressionMethodNotSupported(CompressionMethod),
    /// The data of a block is no valid compressed stream.
    InvalidCompressedData,
    /// The definition of a table is no statement that creates a table.
    InvalidTableDefinition,
}

} // verus!
