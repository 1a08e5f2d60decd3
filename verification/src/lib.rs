//! Decoder for PostgreSQL dumps in custom format, as written by
//! `pg_dump -Fc`.
//!
//! The archive is decoded from a [`ByteSource`], an in-memory byte sequence
//! with a cursor. What a decoder gives is stated as a function of the byte
//! sequence and a position, and the decoder is proved to compute exactly
//! that function.
pub mod archive;
pub mod codec;
pub mod header;
pub mod io;
pub mod source;
pub mod tabledata;
pub mod toc;
pub mod types;

pub use archive::Archive;
pub use header::{Header, Timestamp};
pub use io::{DataReader, ReadConfig};
pub use source::ByteSource;
pub use tabledata::{
    column_names, table_data, table_data_reader, table_definition, Statement, TableData,
};
pub use toc::{read_toc, TocEntry};
pub use types::{
    ArchiveError, BlockType, CompressionMethod, DecodeError, Field, Offset, Oid, Section, Version,
    ID,
};
