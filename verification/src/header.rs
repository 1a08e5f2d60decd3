use crate::codec::{
    byte_at, byte_at_spec, fits, int_at, int_at_spec, le_value_of_le_bytes, magnitude_of,
    pow256_is_large, stored_int, stored_int_is_read_back, stored_pieces, stored_string,
    stored_string_is_read_back, string_at, string_at_spec, string_fits,
};
use crate::io::ReadConfig;
use crate::source::{available, gives, reads_as, ByteSource};
use crate::types::{
    compression_of_level, compression_of_tag, is_supported_version, version_before, version_lt,
    version_supported, ArchiveError, CompressionMethod, DecodeError, Field, Version, K_VERS_1_15,
};
use chrono::{Datelike, NaiveDate, Timelike};
use vstd::prelude::*;

verus! {

/// A calendar date and a time of day, without a time zone.
#[derive(Clone, Copy, Debug, PartialEq, Eq, Structural)]
pub struct Timestamp {
    /// Year of the proleptic Gregorian calendar.
    pub year: i32,
    /// Month, from 1.
    pub month: u32,
    /// Day of the month, from 1.
    pub day: u32,
    /// Hour, from 0 to 23.
    pub hour: u32,
    /// Minute, from 0 to 59.
    pub minute: u32,
    /// Second, from 0 to 59.
    pub second: u32,
}

/// The year has 366 days.
pub open spec fn is_leap_year(year: int) -> bool {
    year % 4 == 0 && (year % 100 != 0 || year % 400 == 0)
}

/// Number of days of a month of a year.
pub open spec fn days_in_month(year: int, month: int) -> int {
    if month == 2 {
        if is_leap_year(year) {
            29
        } else {
            28
        }
    } else if month == 4 || month == 6 || month == 9 || month == 11 {
        30
    } else {
        31
    }
}

/// The day exists in the calendar, in a year that a date can hold.
pub open spec fn is_calendar_date(year: int, month: int, day: int) -> bool {
    &&& -262143 <= year <= 262142
    &&& 1 <= month <= 12
    &&& 1 <= day <= days_in_month(year, month)
}

/// The time exists on a day without a leap second.
pub open spec fn is_time_of_day(hour: int, minute: int, second: int) -> bool {
    0 <= hour < 24 && 0 <= minute < 60 && 0 <= second < 60
}

impl Timestamp {
    /// The timestamp names a day of the calendar and a time of that day.
    pub open spec fn wf(self) -> bool {
        is_calendar_date(self.year as int, self.month as int, self.day as int) && is_time_of_day(
            self.hour as int,
            self.minute as int,
            self.second as int,
        )
    }
}

/// Asks chrono for the date and time with these fields, through
/// `NaiveDate::from_ymd_opt` and `NaiveDate::and_hms_opt`, and reads the
/// fields back from what it made. chrono makes a date for the days of the
/// proleptic Gregorian calendar in the years -262143 to 262142, and a time
/// for hours under 24 with minutes and seconds under 60; the fields of what
/// it made are those it was given.
#[verifier::external_body]
fn civil_timestamp(year: i32, month: u32, day: u32, hour: u32, minute: u32, second: u32) -> (r:
    Option<Timestamp>)
    ensures
        r == (if is_calendar_date(year as int, month as int, day as int) && is_time_of_day(
            hour as int,
            minute as int,
            second as int,
        ) {
            Some(Timestamp { year, month, day, hour, minute, second })
        } else {
            None
        }),
{
    NaiveDate::from_ymd_opt(year, month, day).and_then(|d| d.and_hms_opt(hour, minute, second)).map(
        |t|
            Timestamp {
                year: t.year(),
                month: t.month(),
                day: t.day(),
                hour: t.hour(),
                minute: t.minute(),
                second: t.second(),
            },
    )
}

/// The creation time that the fields of a header stand for. The month is
/// stored counted from zero and the year counted from 1900.
pub open spec fn timestamp_of(
    second: i64,
    minute: i64,
    hour: i64,
    mday: i64,
    month: i64,
    year: i64,
) -> Option<Timestamp> {
    if is_calendar_date(year + 1900, month + 1, mday as int) && is_time_of_day(
        hour as int,
        minute as int,
        second as int,
    ) {
        Some(
            Timestamp {
                year: (year + 1900) as i32,
                month: (month + 1) as u32,
                day: mday as u32,
                hour: hour as u32,
                minute: minute as u32,
                second: second as u32,
            },
        )
    } else {
        None
    }
}

/// Assembles the creation time from the fields of a header; `None` where
/// they name no date and time.
pub fn timestamp_from_fields(
    second: i64,
    minute: i64,
    hour: i64,
    mday: i64,
    month: i64,
    year: i64,
) -> (r: Option<Timestamp>)
    ensures
        r == timestamp_of(second, minute, hour, mday, month, year),
        r matches Some(t) ==> t.wf(),
{
    if year < -0x8000_0000i64 - 1900 || year > 0x7fff_ffffi64 - 1900 {
        return None;
    }
    if month < -1 || month >= 0xffff_ffffi64 {
        return None;
    }
    if mday < 0 || mday > 0xffff_ffffi64 || hour < 0 || hour > 0xffff_ffffi64 || minute < 0
        || minute > 0xffff_ffffi64 || second < 0 || second > 0xffff_ffffi64 {
        return None;
    }
    civil_timestamp(
        (year + 1900) as i32,
        (month + 1) as u32,
        mday as u32,
        hour as u32,
        minute as u32,
        second as u32,
    )
}

/// The first `count` integers of `data` from `pos`, and the position behind
/// them; the error of the first that cannot be decoded.
pub open spec fn ints_at(data: Seq<u8>, pos: usize, int_size: usize, count: nat) -> Result<
    (Seq<i64>, usize),
    DecodeError,
>
    decreases count,
{
    if count == 0 {
        Ok((Seq::empty(), pos))
    } else {
        match ints_at(data, pos, int_size, (count - 1) as nat) {
            Err(e) => Err(e),
            Ok((earlier, at)) => match int_at_spec(data, at, int_size) {
                Err(e) => Err(e),
                Ok((v, next)) => Ok((earlier.push(v), next)),
            },
        }
    }
}

/// The creation time of `data` at `pos`: seven integers, which are the
/// second, minute, hour, day of the month, month, year and a daylight saving
/// flag that is not looked at.
pub open spec fn timestamp_at_spec(data: Seq<u8>, pos: usize, int_size: usize) -> Result<
    (Timestamp, usize),
    ArchiveError,
> {
    match ints_at(data, pos, int_size, 7) {
        Err(e) => Err(ArchiveError::InvalidData(Field::CreateDate, e)),
        Ok((f, next)) => match timestamp_of(f[0], f[1], f[2], f[3], f[4], f[5]) {
            None => Err(ArchiveError::InvalidTimestamp),
            Some(t) => Ok((t, next)),
        },
    }
}

/// Decodes the creation time of `data` at `pos`.
pub fn timestamp_at(data: &[u8], pos: usize, int_size: usize) -> (r: Result<
    (Timestamp, usize),
    ArchiveError,
>)
    ensures
        r == timestamp_at_spec(data@, pos, int_size),
{
    let mut fields: Vec<i64> = Vec::new();
    let mut at: usize = pos;
    let mut i: usize = 0;
    while i < 7
        invariant
            i <= 7,
            fields@.len() == i,
            ints_at(data@, pos, int_size, i as nat) == Ok::<(Seq<i64>, usize), DecodeError>(
                (fields@, at),
            ),
        decreases 7 - i,
    {
        match int_at(data, at, int_size) {
            Err(e) => {
                proof {
                    ints_at_keeps_failing(data@, pos, int_size, (i + 1) as nat, 7);
                }
                return Err(ArchiveError::InvalidData(Field::CreateDate, e));
            },
            Ok((v, next)) => {
                fields.push(v);
                at = next;
            },
        }
        i += 1;
    }
    match timestamp_from_fields(fields[0], fields[1], fields[2], fields[3], fields[4], fields[5]) {
        None => Err(ArchiveError::InvalidTimestamp),
        Some(t) => Ok((t, at)),
    }
}

/// Once one integer cannot be decoded, no longer run of integers can.
pub proof fn ints_at_keeps_failing(data: Seq<u8>, pos: usize, int_size: usize, n: nat, m: nat)
    requires
        n <= m,
        ints_at(data, pos, int_size, n) is Err,
    ensures
        ints_at(data, pos, int_size, m) == ints_at(data, pos, int_size, n),
    decreases m,
{
    if n < m {
        ints_at_keeps_failing(data, pos, int_size, n, (m - 1) as nat);
    }
}

/// The five bytes that every archive starts with: `PGDMP`.
pub open spec fn signature() -> Seq<u8> {
    seq![0x50u8, 0x47u8, 0x44u8, 0x4du8, 0x50u8]
}

/// The fixed part of the header of `data` at `pos`: the signature, three
/// bytes of version, which must be supported, the two widths, and the format
/// byte, which must be 1. Gives the version, the widths and the position
/// behind the format byte.
pub open spec fn preamble_at_spec(data: Seq<u8>, pos: usize) -> Result<
    (Version, ReadConfig, usize),
    ArchiveError,
> {
    if !available(data, pos, 5) {
        Err(ArchiveError::InvalidData(Field::Signature, DecodeError::Truncated))
    } else if data.subrange(pos as int, pos + 5) != signature() {
        Err(ArchiveError::NotAnArchive)
    } else if !available(data, pos, 8) {
        Err(ArchiveError::InvalidData(Field::Version, DecodeError::Truncated))
    } else {
        let version = (data[pos + 5], data[pos + 6], data[pos + 7]);
        if !version_supported(version) {
            Err(ArchiveError::UnsupportedVersionError(version))
        } else if !available(data, pos, 9) {
            Err(ArchiveError::InvalidData(Field::IntSize, DecodeError::Truncated))
        } else if !available(data, pos, 10) {
            Err(ArchiveError::InvalidData(Field::OffsetSize, DecodeError::Truncated))
        } else if !available(data, pos, 11) {
            Err(ArchiveError::InvalidData(Field::Format, DecodeError::Truncated))
        } else if data[pos + 10] != 1 {
            Err(ArchiveError::WrongFormat)
        } else {
            Ok(
                (
                    version,
                    ReadConfig {
                        int_size: data[pos + 8] as usize,
                        offset_size: data[pos + 9] as usize,
                    },
                    (pos + 11) as usize,
                ),
            )
        }
    }
}

/// Decodes the fixed part of the header of `data` at `pos`.
pub fn preamble_at(data: &[u8], pos: usize) -> (r: Result<
    (Version, ReadConfig, usize),
    ArchiveError,
>)
    ensures
        r == preamble_at_spec(data@, pos),
{
    let len: usize = data.len();
    if pos > len || len - pos < 5 {
        return Err(ArchiveError::InvalidData(Field::Signature, DecodeError::Truncated));
    }
    if data[pos] != 0x50 || data[pos + 1] != 0x47 || data[pos + 2] != 0x44 || data[pos + 3] != 0x4d
        || data[pos + 4] != 0x50 {
        proof {
            let found = data@.subrange(pos as int, pos + 5);
            assert(found[0] == data@[pos as int]);
            assert(found[1] == data@[pos + 1]);
            assert(found[2] == data@[pos + 2]);
            assert(found[3] == data@[pos + 3]);
            assert(found[4] == data@[pos + 4]);
        }
        return Err(ArchiveError::NotAnArchive);
    }
    assert(data@.subrange(pos as int, pos + 5) =~= signature());
    if len - pos < 8 {
        return Err(ArchiveError::InvalidData(Field::Version, DecodeError::Truncated));
    }
    let version: Version = (data[pos + 5], data[pos + 6], data[pos + 7]);
    if !is_supported_version(version) {
        return Err(ArchiveError::UnsupportedVersionError(version));
    }
    if len - pos < 9 {
        return Err(ArchiveError::InvalidData(Field::IntSize, DecodeError::Truncated));
    }
    if len - pos < 10 {
        return Err(ArchiveError::InvalidData(Field::OffsetSize, DecodeError::Truncated));
    }
    if len - pos < 11 {
        return Err(ArchiveError::InvalidData(Field::Format, DecodeError::Truncated));
    }
    if data[pos + 10] != 1 {
        return Err(ArchiveError::WrongFormat);
    }
    let io_config = ReadConfig {
        int_size: data[pos + 8] as usize,
        offset_size: data[pos + 9] as usize,
    };
    Ok((version, io_config, pos + 11))
}

/// The compression method of the header of `data` at `pos`. From version
/// 1.15 it is one tag byte; before, it is an integer compression level.
pub open spec fn compression_at_spec(
    data: Seq<u8>,
    pos: usize,
    version: Version,
    int_size: usize,
) -> Result<(CompressionMethod, usize), ArchiveError> {
    if !version_lt(version, K_VERS_1_15) {
        match byte_at_spec(data, pos) {
            Err(e) => Err(ArchiveError::InvalidData(Field::Compression, e)),
            Ok((tag, next)) => match compression_of_tag(tag) {
                None => Err(ArchiveError::InvalidCompressionMethod),
                Some(method) => Ok((method, next)),
            },
        }
    } else {
        match int_at_spec(data, pos, int_size) {
            Err(e) => Err(ArchiveError::InvalidData(Field::Compression, e)),
            Ok((level, next)) => Ok((compression_of_level(level), next)),
        }
    }
}

/// Decodes the compression method of the header of `data` at `pos`.
pub fn compression_at(data: &[u8], pos: usize, version: Version, int_size: usize) -> (r: Result<
    (CompressionMethod, usize),
    ArchiveError,
>)
    ensures
        r == compression_at_spec(data@, pos, version, int_size),
{
    if !version_before(version, K_VERS_1_15) {
        match byte_at(data, pos) {
            Err(e) => Err(ArchiveError::InvalidData(Field::Compression, e)),
            Ok((tag, next)) => match CompressionMethod::try_from(tag) {
                Err(_) => Err(ArchiveError::InvalidCompressionMethod),
                Ok(method) => Ok((method, next)),
            },
        }
    } else {
        match int_at(data, pos, int_size) {
            Err(e) => Err(ArchiveError::InvalidData(Field::Compression, e)),
            Ok((level, next)) => Ok((CompressionMethod::from_level(level), next)),
        }
    }
}

/// The header of an archive.
#[derive(Debug, PartialEq)]
pub struct Header {
    /// Archive format version.
    pub version: Version,
    /// Compression method used for data.
    pub compression_method: CompressionMethod,
    /// Date when the archive was created.
    pub create_date: Timestamp,
    /// Name of the database that was dumped.
    pub database_name: String,
    /// Version of the PostgreSQL server that the dump was taken from.
    pub server_version: String,
    /// Version of the pg_dump command that made the archive.
    pub pgdump_version: String,
    /// The widths that the rest of the archive is stored with.
    pub io_config: ReadConfig,
}

/// A header with its strings as character sequences.
pub struct HeaderView {
    pub version: Version,
    pub compression_method: CompressionMethod,
    pub create_date: Timestamp,
    pub database_name: Seq<char>,
    pub server_version: Seq<char>,
    pub pgdump_version: Seq<char>,
    pub io_config: ReadConfig,
}

impl View for Header {
    type V = HeaderView;

    open spec fn view(&self) -> HeaderView {
        HeaderView {
            version: self.version,
            compression_method: self.compression_method,
            create_date: self.create_date,
            database_name: self.database_name@,
            server_version: self.server_version@,
            pgdump_version: self.pgdump_version@,
            io_config: self.io_config,
        }
    }
}

/// The header of `data` at `pos`: the fixed part, the compression method,
/// the creation time, and three strings, which are the name of the database
/// and the versions of the server and of pg_dump.
pub open spec fn header_at_spec(data: Seq<u8>, pos: usize) -> Result<
    (HeaderView, usize),
    ArchiveError,
> {
    match preamble_at_spec(data, pos) {
        Err(e) => Err(e),
        Ok((version, io_config, after_preamble)) => match compression_at_spec(
            data,
            after_preamble,
            version,
            io_config.int_size,
        ) {
            Err(e) => Err(e),
            Ok((compression_method, after_compression)) => match timestamp_at_spec(data, after_compression, io_config.int_size) {
                Err(e) => Err(e),
                Ok((create_date, after_date)) => match string_at_spec(data, after_date, io_config.int_size) {
                    Err(e) => Err(ArchiveError::InvalidData(Field::DatabaseName, e)),
                    Ok((database_name, after_database)) => match string_at_spec(
                        data,
                        after_database,
                        io_config.int_size,
                    ) {
                        Err(e) => Err(ArchiveError::InvalidData(Field::ServerVersion, e)),
                        Ok((server_version, after_server)) => match string_at_spec(
                            data,
                            after_server,
                            io_config.int_size,
                        ) {
                            Err(e) => Err(ArchiveError::InvalidData(Field::PgdumpVersion, e)),
                            Ok((pgdump_version, after_pgdump)) => Ok(
                                (
                                    HeaderView {
                                        version,
                                        compression_method,
                                        create_date,
                                        database_name,
                                        server_version,
                                        pgdump_version,
                                        io_config,
                                    },
                                    after_pgdump,
                                ),
                            ),
                        },
                    },
                },
            },
        },
    }
}

/// Decodes the header of `data` at `pos`.
pub fn header_at(data: &[u8], pos: usize) -> (r: Result<(Header, usize), ArchiveError>)
    ensures
        gives(r, header_at_spec(data@, pos)),
{
    let (version, io_config, after_preamble) = match preamble_at(data, pos) {
        Err(e) => { return Err(e); },
        Ok(v) => v,
    };
    let (compression_method, after_compression) = match compression_at(data, after_preamble, version, io_config.int_size) {
        Err(e) => { return Err(e); },
        Ok(v) => v,
    };
    let (create_date, after_date) = match timestamp_at(data, after_compression, io_config.int_size) {
        Err(e) => { return Err(e); },
        Ok(v) => v,
    };
    let (database_name, after_database) = match string_at(data, after_date, io_config.int_size) {
        Err(e) => { return Err(ArchiveError::InvalidData(Field::DatabaseName, e)); },
        Ok(v) => v,
    };
    let (server_version, after_server) = match string_at(data, after_database, io_config.int_size) {
        Err(e) => { return Err(ArchiveError::InvalidData(Field::ServerVersion, e)); },
        Ok(v) => v,
    };
    let (pgdump_version, after_pgdump) = match string_at(data, after_server, io_config.int_size) {
        Err(e) => { return Err(ArchiveError::InvalidData(Field::PgdumpVersion, e)); },
        Ok(v) => v,
    };
    Ok(
        (
            Header {
                version,
                compression_method,
                create_date,
                database_name,
                server_version,
                pgdump_version,
                io_config,
            },
            after_pgdump,
        ),
    )
}

impl Header {
    /// Reads and decodes the header of an archive. A failure leaves the
    /// cursor where it was.
    pub fn parse(f: &mut ByteSource) -> (r: Result<Header, ArchiveError>)
        ensures
            reads_as(*old(f), *final(f), r, header_at_spec(old(f).data@, old(f).pos)),
    {
        match header_at(f.data.as_slice(), f.pos) {
            Err(e) => Err(e),
            Ok((header, next)) => {
                f.pos = next;
                Ok(header)
            },
        }
    }
}

/// The tag byte that stores a compression method from version 1.15 on;
/// `None` for a method that has no tag.
pub open spec fn tag_of_compression(method: CompressionMethod) -> Option<u8> {
    match method {
        CompressionMethod::Uncompressed => Some(0u8),
        CompressionMethod::Gzip(level) => if level == 0 {
            Some(1u8)
        } else {
            None
        },
        CompressionMethod::LZ4 => Some(2u8),
        CompressionMethod::ZSTD => Some(3u8),
    }
}

/// The compression level that stores a compression method before version
/// 1.15; `None` for a method that no level stands for.
pub open spec fn level_of_compression(method: CompressionMethod) -> Option<i64> {
    match method {
        CompressionMethod::Uncompressed => Some(0i64),
        CompressionMethod::Gzip(level) => if level != 0 && level != -1 {
            Some(level)
        } else {
            None
        },
        CompressionMethod::LZ4 => None,
        CompressionMethod::ZSTD => Some(-1i64),
    }
}

/// A header of this version can store the compression method.
pub open spec fn compression_storable(
    method: CompressionMethod,
    version: Version,
    int_size: usize,
) -> bool {
    if !version_lt(version, K_VERS_1_15) {
        tag_of_compression(method) is Some
    } else {
        level_of_compression(method) is Some && fits(
            level_of_compression(method)->Some_0,
            int_size,
        )
    }
}

/// The bytes that store a compression method in a header of this version.
pub open spec fn stored_compression(
    method: CompressionMethod,
    version: Version,
    int_size: usize,
) -> Seq<u8> {
    if !version_lt(version, K_VERS_1_15) {
        seq![tag_of_compression(method)->Some_0]
    } else {
        stored_int(level_of_compression(method)->Some_0, int_size)
    }
}

/// The bytes that store the fixed part of a header.
pub open spec fn stored_preamble(version: Version, io_config: ReadConfig) -> Seq<u8> {
    signature() + seq![
        version.0,
        version.1,
        version.2,
        io_config.int_size as u8,
        io_config.offset_size as u8,
        1u8,
    ]
}

/// A header can store the creation time with this daylight saving flag.
pub open spec fn time_storable(t: Timestamp, isdst: i64, int_size: usize) -> bool {
    t.wf() && fits((t.year - 1900) as i64, int_size) && fits(isdst, int_size)
}

/// The integers that store a creation time: second, minute, hour, day,
/// month from zero, year from 1900, and the daylight saving flag.
pub open spec fn time_fields(t: Timestamp, isdst: i64) -> Seq<i64> {
    seq![
        t.second as i64,
        t.minute as i64,
        t.hour as i64,
        t.day as i64,
        (t.month - 1) as i64,
        (t.year - 1900) as i64,
        isdst,
    ]
}

/// The bytes that store a run of integers.
pub open spec fn stored_ints(values: Seq<i64>, int_size: usize) -> Seq<u8>
    decreases values.len(),
{
    if values.len() == 0 {
        Seq::empty()
    } else {
        stored_ints(values.drop_last(), int_size) + stored_int(values.last(), int_size)
    }
}

/// The bytes that store a creation time.
pub open spec fn stored_time(t: Timestamp, isdst: i64, int_size: usize) -> Seq<u8> {
    stored_ints(time_fields(t, isdst), int_size)
}

/// A header with these fields can be stored.
pub open spec fn header_storable(h: HeaderView, isdst: i64) -> bool {
    &&& version_supported(h.version)
    &&& 0 < h.io_config.int_size <= 255
    &&& h.io_config.offset_size <= 255
    &&& compression_storable(h.compression_method, h.version, h.io_config.int_size)
    &&& time_storable(h.create_date, isdst, h.io_config.int_size)
    &&& string_fits(h.database_name, h.io_config.int_size)
    &&& string_fits(h.server_version, h.io_config.int_size)
    &&& string_fits(h.pgdump_version, h.io_config.int_size)
}

/// The bytes that store a header.
pub open spec fn stored_header(h: HeaderView, isdst: i64) -> Seq<u8> {
    stored_preamble(h.version, h.io_config) + (stored_compression(
        h.compression_method,
        h.version,
        h.io_config.int_size,
    ) + (stored_time(h.create_date, isdst, h.io_config.int_size) + (stored_string(
        h.database_name,
        h.io_config.int_size,
    ) + (stored_string(h.server_version, h.io_config.int_size) + stored_string(
        h.pgdump_version,
        h.io_config.int_size,
    )))))
}

/// The fixed part of a header is read back from the bytes that store it.
pub proof fn stored_preamble_is_read_back(
    data: Seq<u8>,
    pos: usize,
    version: Version,
    io_config: ReadConfig,
)
    requires
        version_supported(version),
        io_config.int_size <= 255,
        io_config.offset_size <= 255,
        pos + 11 <= data.len() <= usize::MAX,
        data.subrange(pos as int, pos + 11) == stored_preamble(version, io_config),
    ensures
        stored_preamble(version, io_config).len() == 11,
        preamble_at_spec(data, pos) == Ok::<(Version, ReadConfig, usize), ArchiveError>(
            (version, io_config, (pos + 11) as usize),
        ),
{
    let stored = stored_preamble(version, io_config);
    let found = data.subrange(pos as int, pos + 11);
    assert(stored.len() == 11);
    assert(stored.subrange(0, 5) =~= signature());
    assert(data.subrange(pos as int, pos + 5) =~= found.subrange(0, 5));
    assert(found[5] == data[pos + 5] && stored[5] == version.0);
    assert(found[6] == data[pos + 6] && stored[6] == version.1);
    assert(found[7] == data[pos + 7] && stored[7] == version.2);
    assert(found[8] == data[pos + 8] && stored[8] == io_config.int_size as u8);
    assert(found[9] == data[pos + 9] && stored[9] == io_config.offset_size as u8);
    assert(found[10] == data[pos + 10] && stored[10] == 1);
}

/// A compression method is read back from the bytes that store it.
pub proof fn stored_compression_is_read_back(
    data: Seq<u8>,
    pos: usize,
    version: Version,
    int_size: usize,
    method: CompressionMethod,
)
    requires
        compression_storable(method, version, int_size),
        pos + stored_compression(method, version, int_size).len() <= data.len() <= usize::MAX,
        data.subrange(pos as int, pos + stored_compression(method, version, int_size).len())
            == stored_compression(method, version, int_size),
    ensures
        compression_at_spec(data, pos, version, int_size) == Ok::<
            (CompressionMethod, usize),
            ArchiveError,
        >((method, (pos + stored_compression(method, version, int_size).len()) as usize)),
{
    let stored = stored_compression(method, version, int_size);
    if !version_lt(version, K_VERS_1_15) {
        assert(stored.len() == 1);
        assert(data.subrange(pos as int, pos + 1)[0] == data[pos as int]);
        assert(stored[0] == tag_of_compression(method)->Some_0);
    } else {
        let level = level_of_compression(method)->Some_0;
        le_value_of_le_bytes(magnitude_of(level), int_size as nat);
        stored_int_is_read_back(data, pos, int_size, level);
    }
}

/// A run of integers that fit is read back from the bytes that store it.
pub proof fn stored_ints_are_read_back(
    data: Seq<u8>,
    pos: usize,
    int_size: usize,
    values: Seq<i64>,
)
    requires
        forall|i: int| 0 <= i < values.len() ==> fits(#[trigger] values[i], int_size),
        pos + stored_ints(values, int_size).len() <= data.len() <= usize::MAX,
        data.subrange(pos as int, pos + stored_ints(values, int_size).len()) == stored_ints(
            values,
            int_size,
        ),
    ensures
        ints_at(data, pos, int_size, values.len()) == Ok::<(Seq<i64>, usize), DecodeError>(
            (values, (pos + stored_ints(values, int_size).len()) as usize),
        ),
    decreases values.len(),
{
    if values.len() > 0 {
        let earlier = values.drop_last();
        let before = stored_ints(earlier, int_size);
        let last = stored_int(values.last(), int_size);
        le_value_of_le_bytes(magnitude_of(values.last()), int_size as nat);
        stored_pieces(data, pos as int, before, last);
        stored_ints_are_read_back(data, pos, int_size, earlier);
        stored_int_is_read_back(data, (pos + before.len()) as usize, int_size, values.last());
        assert(earlier.push(values.last()) =~= values);
        assert(earlier.len() == (values.len() - 1) as nat);
        assert(ints_at(data, pos, int_size, earlier.len()) == Ok::<(Seq<i64>, usize), DecodeError>(
            (earlier, (pos + before.len()) as usize),
        ));
        assert(int_at_spec(data, (pos + before.len()) as usize, int_size) == Ok::<
            (i64, usize),
            DecodeError,
        >((values.last(), (pos + before.len() + last.len()) as usize)));
    } else {
        assert(values =~= Seq::<i64>::empty());
    }
}

/// A creation time is read back from the bytes that store it.
pub proof fn stored_time_is_read_back(
    data: Seq<u8>,
    pos: usize,
    int_size: usize,
    t: Timestamp,
    isdst: i64,
)
    requires
        time_storable(t, isdst, int_size),
        pos + stored_time(t, isdst, int_size).len() <= data.len() <= usize::MAX,
        data.subrange(pos as int, pos + stored_time(t, isdst, int_size).len()) == stored_time(
            t,
            isdst,
            int_size,
        ),
    ensures
        timestamp_at_spec(data, pos, int_size) == Ok::<(Timestamp, usize), ArchiveError>(
            (t, (pos + stored_time(t, isdst, int_size).len()) as usize),
        ),
{
    pow256_is_large(int_size as nat);
    stored_ints_are_read_back(data, pos, int_size, time_fields(t, isdst));
}

/// Parsing the bytes that store a header gives the header back, with the
/// cursor behind it: the version, the widths, the compression method, the
/// creation time and the three strings.
pub proof fn header_round_trip(data: Seq<u8>, pos: usize, h: HeaderView, isdst: i64)
    requires
        header_storable(h, isdst),
        pos + stored_header(h, isdst).len() <= data.len() <= usize::MAX,
        data.subrange(pos as int, pos + stored_header(h, isdst).len()) == stored_header(h, isdst),
    ensures
        header_at_spec(data, pos) == Ok::<(HeaderView, usize), ArchiveError>(
            (h, (pos + stored_header(h, isdst).len()) as usize),
        ),
{
    let w = h.io_config.int_size;
    let a = stored_preamble(h.version, h.io_config);
    let b = stored_compression(h.compression_method, h.version, w);
    let c = stored_time(h.create_date, isdst, w);
    let d = stored_string(h.database_name, w);
    let e = stored_string(h.server_version, w);
    let f = stored_string(h.pgdump_version, w);
    let re = e + f;
    let rd = d + re;
    let rc = c + rd;
    let rb = b + rc;
    assert(a.len() == 11);
    stored_pieces(data, pos as int, a, rb);
    stored_preamble_is_read_back(data, pos, h.version, h.io_config);
    let after_preamble = (pos + 11) as usize;
    stored_pieces(data, after_preamble as int, b, rc);
    stored_compression_is_read_back(data, after_preamble, h.version, w, h.compression_method);
    let after_compression = (after_preamble + b.len()) as usize;
    stored_pieces(data, after_compression as int, c, rd);
    stored_time_is_read_back(data, after_compression, w, h.create_date, isdst);
    let after_date = (after_compression + c.len()) as usize;
    stored_pieces(data, after_date as int, d, re);
    stored_string_is_read_back(data, after_date, w, h.database_name);
    let after_database = (after_date + d.len()) as usize;
    stored_pieces(data, after_database as int, e, f);
    stored_string_is_read_back(data, after_database, w, h.server_version);
    let after_server = (after_database + e.len()) as usize;
    stored_string_is_read_back(data, after_server, w, h.pgdump_version);
}

} // verus!
