use pgarchive::header::{timestamp_from_fields, Header};
use pgarchive::types::{is_supported_version, version_before};
use pgarchive::{
    read_toc, Archive, ArchiveError, ByteSource, CompressionMethod, DecodeError, Field, ReadConfig,
    Section, Timestamp, TocEntry,
};

fn stored(value: i64) -> Vec<u8> {
    let mut bytes = vec![if value < 0 { 1 } else { 0 }];
    bytes.extend_from_slice(&(value.unsigned_abs() as u32).to_le_bytes());
    bytes
}

fn text(s: &str) -> Vec<u8> {
    let mut bytes = stored(s.len() as i64);
    bytes.extend_from_slice(s.as_bytes());
    bytes
}

/// A header of the given version with the given bytes for the compression
/// and the given fields of the creation time.
fn header(version: (u8, u8, u8), compression: &[u8], time: [i64; 7]) -> Vec<u8> {
    let mut bytes = b"PGDMP".to_vec();
    bytes.extend_from_slice(&[version.0, version.1, version.2, 4, 8, 1]);
    bytes.extend_from_slice(compression);
    for field in time {
        bytes.extend(stored(field));
    }
    bytes.extend(text("pizza"));
    bytes.extend(text("14.6 (Homebrew)"));
    bytes.extend(text("16.1"));
    bytes
}

const TIME: [i64; 7] = [20, 53, 7, 24, 10, 122, 0];

fn parse(bytes: Vec<u8>) -> Result<Header, ArchiveError> {
    Header::parse(&mut ByteSource::new(bytes))
}

#[test]
fn header_fields_are_read_back() {
    let bytes = header((1, 15, 0), &[3], [59, 0, 23, 29, 1, 124, 1]);
    let len = bytes.len();
    let mut input = ByteSource::new(bytes);
    let parsed = Header::parse(&mut input).unwrap();
    assert_eq!(
        parsed,
        Header {
            version: (1, 15, 0),
            compression_method: CompressionMethod::ZSTD,
            create_date: Timestamp { year: 2024, month: 2, day: 29, hour: 23, minute: 0, second: 59 },
            database_name: String::from("pizza"),
            server_version: String::from("14.6 (Homebrew)"),
            pgdump_version: String::from("16.1"),
            io_config: ReadConfig { int_size: 4, offset_size: 8 },
        }
    );
    assert_eq!(input.position(), len);
}

#[test]
fn month_is_stored_from_zero() {
    let parsed = parse(header((1, 14, 0), &stored(0), [0, 0, 0, 1, 0, 70, 0])).unwrap();
    assert_eq!(
        parsed.create_date,
        Timestamp { year: 1970, month: 1, day: 1, hour: 0, minute: 0, second: 0 }
    );
    let parsed = parse(header((1, 14, 0), &stored(0), [0, 0, 0, 31, 11, 99, 0])).unwrap();
    assert_eq!(
        parsed.create_date,
        Timestamp { year: 1999, month: 12, day: 31, hour: 0, minute: 0, second: 0 }
    );
    assert_eq!(
        parse(header((1, 14, 0), &stored(0), [0, 0, 0, 1, 12, 99, 0])),
        Err(ArchiveError::InvalidTimestamp)
    );
    assert_eq!(
        parse(header((1, 14, 0), &stored(0), [0, 0, 0, 1, -1, 99, 0])),
        Err(ArchiveError::InvalidTimestamp)
    );
}

#[test]
fn dates_that_do_not_exist_are_rejected() {
    assert_eq!(timestamp_from_fields(0, 0, 0, 32, 0, 122), None);
    assert_eq!(timestamp_from_fields(0, 0, 0, 0, 0, 122), None);
    assert_eq!(timestamp_from_fields(0, 0, 0, 29, 1, 123), None);
    assert_eq!(timestamp_from_fields(0, 0, 0, 29, 1, 0), None);
    assert_eq!(timestamp_from_fields(0, 0, 0, 31, 3, 122), None);
    assert_eq!(timestamp_from_fields(60, 0, 0, 1, 0, 122), None);
    assert_eq!(timestamp_from_fields(0, 60, 0, 1, 0, 122), None);
    assert_eq!(timestamp_from_fields(0, 0, 24, 1, 0, 122), None);
    assert_eq!(timestamp_from_fields(-1, 0, 0, 1, 0, 122), None);
    assert_eq!(timestamp_from_fields(0, 0, 0, 1, 0, 262143 - 1900), None);
    assert_eq!(timestamp_from_fields(0, 0, 0, 1, 0, -262144 - 1900), None);
    assert_eq!(timestamp_from_fields(0, 0, 0, 1, 0, i64::MAX), None);
    assert_eq!(timestamp_from_fields(0, 0, 0, 1, 0, i64::MIN), None);
    assert_eq!(timestamp_from_fields(0, 0, 0, 1 + (1 << 32), 0, 122), None);
    assert_eq!(timestamp_from_fields(0, 0, 0, 1, i64::MAX, 122), None);
    assert_eq!(
        timestamp_from_fields(0, 0, 0, 29, 1, 100),
        Some(Timestamp { year: 2000, month: 2, day: 29, hour: 0, minute: 0, second: 0 })
    );
    assert_eq!(
        timestamp_from_fields(59, 59, 23, 31, 11, 262142 - 1900),
        Some(Timestamp { year: 262142, month: 12, day: 31, hour: 23, minute: 59, second: 59 })
    );
    assert_eq!(
        timestamp_from_fields(0, 0, 0, 1, 0, -262143 - 1900),
        Some(Timestamp { year: -262143, month: 1, day: 1, hour: 0, minute: 0, second: 0 })
    );
    assert_eq!(
        parse(header((1, 14, 0), &stored(0), [0, 0, 0, 32, 0, 122, 0])),
        Err(ArchiveError::InvalidTimestamp)
    );
}

#[test]
fn compression_of_older_headers_comes_from_the_level() {
    for (level, method) in [
        (0, CompressionMethod::Uncompressed),
        (-1, CompressionMethod::ZSTD),
        (1, CompressionMethod::Gzip(1)),
        (9, CompressionMethod::Gzip(9)),
        (12, CompressionMethod::Gzip(12)),
        (-3, CompressionMethod::Gzip(-3)),
    ] {
        assert_eq!(CompressionMethod::from_level(level), method);
        let parsed = parse(header((1, 14, 0), &stored(level), TIME)).unwrap();
        assert_eq!(parsed.compression_method, method);
    }
}

#[test]
fn compression_of_newer_headers_is_a_tag() {
    for (tag, method) in [
        (0u8, CompressionMethod::Uncompressed),
        (1, CompressionMethod::Gzip(0)),
        (2, CompressionMethod::LZ4),
        (3, CompressionMethod::ZSTD),
    ] {
        assert_eq!(CompressionMethod::try_from(tag), Ok(method));
        for version in [(1, 15, 0), (1, 16, 0)] {
            let parsed = parse(header(version, &[tag], TIME)).unwrap();
            assert_eq!(parsed.compression_method, method);
            assert_eq!(parsed.version, version);
        }
    }
    assert_eq!(CompressionMethod::try_from(4), Err(()));
    assert_eq!(
        parse(header((1, 15, 0), &[4], TIME)),
        Err(ArchiveError::InvalidCompressionMethod)
    );
}

#[test]
fn signature_is_checked_first() {
    assert_eq!(parse(b"PGDMQ\x01\x0e\x00".to_vec()), Err(ArchiveError::NotAnArchive));
    assert_eq!(parse(b"pgdmp\x01\x0e\x00".to_vec()), Err(ArchiveError::NotAnArchive));
    assert_eq!(
        parse(b"PGDM".to_vec()),
        Err(ArchiveError::InvalidData(Field::Signature, DecodeError::Truncated))
    );
    assert_eq!(
        parse(vec![]),
        Err(ArchiveError::InvalidData(Field::Signature, DecodeError::Truncated))
    );
}

#[test]
fn versions_outside_the_window_are_rejected() {
    for version in [(1, 9, 255), (0, 255, 255), (1, 16, 1), (1, 17, 0), (2, 0, 0)] {
        assert!(!is_supported_version(version));
        assert_eq!(
            parse(header(version, &[0], TIME)),
            Err(ArchiveError::UnsupportedVersionError(version))
        );
    }
    for version in [(1, 10, 0), (1, 10, 7), (1, 12, 255), (1, 15, 9), (1, 16, 0)] {
        assert!(is_supported_version(version));
    }
    assert!(version_before((1, 14, 0), (1, 15, 0)));
    assert!(version_before((1, 14, 255), (1, 15, 0)));
    assert!(version_before((0, 255, 0), (1, 0, 0)));
    assert!(!version_before((1, 15, 0), (1, 15, 0)));
    assert!(!version_before((1, 15, 1), (1, 15, 0)));
    // The version is checked before the widths are read.
    assert_eq!(
        parse(b"PGDMP\x01\x09\x00".to_vec()),
        Err(ArchiveError::UnsupportedVersionError((1, 9, 0)))
    );
}

#[test]
fn format_must_be_custom() {
    let mut bytes = header((1, 14, 0), &stored(0), TIME);
    bytes[10] = 2;
    assert_eq!(parse(bytes), Err(ArchiveError::WrongFormat));
}

#[test]
fn truncated_headers_name_the_field() {
    let bytes = header((1, 14, 0), &stored(0), TIME);
    let cases = [
        (7, Field::Version),
        (8, Field::IntSize),
        (9, Field::OffsetSize),
        (10, Field::Format),
        (11, Field::Compression),
        (16, Field::CreateDate),
        (50, Field::CreateDate),
        (51, Field::DatabaseName),
        (57, Field::DatabaseName),
        (61, Field::ServerVersion),
        (81, Field::PgdumpVersion),
        (bytes.len() - 1, Field::PgdumpVersion),
    ];
    for (len, field) in cases {
        let mut input = ByteSource::new(bytes[..len].to_vec());
        assert_eq!(
            Header::parse(&mut input),
            Err(ArchiveError::InvalidData(field, DecodeError::Truncated))
        );
        assert_eq!(input.position(), 0);
    }
}

#[test]
fn widths_of_zero_show_at_the_first_use() {
    let mut bytes = header((1, 14, 0), &stored(0), TIME);
    bytes[8] = 0;
    assert_eq!(
        parse(bytes),
        Err(ArchiveError::InvalidData(Field::Compression, DecodeError::ConfigUnset))
    );
    let mut bytes = header((1, 15, 0), &[0], TIME);
    bytes[8] = 0;
    assert_eq!(
        parse(bytes),
        Err(ArchiveError::InvalidData(Field::CreateDate, DecodeError::ConfigUnset))
    );
}

fn entry_bytes(id: i64, section: i64, reserved: &str, dependencies: &[&str]) -> Vec<u8> {
    let mut bytes = stored(id);
    bytes.extend(stored(1));
    bytes.extend(text("3079"));
    bytes.extend(text("33708"));
    bytes.extend(text("pizza"));
    bytes.extend(text("TABLE"));
    bytes.extend(stored(section));
    for statement in ["CREATE", "DROP", "COPY", "public", "", "heap", "wichert"] {
        bytes.extend(text(statement));
    }
    bytes.extend(text(reserved));
    for dependency in dependencies {
        bytes.extend(text(dependency));
    }
    bytes.extend(stored(-1));
    bytes.push(2);
    bytes.extend_from_slice(&0x16d7u64.to_le_bytes());
    bytes
}

const CFG: ReadConfig = ReadConfig { int_size: 4, offset_size: 8 };

fn parse_entry(bytes: Vec<u8>) -> Result<TocEntry, ArchiveError> {
    TocEntry::parse(&mut ByteSource::new(bytes), &CFG)
}

#[test]
fn entry_fields_are_read_in_order() {
    let entry = parse_entry(entry_bytes(7, 4, "false", &["1", "22", "+333"])).unwrap();
    assert_eq!(entry.id, 7);
    assert!(entry.had_dumper);
    assert_eq!((entry.table_oid, entry.oid), (3079, 33708));
    assert_eq!((entry.tag.as_str(), entry.desc.as_str()), ("pizza", "TABLE"));
    assert_eq!(entry.section, Section::PostData);
    assert_eq!(entry.defn, "CREATE");
    assert_eq!(entry.drop_stmt, "DROP");
    assert_eq!(entry.copy_stmt, "COPY");
    assert_eq!(entry.namespace, "public");
    assert_eq!(entry.tablespace, "");
    assert_eq!(entry.table_access_method, "heap");
    assert_eq!(entry.owner, "wichert");
    assert_eq!(entry.dependencies, vec![1, 22, 333]);
    assert_eq!(entry.offset, pgarchive::Offset::PosSet(0x16d7));
}

#[test]
fn sections_are_numbered_from_one() {
    assert_eq!(Section::try_from(1), Ok(Section::Unassigned));
    assert_eq!(Section::try_from(2), Ok(Section::PreData));
    assert_eq!(Section::try_from(3), Ok(Section::Data));
    assert_eq!(Section::try_from(4), Ok(Section::PostData));
    assert_eq!(Section::try_from(0), Err(()));
    assert_eq!(Section::try_from(5), Err(()));
    assert_eq!(Section::try_from(-1), Err(()));
    assert_eq!(
        parse_entry(entry_bytes(7, 5, "false", &[])),
        Err(ArchiveError::InvalidEntryData(7, Field::Section, DecodeError::InvalidTag))
    );
}

#[test]
fn entry_errors_name_the_id_and_the_field() {
    assert_eq!(
        parse_entry(entry_bytes(-7, 2, "false", &[])),
        Err(ArchiveError::InvalidData(Field::Id, DecodeError::InvalidId))
    );
    assert_eq!(
        parse_entry(entry_bytes(7, 2, "true", &[])),
        Err(ArchiveError::InvalidEntryData(7, Field::Reserved, DecodeError::ReservedFlagSet))
    );
    assert!(parse_entry(entry_bytes(7, 2, "TRUE", &[])).is_ok());
    assert_eq!(
        parse_entry(entry_bytes(7, 2, "false", &["12", "x"])),
        Err(ArchiveError::InvalidEntryData(7, Field::Dependencies, DecodeError::InvalidId))
    );
    assert_eq!(
        parse_entry(entry_bytes(7, 2, "false", &["-12"])),
        Err(ArchiveError::InvalidEntryData(7, Field::Dependencies, DecodeError::InvalidId))
    );
    assert_eq!(
        parse_entry(entry_bytes(7, 2, "false", &["9223372036854775808"])),
        Err(ArchiveError::InvalidEntryData(7, Field::Dependencies, DecodeError::InvalidId))
    );
    let whole = entry_bytes(7, 2, "false", &["12"]);
    let mut bytes = whole.clone();
    let tag_at = bytes.len() - 9;
    bytes[tag_at] = 9;
    assert_eq!(
        parse_entry(bytes),
        Err(ArchiveError::InvalidEntryData(7, Field::Offset, DecodeError::InvalidTag))
    );
    assert_eq!(
        parse_entry(whole[..3].to_vec()),
        Err(ArchiveError::InvalidData(Field::Id, DecodeError::Truncated))
    );
    assert_eq!(
        parse_entry(whole[..7].to_vec()),
        Err(ArchiveError::InvalidEntryData(7, Field::HadDumper, DecodeError::Truncated))
    );
    assert_eq!(
        parse_entry(whole[..12].to_vec()),
        Err(ArchiveError::InvalidEntryData(7, Field::TableOid, DecodeError::Truncated))
    );
    assert_eq!(
        parse_entry(whole[..whole.len() - 1].to_vec()),
        Err(ArchiveError::InvalidEntryData(7, Field::Offset, DecodeError::Truncated))
    );
    let mut bytes = whole.clone();
    bytes[15] = b'x';
    assert_eq!(
        parse_entry(bytes),
        Err(ArchiveError::InvalidEntryData(7, Field::TableOid, DecodeError::InvalidId))
    );
    let mut bytes = whole;
    bytes[34] = 0xff;
    assert_eq!(
        parse_entry(bytes),
        Err(ArchiveError::InvalidEntryData(7, Field::Tag, DecodeError::InvalidEncoding))
    );
}

#[test]
fn table_of_contents_holds_the_entries_in_order() {
    let mut bytes = stored(3);
    for id in [5, 3, 9] {
        bytes.extend(entry_bytes(id, 2, "false", &[]));
    }
    let len = bytes.len();
    bytes.extend_from_slice(b"data");
    let mut input = ByteSource::new(bytes);
    let toc = read_toc(&mut input, &CFG).unwrap();
    assert_eq!(toc.iter().map(|e| e.id).collect::<Vec<i64>>(), vec![5, 3, 9]);
    assert_eq!(input.position(), len);
}

#[test]
fn table_of_contents_fails_as_its_first_bad_entry() {
    let mut bytes = stored(3);
    bytes.extend(entry_bytes(5, 2, "false", &[]));
    bytes.extend(entry_bytes(6, 9, "false", &[]));
    bytes.extend(entry_bytes(7, 2, "true", &[]));
    let mut input = ByteSource::new(bytes);
    assert_eq!(
        read_toc(&mut input, &CFG),
        Err(ArchiveError::InvalidEntryData(6, Field::Section, DecodeError::InvalidTag))
    );
    assert_eq!(input.position(), 0);
    let mut bytes = stored(2);
    bytes.extend(entry_bytes(5, 2, "false", &[]));
    assert_eq!(
        read_toc(&mut ByteSource::new(bytes), &CFG),
        Err(ArchiveError::InvalidData(Field::Id, DecodeError::Truncated))
    );
    assert_eq!(
        read_toc(&mut ByteSource::new(stored(-1)), &CFG),
        Err(ArchiveError::InvalidData(Field::TocCount, DecodeError::InvalidLength))
    );
    assert_eq!(
        read_toc(&mut ByteSource::new(vec![0, 0]), &CFG),
        Err(ArchiveError::InvalidData(Field::TocCount, DecodeError::Truncated))
    );
    assert_eq!(
        read_toc(&mut ByteSource::new(stored(0)), &ReadConfig::new()),
        Err(ArchiveError::InvalidData(Field::TocCount, DecodeError::ConfigUnset))
    );
}

#[test]
fn archive_is_header_and_table_of_contents() {
    let mut bytes = header((1, 16, 0), &[1], TIME);
    bytes.extend(stored(2));
    bytes.extend(entry_bytes(5, 2, "false", &[]));
    bytes.extend(entry_bytes(6, 3, "false", &["5"]));
    let len = bytes.len();
    let mut input = ByteSource::new(bytes.clone());
    let archive = Archive::parse(&mut input).unwrap();
    assert_eq!(input.position(), len);
    assert_eq!(archive.version, (1, 16, 0));
    assert_eq!(archive.compression_method, CompressionMethod::Gzip(0));
    assert_eq!(archive.database_name, "pizza");
    assert_eq!(archive.io_config, CFG);
    assert_eq!(archive.toc_entries.len(), 2);
    assert_eq!(archive.toc_entries[1].dependencies, vec![5]);
    assert_eq!(archive.find_toc_index(Section::Data, "TABLE", "pizza"), Some(1));
    let mut input = ByteSource::new(bytes[..len - 1].to_vec());
    assert_eq!(
        Archive::parse(&mut input),
        Err(ArchiveError::InvalidEntryData(6, Field::Offset, DecodeError::Truncated))
    );
    assert_eq!(input.position(), 0);
}
