use pgarchive::codec::{byte_at, int_at, number_at, offset_at, parse_decimal, string_at};
use pgarchive::{ByteSource, DecodeError, Offset, ReadConfig};

fn stored_int(sign: u8, magnitude: u64, int_size: usize) -> Vec<u8> {
    let mut bytes = vec![sign];
    for i in 0..int_size {
        bytes.push(if i < 8 { (magnitude >> (8 * i)) as u8 } else { 0 });
    }
    bytes
}

#[test]
fn int_is_read_back_for_each_width() {
    for int_size in 1..=10usize {
        let top: u64 = if int_size >= 8 { i64::MAX as u64 } else { (1u64 << (8 * int_size)) - 1 };
        for magnitude in [0u64, 1, 0x7f, top / 3, top] {
            for sign in [0u8, 1, 0xff] {
                let bytes = stored_int(sign, magnitude, int_size);
                let expected = if sign != 0 { -(magnitude as i64) } else { magnitude as i64 };
                assert_eq!(int_at(&bytes, 0, int_size), Ok((expected, 1 + int_size)));
            }
        }
    }
}

#[test]
fn zero_magnitude_reads_as_zero_whatever_the_sign() {
    assert_eq!(int_at(&[0, 0, 0, 0, 0], 0, 4), Ok((0, 5)));
    assert_eq!(int_at(&[1, 0, 0, 0, 0], 0, 4), Ok((0, 5)));
    assert_eq!(int_at(&[0xff, 0, 0, 0, 0], 0, 4), Ok((0, 5)));
}

#[test]
fn int_at_exact_values() {
    assert_eq!(int_at(&[9, 9, 0, 0x8e, 0x11, 0, 0], 2, 4), Ok((0x118e, 7)));
    assert_eq!(int_at(&[1, 0xff, 0xff, 0xff, 0xff, 0xff, 0xff, 0xff, 0x7f], 0, 8), Ok((-i64::MAX, 9)));
    assert_eq!(int_at(&[0, 0xff, 0xff, 0xff, 0xff, 0xff, 0xff, 0xff, 0x7f], 0, 8), Ok((i64::MAX, 9)));
}

#[test]
fn int_that_does_not_fit_is_an_overflow() {
    assert_eq!(int_at(&[0, 0, 0, 0, 0, 0, 0, 0, 0x80], 0, 8), Err(DecodeError::Overflow));
    assert_eq!(int_at(&[1, 0, 0, 0, 0, 0, 0, 0, 0x80], 0, 8), Ok((i64::MIN, 9)));
    assert_eq!(int_at(&[1, 1, 0, 0, 0, 0, 0, 0, 0x80], 0, 8), Err(DecodeError::Overflow));
    assert_eq!(int_at(&[1, 0xff, 0xff, 0xff, 0xff, 0xff, 0xff, 0xff, 0xff], 0, 8), Err(DecodeError::Overflow));
    assert_eq!(int_at(&[0, 0, 0, 0, 0, 0, 0, 0, 0, 1], 0, 9), Err(DecodeError::Overflow));
    assert_eq!(int_at(&[0, 5, 0, 0, 0, 0, 0, 0, 0, 0], 0, 9), Ok((5, 10)));
}

#[test]
fn int_errors_come_in_order() {
    assert_eq!(int_at(&[], 0, 0), Err(DecodeError::ConfigUnset));
    assert_eq!(int_at(&[0, 1], 0, 2), Err(DecodeError::Truncated));
    assert_eq!(int_at(&[0, 1, 2], 1, 2), Err(DecodeError::Truncated));
    assert_eq!(int_at(&[0, 1, 2], 7, 2), Err(DecodeError::Truncated));
    assert_eq!(int_at(&[0, 1, 2], usize::MAX, usize::MAX), Err(DecodeError::Truncated));
}

#[test]
fn byte_at_reads_one_byte() {
    assert_eq!(byte_at(&[7, 8], 1), Ok((8, 2)));
    assert_eq!(byte_at(&[7, 8], 2), Err(DecodeError::Truncated));
    assert_eq!(byte_at(&[], usize::MAX), Err(DecodeError::Truncated));
}

#[test]
fn string_of_length_minus_one_is_empty_and_has_no_body() {
    let bytes = [1, 1, 0, b'x', b'y'];
    assert_eq!(string_at(&bytes, 0, 2), Ok((String::new(), 3)));
    let cfg = ReadConfig { int_size: 2, offset_size: 0 };
    let mut input = ByteSource::new(bytes.to_vec());
    assert_eq!(cfg.read_string(&mut input), Ok(String::new()));
    assert_eq!(input.position(), 3);
}

#[test]
fn string_of_length_minus_two_is_invalid() {
    assert_eq!(string_at(&[1, 2, 0, b'x', b'y'], 0, 2), Err(DecodeError::InvalidLength));
    assert_eq!(string_at(&[1, 0xff, 0x7f], 0, 2), Err(DecodeError::InvalidLength));
    let cfg = ReadConfig { int_size: 2, offset_size: 0 };
    let mut input = ByteSource::new(vec![1, 2, 0]);
    assert_eq!(cfg.read_string(&mut input), Err(DecodeError::InvalidLength));
    assert_eq!(input.position(), 0);
}

#[test]
fn string_of_length_zero_is_empty() {
    assert_eq!(string_at(&[0, 0, 0, b'x'], 0, 2), Ok((String::new(), 3)));
}

#[test]
fn string_errors() {
    assert_eq!(string_at(&[0, 2, 0, b'x'], 0, 2), Err(DecodeError::Truncated));
    assert_eq!(string_at(&[0, 2, 0, 0xc3, 0x28], 0, 2), Err(DecodeError::InvalidEncoding));
    assert_eq!(string_at(&[0, 2, 0, 0xc3, 0xa9], 0, 2), Ok((String::from("\u{e9}"), 5)));
    assert_eq!(string_at(&[0, 2, 0, b'a', b'b'], 0, 0), Err(DecodeError::ConfigUnset));
}

#[test]
fn decimal_texts() {
    assert_eq!(parse_decimal(b"0", u64::MAX), Some(0));
    assert_eq!(parse_decimal(b"1234", u64::MAX), Some(1234));
    assert_eq!(parse_decimal(b"+1234", u64::MAX), Some(1234));
    assert_eq!(parse_decimal(b"0012", u64::MAX), Some(12));
    assert_eq!(parse_decimal(b"18446744073709551615", u64::MAX), Some(u64::MAX));
    assert_eq!(parse_decimal(b"18446744073709551616", u64::MAX), None);
    assert_eq!(parse_decimal(b"9223372036854775807", i64::MAX as u64), Some(i64::MAX as u64));
    assert_eq!(parse_decimal(b"9223372036854775808", i64::MAX as u64), None);
    assert_eq!(parse_decimal(b"", u64::MAX), None);
    assert_eq!(parse_decimal(b"+", u64::MAX), None);
    assert_eq!(parse_decimal(b"-1", u64::MAX), None);
    assert_eq!(parse_decimal(b"++1", u64::MAX), None);
    assert_eq!(parse_decimal(b"12a", u64::MAX), None);
    assert_eq!(parse_decimal(b" 12", u64::MAX), None);
    assert_eq!(parse_decimal(b"7", 6), None);
    assert_eq!(parse_decimal(b"6", 6), Some(6));
}

#[test]
fn numeric_field_errors() {
    assert_eq!(number_at(b"\x00\x04\x001234", 0, 2, u64::MAX), Ok((1234, 7)));
    assert_eq!(number_at(b"\x00\x05\x00-1234", 0, 2, u64::MAX), Err(DecodeError::InvalidId));
    assert_eq!(number_at(b"\x00\x00\x00", 0, 2, u64::MAX), Err(DecodeError::InvalidId));
    assert_eq!(number_at(b"\x01\x01\x00", 0, 2, u64::MAX), Err(DecodeError::InvalidId));
    assert_eq!(number_at(b"\x00\x01\x00\xff", 0, 2, u64::MAX), Err(DecodeError::InvalidEncoding));
    assert_eq!(number_at(b"\x00\x04\x0012", 0, 2, u64::MAX), Err(DecodeError::Truncated));
}

#[test]
fn every_offset_tag_takes_the_tag_and_the_magnitude() {
    for offset_size in 1..=8usize {
        for (tag, expected) in [
            (0u8, Offset::Unknown),
            (1, Offset::PosNotSet),
            (2, Offset::PosSet(0x2a)),
            (3, Offset::NoData),
        ] {
            let mut bytes = vec![tag, 0x2a];
            bytes.resize(1 + offset_size, 0);
            bytes.push(0x99);
            assert_eq!(offset_at(&bytes, 0, offset_size), Ok((expected, 1 + offset_size)));
            let cfg = ReadConfig { int_size: 0, offset_size };
            let mut input = ByteSource::new(bytes);
            assert_eq!(cfg.read_offset(&mut input), Ok(expected));
            assert_eq!(input.position(), 1 + offset_size);
        }
    }
}

#[test]
fn offset_tags_but_two_ignore_the_magnitude() {
    let wide = [0u8, 1, 2, 3, 4, 5, 6, 7, 8, 9, 10];
    assert_eq!(offset_at(&wide, 0, 10), Ok((Offset::Unknown, 11)));
    let mut bytes = wide;
    bytes[0] = 1;
    assert_eq!(offset_at(&bytes, 0, 10), Ok((Offset::PosNotSet, 11)));
    bytes[0] = 3;
    assert_eq!(offset_at(&bytes, 0, 10), Ok((Offset::NoData, 11)));
    bytes[0] = 2;
    assert_eq!(offset_at(&bytes, 0, 10), Err(DecodeError::Overflow));
    assert_eq!(
        offset_at(&[2, 0xd7, 0x16, 0, 0, 0, 0, 0, 0], 0, 8),
        Ok((Offset::PosSet(0x16d7), 9))
    );
    assert_eq!(offset_at(&[2, 0xff, 0xff, 0xff, 0xff, 0xff, 0xff, 0xff, 0xff], 0, 8), Ok((Offset::PosSet(u64::MAX), 9)));
}

#[test]
fn offset_errors() {
    assert_eq!(offset_at(&[4, 0, 0], 0, 2), Err(DecodeError::InvalidTag));
    assert_eq!(offset_at(&[0xff, 0, 0], 0, 2), Err(DecodeError::InvalidTag));
    assert_eq!(offset_at(&[4, 0], 0, 2), Err(DecodeError::Truncated));
    assert_eq!(offset_at(&[0, 0, 0], 0, 0), Err(DecodeError::ConfigUnset));
}

#[test]
fn nothing_is_read_before_the_widths_are_known() {
    let cfg = ReadConfig::new();
    assert_eq!(cfg, ReadConfig { int_size: 0, offset_size: 0 });
    assert_eq!(ReadConfig::default(), cfg);
    let bytes = b"\x00\x04\x00\x00\x00true".to_vec();
    let mut input = ByteSource::new(bytes);
    assert_eq!(cfg.read_int(&mut input), Err(DecodeError::ConfigUnset));
    assert_eq!(pgarchive::io::read_int(&mut input, 0), Err(DecodeError::ConfigUnset));
    assert_eq!(cfg.read_string(&mut input), Err(DecodeError::ConfigUnset));
    assert_eq!(cfg.read_int_bool(&mut input), Err(DecodeError::ConfigUnset));
    assert_eq!(cfg.read_string_bool(&mut input), Err(DecodeError::ConfigUnset));
    assert_eq!(cfg.read_oid(&mut input), Err(DecodeError::ConfigUnset));
    assert_eq!(cfg.read_offset(&mut input), Err(DecodeError::ConfigUnset));
    assert_eq!(input.position(), 0);
    // One byte needs no width.
    assert_eq!(cfg.read_byte(&mut input), Ok(0));
    assert_eq!(input.position(), 1);
}

#[test]
fn a_failed_read_leaves_the_cursor() {
    let cfg = ReadConfig { int_size: 2, offset_size: 2 };
    let mut input = ByteSource::new(b"\x00\x09\x00short".to_vec());
    assert_eq!(cfg.read_string(&mut input), Err(DecodeError::Truncated));
    assert_eq!(input.position(), 0);
    assert_eq!(cfg.read_int(&mut input), Ok(9));
    assert_eq!(input.position(), 3);
    assert_eq!(input.remaining(), 5);
    input.seek(100);
    assert_eq!(input.remaining(), 0);
    assert_eq!(cfg.read_byte(&mut input), Err(DecodeError::Truncated));
    assert_eq!(input.position(), 100);
}

#[test]
fn free_read_int_uses_the_width_given() {
    let mut input = ByteSource::new(vec![1, 0x10, 0, 0, 5]);
    assert_eq!(pgarchive::io::read_int(&mut input, 3), Ok(-16));
    assert_eq!(input.position(), 4);
    assert_eq!(pgarchive::io::read_int(&mut input, 3), Err(DecodeError::Truncated));
}
