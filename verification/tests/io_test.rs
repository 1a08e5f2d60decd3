use pgarchive::{ByteSource, DecodeError, Offset, ReadConfig};

fn source(bytes: &[u8]) -> ByteSource {
    ByteSource::new(bytes.to_vec())
}

#[test]
fn read_byte() -> Result<(), DecodeError> {
    let cfg = ReadConfig::new();

    // valid
    let mut input = source(b"\x42");
    assert_eq!(cfg.read_byte(&mut input)?, 0x42);

    // not enough data
    input = source(b"");
    assert!(cfg.read_byte(&mut input).is_err());
    Ok(())
}

#[test]
fn read_int() -> Result<(), DecodeError> {
    let mut cfg = ReadConfig::new();

    // no int_size set
    let mut input = source(b"\x01\x02\x03\x04");
    assert!(cfg.read_int(&mut input).is_err());

    // positive int
    cfg.int_size = 2;
    input = source(b"\x00\x01\x02");
    assert_eq!(cfg.read_int(&mut input)?, 0x0201);

    // negative int
    input = source(b"\x01\x01\x02");
    assert_eq!(cfg.read_int(&mut input)?, -0x0201);

    // not enough data
    input = source(b"\x00");
    assert!(cfg.read_int(&mut input).is_err());

    Ok(())
}

#[test]
fn read_string() -> Result<(), DecodeError> {
    let mut cfg: ReadConfig = ReadConfig::new();

    // no int_size set
    let mut input = source(b"\x01\x02\x03\x04");
    assert!(cfg.read_string(&mut input).is_err());

    // empty string
    cfg.int_size = 2;
    input = source(b"\x01\x01\x00");
    assert_eq!(cfg.read_string(&mut input)?, "");

    // negative length
    input = source(b"\x01\x02\x00");
    assert!(cfg.read_string(&mut input).is_err());

    // valid string
    input = source(b"\x00\x0d\x00hello, world!");
    assert_eq!(cfg.read_string(&mut input)?, "hello, world!");

    // not enough data
    input = source(b"\x00");
    assert!(cfg.read_string(&mut input).is_err());

    Ok(())
}

#[test]
fn read_int_bool() -> Result<(), DecodeError> {
    let mut cfg: ReadConfig = ReadConfig::new();

    // no int_size set
    let mut input = source(b"\x01\x01\x00");
    assert!(cfg.read_int_bool(&mut input).is_err());

    // postive value
    cfg.int_size = 2;
    input = source(b"\x01\x01\x00");
    assert_eq!(cfg.read_int_bool(&mut input)?, true);

    // negative value
    input = source(b"\x01\x02\x00");
    assert_eq!(cfg.read_int_bool(&mut input)?, true);

    // zero is false
    input = source(b"\x00\x00\x00");
    assert_eq!(cfg.read_int_bool(&mut input)?, false);

    // not enough data
    input = source(b"\x00");
    assert!(cfg.read_int_bool(&mut input).is_err());

    Ok(())
}

#[test]
fn read_string_bool() -> Result<(), DecodeError> {
    let mut cfg: ReadConfig = ReadConfig::new();

    // no int_size set
    let mut input = source(b"\x00\x04\x00true");
    assert!(cfg.read_string_bool(&mut input).is_err());

    // true
    cfg.int_size = 2;
    input = source(b"\x00\x04\x00true");
    assert_eq!(cfg.read_string_bool(&mut input)?, true);

    // false
    input = source(b"\x00\x05\x00false");
    assert_eq!(cfg.read_string_bool(&mut input)?, false);

    // other text
    input = source(b"\x00\x04\x00oops");
    assert_eq!(cfg.read_string_bool(&mut input)?, false);

    // not enough data
    input = source(b"\x00");
    assert!(cfg.read_string_bool(&mut input).is_err());

    Ok(())
}

#[test]
fn read_oid() -> Result<(), DecodeError> {
    let mut cfg: ReadConfig = ReadConfig::new();

    // no int_size set
    let mut input = source(b"\x01\x02\x03\x04");
    assert!(cfg.read_oid(&mut input).is_err());

    // positive number
    cfg.int_size = 2;
    input = source(b"\x00\x04\x001234");
    assert_eq!(cfg.read_oid(&mut input)?, 1234);

    // negative number
    input = source(b"\x00\x05\x00-1234");
    assert!(cfg.read_oid(&mut input).is_err());

    // bad number
    input = source(b"\x00\x05\x00x1234");
    assert!(cfg.read_oid(&mut input).is_err());

    // not enough data
    input = source(b"\x00");
    assert!(cfg.read_oid(&mut input).is_err());

    Ok(())
}

#[test]
fn read_offset() -> Result<(), DecodeError> {
    let mut cfg: ReadConfig = ReadConfig::new();

    // no offset_size set
    let mut input = source(b"\x01\x02\x03\x04");
    assert!(cfg.read_offset(&mut input).is_err());

    // valid offset, no flag
    cfg.offset_size = 2;
    input = source(b"\x00\x01\x02");
    assert_eq!(cfg.read_offset(&mut input)?, Offset::Unknown);

    // valid offset, pos-not-set flag
    input = source(b"\x01\x01\x02");
    assert_eq!(cfg.read_offset(&mut input)?, Offset::PosNotSet);

    // valid offset, pos-set flag
    input = source(b"\x02\x01\x02");
    assert_eq!(cfg.read_offset(&mut input)?, Offset::PosSet(513));

    // valid offset, no-data flag
    input = source(b"\x03\x01\x02");
    assert_eq!(cfg.read_offset(&mut input)?, Offset::NoData);

    // not enough data
    input = source(b"\x00");
    assert!(cfg.read_offset(&mut input).is_err());

    Ok(())
}
