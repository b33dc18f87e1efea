use sqlite_exec::column_value::ColumnValue;
use sqlite_exec::error::Error;
use sqlite_exec::key::int_value_exec;

#[test]
fn test_parse_col_value_null() {
    let (value, size) = ColumnValue::parse(0, b"").unwrap();
    assert_eq!(size, 0);
    assert_eq!(value, ColumnValue::Null);
}

#[test]
fn test_parse_col_value_zero() {
    let (value, size) = ColumnValue::parse(8, b"123").unwrap();
    assert_eq!(size, 0);
    assert_eq!(value, ColumnValue::Zero);
}

#[test]
fn test_parse_col_value_one() {
    let (value, size) = ColumnValue::parse(9, b"33").unwrap();
    assert_eq!(size, 0);
    assert_eq!(value, ColumnValue::One);
}

#[test]
fn test_parse_col_value_blob() {
    // one byte: len 1 * 2 + 12 -> serial type 14
    // should parse only the first byte and ignore the second
    let (value, size) = ColumnValue::parse(14, b"12").unwrap();
    assert_eq!(size, 1);
    assert_eq!(value, ColumnValue::Blob(vec![b'1']));
}

#[test]
fn test_parse_col_value_text() {
    // hello: len 5 * 2 + 13 -> serial type 23
    // should parse only hello and ignore hi
    let (value, size) = ColumnValue::parse(23, b"hellohi").unwrap();
    assert_eq!(size, 5);
    assert_eq!(value, ColumnValue::Text("hello".to_owned()));
}

#[test]
fn test_parse_reserved_serial_types_fail() {
    assert_eq!(ColumnValue::parse(10, b"xxxx"), Err(Error::InvalidSerialType(10)));
    assert_eq!(ColumnValue::parse(11, b"xxxx"), Err(Error::InvalidSerialType(11)));
    assert_eq!(ColumnValue::parse(-1, b"xxxx"), Err(Error::InvalidSerialType(-1)));
    assert_eq!(ColumnValue::parse(-300, b""), Err(Error::InvalidSerialType(-300)));
}

#[test]
fn test_parse_truncated_buffers_fail() {
    assert_eq!(ColumnValue::parse(1, b""), Err(Error::TruncatedRecord));
    assert_eq!(ColumnValue::parse(4, b"abc"), Err(Error::TruncatedRecord));
    assert_eq!(ColumnValue::parse(5, b"abcde"), Err(Error::TruncatedRecord));
    assert_eq!(ColumnValue::parse(6, b"1234567"), Err(Error::TruncatedRecord));
    assert_eq!(ColumnValue::parse(7, b"1234567"), Err(Error::TruncatedRecord));
    assert_eq!(ColumnValue::parse(16, b"a"), Err(Error::TruncatedRecord));
    assert_eq!(ColumnValue::parse(17, b"a"), Err(Error::TruncatedRecord));
}

#[test]
fn test_parse_consumes_documented_width_despite_trailing_content() {
    let buffer: Vec<u8> = (0u8..64u8).collect();
    let widths: Vec<(i64, usize)> = vec![
        (0, 0),
        (1, 1),
        (2, 2),
        (3, 3),
        (4, 4),
        (5, 6),
        (6, 8),
        (7, 8),
        (8, 0),
        (9, 0),
        (12, 0),
        (14, 1),
        (20, 4),
        (13, 0),
        (15, 1),
        (23, 5),
    ];
    for (serial_type, width) in widths {
        let (_, size) = ColumnValue::parse(serial_type, &buffer).unwrap();
        assert_eq!(size, width);
    }
}

#[test]
fn test_parse_text_with_invalid_utf8_never_fails() {
    // serial type 19 -> text of (19 - 13) / 2 = 3 bytes, none valid UTF-8
    let (value, size) = ColumnValue::parse(19, &[0xff, 0xfe, b'a', b'Z']).unwrap();
    assert_eq!(size, 3);
    assert_eq!(value, ColumnValue::Text("\u{FFFD}\u{FFFD}a".to_owned()));
}

#[test]
fn test_parse_float_keeps_raw_bytes() {
    let bytes = [0x3f, 0xf0, 0, 0, 0, 0, 0, 0, 0xAA, 0xBB];
    let (value, size) = ColumnValue::parse(7, &bytes).unwrap();
    assert_eq!(size, 8);
    assert_eq!(value, ColumnValue::Float64([0x3f, 0xf0, 0, 0, 0, 0, 0, 0]));
}

#[test]
fn test_parse_decodes_big_endian_signed_integers() {
    let (v, size) = ColumnValue::parse(2, &[0x01, 0x00]).unwrap();
    assert_eq!(size, 2);
    assert_eq!(int_value_exec(&v), Some(256));

    let (v, _) = ColumnValue::parse(3, &[0xff, 0xff, 0xfe]).unwrap();
    assert_eq!(int_value_exec(&v), Some(-2));

    let (v, _) = ColumnValue::parse(1, &[0x80]).unwrap();
    assert_eq!(int_value_exec(&v), Some(-128));

    let (v, _) = ColumnValue::parse(6, &(-123456789012345i64).to_be_bytes()).unwrap();
    assert_eq!(int_value_exec(&v), Some(-123456789012345));

    let (v, _) = ColumnValue::parse(5, &[0x7f, 0xff, 0xff, 0xff, 0xff, 0xff]).unwrap();
    assert_eq!(int_value_exec(&v), Some(0x7fffffffffff));
}

#[test]
fn test_integer_constructors_round_trip() {
    assert_eq!(int_value_exec(&ColumnValue::int32(-5)), Some(-5));
    assert_eq!(int_value_exec(&ColumnValue::int32(i32::MAX)), Some(i32::MAX as i64));
    assert_eq!(int_value_exec(&ColumnValue::int32(i32::MIN)), Some(i32::MIN as i64));
    assert_eq!(int_value_exec(&ColumnValue::int8(-128)), Some(-128));
    assert_eq!(int_value_exec(&ColumnValue::int8(127)), Some(127));
    assert_eq!(int_value_exec(&ColumnValue::int64(i64::MIN)), Some(i64::MIN));
    assert_eq!(int_value_exec(&ColumnValue::int64(i64::MAX)), Some(i64::MAX));
    assert_eq!(ColumnValue::int32(7), ColumnValue::Int32(7i32.to_be_bytes()));
    assert_eq!(ColumnValue::int8(-1), ColumnValue::Int8([0xff]));
    assert_eq!(int_value_exec(&ColumnValue::Zero), Some(0));
    assert_eq!(int_value_exec(&ColumnValue::One), Some(1));
    assert_eq!(int_value_exec(&ColumnValue::Null), None);
    assert_eq!(int_value_exec(&ColumnValue::Text("1".to_owned())), None);
}
