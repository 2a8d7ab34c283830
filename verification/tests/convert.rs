use lune_std_ffi::c::c_type::{CType, CTypeKind, CTypeSignedness};
use lune_std_ffi::c::types::i64::create_type;
use lune_std_ffi::error::{ConversionFailure, FfiError};
use lune_std_ffi::ffi::ffi_native::bytes::ByteOrder;
use lune_std_ffi::ffi::ffi_native::NativeConvert;
use lune_std_ffi::value::{DynamicValue, ValueKind};

fn i8_type() -> CType<i8> {
    CType::<i8>::new(Some("i8"))
}

fn i64_type() -> CType<i64> {
    create_type().1
}

fn unsupported(kind: ValueKind) -> FfiError {
    FfiError::ConversionError(ConversionFailure::UnsupportedKind(kind))
}

#[test]
fn descriptors_describe_their_types() {
    let (name, long) = create_type();
    assert_eq!(name, "i64");
    assert_eq!(long.name(), Some("i64"));
    assert_eq!(long.size(), 8);
    assert_eq!(long.get_size(), 8);
    assert_eq!(long.alignment(), std::mem::align_of::<i64>());
    assert!(long.get_signedness());
    assert_eq!(long.kind(), CTypeKind::I64);
    let short = i8_type();
    assert_eq!(short.name(), Some("i8"));
    assert_eq!(short.size(), 1);
    assert_eq!(short.get_size(), 1);
    assert_eq!(short.alignment(), 1);
    assert!(short.get_signedness());
    assert_eq!(short.kind(), CTypeKind::I8);
    assert_eq!(CType::<i8>::new(None).name(), None);
}

#[test]
fn kinds_are_found_by_name() {
    assert_eq!(CTypeKind::from_name("i8"), Some(CTypeKind::I8));
    assert_eq!(CTypeKind::from_name("i64"), Some(CTypeKind::I64));
    assert_eq!(CTypeKind::from_name("I64"), None);
    assert_eq!(CTypeKind::from_name("i6"), None);
    assert_eq!(CTypeKind::from_name(""), None);
    assert_eq!(CTypeKind::from_name("not-a-type"), None);
    for kind in [CTypeKind::I8, CTypeKind::I64] {
        assert_eq!(CTypeKind::from_name(kind.name()), Some(kind));
    }
}

fn little() -> CType<i64> {
    CType::<i64>::with_order(Some("i64"), ByteOrder::LittleEndian)
}

fn big() -> CType<i64> {
    CType::<i64>::with_order(Some("i64"), ByteOrder::BigEndian)
}

#[test]
fn the_native_order_is_that_of_the_machine() {
    let expected = if 1u16.to_ne_bytes()[0] == 1 {
        ByteOrder::LittleEndian
    } else {
        ByteOrder::BigEndian
    };
    assert_eq!(ByteOrder::native(), expected);
    assert_eq!(ByteOrder::from_probe(u16::from_ne_bytes([1, 0])), expected);
    assert_eq!(ByteOrder::from_probe(1), ByteOrder::LittleEndian);
    assert_eq!(ByteOrder::from_probe(256), ByteOrder::BigEndian);
    assert_eq!(i64_type().order(), expected);
    assert_eq!(i8_type().order(), expected);
    assert_eq!(little().order(), ByteOrder::LittleEndian);
    assert_eq!(big().order(), ByteOrder::BigEndian);
}

#[test]
fn i64_lies_in_memory_as_the_machine_lays_it() {
    let ctype = i64_type();
    let mut data = vec![0u8; 8];
    for v in [0i64, 1, -1, 0x0102_0304_0506_0708, i64::MAX, i64::MIN, -0x1234_5678] {
        ctype.luavalue_into(0, &mut data, &DynamicValue::Integer(v)).unwrap();
        assert_eq!(data, v.to_ne_bytes().to_vec());
        assert_eq!(ctype.luavalue_from(0, &data), Ok(DynamicValue::Integer(v)));
    }
}

#[test]
fn i64_is_written_most_significant_byte_first_where_asked() {
    let ctype = big();
    let mut data = vec![0xaau8; 10];
    ctype.luavalue_into(1, &mut data, &DynamicValue::Integer(0x0102_0304_0506_0708)).unwrap();
    assert_eq!(data, vec![0xaa, 1, 2, 3, 4, 5, 6, 7, 8, 0xaa]);
    ctype.luavalue_into(0, &mut data, &DynamicValue::Integer(-2)).unwrap();
    assert_eq!(data, vec![0xff, 0xff, 0xff, 0xff, 0xff, 0xff, 0xff, 0xfe, 8, 0xaa]);
    assert_eq!(ctype.luavalue_from(0, &data), Ok(DynamicValue::Integer(-2)));
    assert_eq!(ctype.luavalue_from(2, &data), Ok(DynamicValue::Integer(-128854)));
    for v in [0i64, 1, -1, 255, 256, i64::MAX, i64::MIN, 1 << 40] {
        ctype.luavalue_into(1, &mut data, &DynamicValue::Integer(v)).unwrap();
        assert_eq!(data[1..9].to_vec(), v.to_be_bytes().to_vec());
        assert_eq!(ctype.luavalue_from(1, &data), Ok(DynamicValue::Integer(v)));
    }
}

#[test]
fn i64_is_written_least_significant_byte_first() {
    let ctype = little();
    let mut data = vec![0xaau8; 10];
    ctype.luavalue_into(1, &mut data, &DynamicValue::Integer(0x0102_0304_0506_0708)).unwrap();
    assert_eq!(data, vec![0xaa, 8, 7, 6, 5, 4, 3, 2, 1, 0xaa]);
    ctype.luavalue_into(0, &mut data, &DynamicValue::Integer(-2)).unwrap();
    assert_eq!(data, vec![0xfe, 0xff, 0xff, 0xff, 0xff, 0xff, 0xff, 0xff, 1, 0xaa]);
    ctype.luavalue_into_ptr(&DynamicValue::Integer(42), &mut data, 2).unwrap();
    assert_eq!(data, vec![0xfe, 0xff, 42, 0, 0, 0, 0, 0, 0, 0]);
}

#[test]
fn i64_is_read_as_it_lies_in_memory() {
    let ctype = little();
    let data = vec![0u8, 1, 0, 0, 0, 0, 0, 0, 0x80, 0xff];
    assert_eq!(ctype.luavalue_from(0, &data), Ok(DynamicValue::Integer(256)));
    assert_eq!(ctype.luavalue_from(1, &data), Ok(DynamicValue::Integer(i64::MIN + 1)));
    assert_eq!(ctype.ptr_into_luavalue(&data, 2), Ok(DynamicValue::Integer(-0x80_0000_0000_0000)));
    let native = i64::from_le_bytes([1, 0, 0, 0, 0, 0, 0, 0x80]);
    assert_eq!(ctype.luavalue_from(1, &data), Ok(DynamicValue::Integer(native)));
}

#[test]
fn i64_round_trip_over_the_range() {
    let ctype = little();
    let mut data = vec![0u8; 8];
    for v in [0i64, 1, -1, 42, 255, 256, -256, i64::MAX, i64::MIN, 9223372036854775807, 1 << 32] {
        ctype.luavalue_into(0, &mut data, &DynamicValue::Integer(v)).unwrap();
        assert_eq!(data, v.to_le_bytes().to_vec());
        assert_eq!(ctype.luavalue_from(0, &data), Ok(DynamicValue::Integer(v)));
    }
}

#[test]
fn i64_takes_numbers_as_the_integer_they_cast_to() {
    let ctype = i64_type();
    let mut data = vec![0u8; 8];
    for (number, expected) in [
        (42.9f64, 42i64),
        (-42.9, -42),
        (0.0, 0),
        (1e300, i64::MAX),
        (-1e300, i64::MIN),
        (f64::NAN, 0),
        (f64::INFINITY, i64::MAX),
    ] {
        ctype.luavalue_into(0, &mut data, &DynamicValue::Number(number as i64)).unwrap();
        assert_eq!(ctype.luavalue_from(0, &data), Ok(DynamicValue::Integer(expected)));
    }
}

#[test]
fn i64_parses_text_as_a_decimal_integer() {
    let ctype = i64_type();
    let mut data = vec![0u8; 8];
    let text = DynamicValue::Text(b"9223372036854775807".to_vec());
    ctype.luavalue_into(0, &mut data, &text).unwrap();
    assert_eq!(ctype.luavalue_from(0, &data), Ok(DynamicValue::Integer(9223372036854775807)));
    ctype.luavalue_into(0, &mut data, &DynamicValue::Text(b"-17".to_vec())).unwrap();
    assert_eq!(ctype.luavalue_from(0, &data), Ok(DynamicValue::Integer(-17)));
    // one digit is a number here, not a byte
    ctype.luavalue_into(0, &mut data, &DynamicValue::Text(b"7".to_vec())).unwrap();
    assert_eq!(ctype.luavalue_from(0, &data), Ok(DynamicValue::Integer(7)));
}

#[test]
fn i64_refuses_text_that_is_no_integer_and_leaves_memory() {
    let ctype = i64_type();
    let mut data = vec![7u8; 8];
    for text in ["", "abc", "1.5", "9223372036854775808", "-"] {
        let value = DynamicValue::Text(text.as_bytes().to_vec());
        assert_eq!(
            ctype.luavalue_into(0, &mut data, &value),
            Err(FfiError::ConversionError(ConversionFailure::Parse))
        );
        assert_eq!(data, vec![7u8; 8]);
    }
}

#[test]
fn i64_refuses_other_kinds_and_leaves_memory() {
    let ctype = i64_type();
    let mut data = vec![7u8; 8];
    for (value, kind) in [
        (DynamicValue::Nil, ValueKind::Nil),
        (DynamicValue::Boolean(true), ValueKind::Boolean),
        (DynamicValue::Other, ValueKind::Other),
    ] {
        assert_eq!(ctype.luavalue_into(0, &mut data, &value), Err(unsupported(kind)));
        assert_eq!(ctype.luavalue_into_ptr(&value, &mut data, 0), Err(unsupported(kind)));
        assert_eq!(data, vec![7u8; 8]);
    }
}

#[test]
fn i8_lies_in_one_byte_in_either_order() {
    for order in [ByteOrder::LittleEndian, ByteOrder::BigEndian] {
        let ctype = CType::<i8>::with_order(Some("i8"), order);
        let mut data = vec![0u8; 3];
        ctype.luavalue_into(1, &mut data, &DynamicValue::Integer(-2)).unwrap();
        assert_eq!(data, vec![0, 0xfe, 0]);
        assert_eq!(ctype.luavalue_from(1, &data), Ok(DynamicValue::Integer(-2)));
    }
}

#[test]
fn i8_keeps_the_low_eight_bits_of_an_integer() {
    let ctype = i8_type();
    let mut data = vec![0u8; 3];
    for (given, byte, read) in [
        (0i64, 0u8, 0i64),
        (127, 127, 127),
        (128, 128, -128),
        (255, 255, -1),
        (256, 0, 0),
        (300, 44, 44),
        (-1, 255, -1),
        (-128, 128, -128),
        (-129, 127, 127),
        (i64::MAX, 255, -1),
        (i64::MIN, 0, 0),
    ] {
        ctype.luavalue_into(1, &mut data, &DynamicValue::Integer(given)).unwrap();
        assert_eq!(data, vec![0, byte, 0]);
        assert_eq!(byte, given as i8 as u8);
        assert_eq!(ctype.luavalue_from(1, &data), Ok(DynamicValue::Integer(read)));
    }
}

#[test]
fn i8_round_trip_over_the_whole_range() {
    let ctype = i8_type();
    let mut data = vec![0u8; 1];
    for v in i8::MIN..=i8::MAX {
        ctype.luavalue_into(0, &mut data, &DynamicValue::Integer(v as i64)).unwrap();
        assert_eq!(ctype.luavalue_from(0, &data), Ok(DynamicValue::Integer(v as i64)));
    }
}

#[test]
fn i8_takes_the_first_byte_of_a_text() {
    let ctype = i8_type();
    let mut data = vec![9u8; 1];
    // the digit is taken as a byte, not as the number that it writes
    ctype.luavalue_into(0, &mut data, &DynamicValue::Text(b"7".to_vec())).unwrap();
    assert_eq!(data, vec![b'7']);
    assert_eq!(ctype.luavalue_from(0, &data), Ok(DynamicValue::Integer(55)));
    ctype.luavalue_into(0, &mut data, &DynamicValue::Text(b"A long text".to_vec())).unwrap();
    assert_eq!(ctype.luavalue_from(0, &data), Ok(DynamicValue::Integer(65)));
    ctype.luavalue_into(0, &mut data, &DynamicValue::Text(vec![0xff, 1])).unwrap();
    assert_eq!(ctype.luavalue_from(0, &data), Ok(DynamicValue::Integer(-1)));
    ctype.luavalue_into(0, &mut data, &DynamicValue::Text(vec![])).unwrap();
    assert_eq!(data, vec![0]);
}

#[test]
fn i8_refuses_numbers_and_other_kinds() {
    let ctype = i8_type();
    let mut data = vec![9u8; 1];
    for (value, kind) in [
        (DynamicValue::Number(1), ValueKind::Number),
        (DynamicValue::Nil, ValueKind::Nil),
        (DynamicValue::Boolean(false), ValueKind::Boolean),
        (DynamicValue::Other, ValueKind::Other),
    ] {
        assert_eq!(ctype.luavalue_into(0, &mut data, &value), Err(unsupported(kind)));
        assert_eq!(data, vec![9]);
    }
}
