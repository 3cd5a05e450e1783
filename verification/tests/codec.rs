use elfprobe::endian::{BigEndian, Endianness, LittleEndian};
use elfprobe::primitive::{I16, I32, I64, U16, U32, U64};

#[test]
fn endianness_names() {
    assert_eq!(<BigEndian as Endianness>::long_name(), "big-endian");
    assert_eq!(<BigEndian as Endianness>::short_name(), "BE");
    assert_eq!(<LittleEndian as Endianness>::long_name(), "little-endian");
    assert_eq!(<LittleEndian as Endianness>::short_name(), "LE");
}

#[test]
fn u16_round_trips() {
    for value in [0u16, 1, 0x1122, u16::MAX] {
        assert_eq!(U16::<LittleEndian>::from(value).get(), value);
        assert_eq!(U16::<BigEndian>::from(value).get(), value);
    }
}

#[test]
fn u32_round_trips() {
    for value in [0u32, 1, 0x1122_3344, u32::MAX] {
        assert_eq!(U32::<LittleEndian>::from(value).get(), value);
        assert_eq!(U32::<BigEndian>::from(value).get(), value);
    }
}

#[test]
fn u64_round_trips() {
    for value in [0u64, 1, 0x1122_3344_5566_7788, u64::MAX] {
        assert_eq!(U64::<LittleEndian>::from(value).get(), value);
        assert_eq!(U64::<BigEndian>::from(value).get(), value);
    }
}

#[test]
fn i16_round_trips() {
    for value in [0i16, 1, -1, 0x1122, i16::MIN, i16::MAX] {
        assert_eq!(I16::<LittleEndian>::from(value).get(), value);
        assert_eq!(I16::<BigEndian>::from(value).get(), value);
    }
}

#[test]
fn i32_round_trips() {
    for value in [0i32, 1, -1, 0x1122_3344, i32::MIN, i32::MAX] {
        assert_eq!(I32::<LittleEndian>::from(value).get(), value);
        assert_eq!(I32::<BigEndian>::from(value).get(), value);
    }
}

#[test]
fn i64_round_trips() {
    for value in [0i64, 1, -1, 0x1122_3344_5566_7788, i64::MIN, i64::MAX] {
        assert_eq!(I64::<LittleEndian>::from(value).get(), value);
        assert_eq!(I64::<BigEndian>::from(value).get(), value);
    }
}

#[test]
fn stored_bytes_follow_the_declared_order() {
    assert_eq!(U32::<LittleEndian>::from(0x1122_3344).bytes, [0x44, 0x33, 0x22, 0x11]);
    assert_eq!(U32::<BigEndian>::from(0x1122_3344).bytes, [0x11, 0x22, 0x33, 0x44]);
    assert_eq!(I16::<BigEndian>::from(-2).bytes, [0xff, 0xfe]);
    assert_eq!(I16::<LittleEndian>::from(-2).bytes, [0xfe, 0xff]);
}

#[test]
fn set_reencodes_in_place() {
    let mut value = U16::<BigEndian>::from(0x0);
    value.set(0x1122);
    assert_eq!(value.get(), 0x1122);
    assert_eq!(value.bytes, [0x11, 0x22]);
}

#[test]
fn rendering_delegates_to_the_decoded_value() {
    let value = U32::<BigEndian>::from(48879);
    assert_eq!(value.to_dec_string(), "48879");
    assert_eq!(value.to_hex_string(), "beef");
    let small = U16::<LittleEndian>::from(0);
    assert_eq!(small.to_dec_string(), "0");
    assert_eq!(small.to_hex_string(), "0");
    let wide = U64::<BigEndian>::from(u64::MAX);
    assert_eq!(wide.to_dec_string(), "18446744073709551615");
    assert_eq!(wide.to_hex_string(), "ffffffffffffffff");
}

#[test]
fn equality_is_on_the_stored_value() {
    let one = U16::<BigEndian>::from(0x1122);
    let two = U16::<BigEndian>::from(0x1122);
    let three = U16::<BigEndian>::from(0x2211);
    assert_eq!(one, two);
    assert_ne!(one, three);
}
