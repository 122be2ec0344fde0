use tinkerforge::byte_converter::{FromByteSlice, ToBytes};
use tinkerforge::converting_receiver::BrickletError;

#[test]
fn scalar_round_trips() {
    assert_eq!(<u8 as FromByteSlice>::from_le_bytes(&<u8 as ToBytes>::to_le_bytes(0xAB)), 0xAB);
    assert_eq!(<i8 as FromByteSlice>::from_le_bytes(&<i8 as ToBytes>::to_le_bytes(-5)), -5);
    assert_eq!(<u16 as FromByteSlice>::from_le_bytes(&<u16 as ToBytes>::to_le_bytes(0xBEEF)), 0xBEEF);
    assert_eq!(<i16 as FromByteSlice>::from_le_bytes(&<i16 as ToBytes>::to_le_bytes(-2)), -2);
    assert_eq!(<u32 as FromByteSlice>::from_le_bytes(&<u32 as ToBytes>::to_le_bytes(0xDEADBEEF)), 0xDEADBEEF);
    assert_eq!(<i32 as FromByteSlice>::from_le_bytes(&<i32 as ToBytes>::to_le_bytes(-70000)), -70000);
    assert_eq!(<u64 as FromByteSlice>::from_le_bytes(&<u64 as ToBytes>::to_le_bytes(1 << 40)), 1 << 40);
    assert_eq!(<i64 as FromByteSlice>::from_le_bytes(&<i64 as ToBytes>::to_le_bytes(-(1 << 40))), -(1 << 40));
    assert_eq!(<bool as FromByteSlice>::from_le_bytes(&<bool as ToBytes>::to_le_bytes(true)), true);
    assert_eq!(<char as FromByteSlice>::from_le_bytes(&<char as ToBytes>::to_le_bytes('a')), 'a');
}

#[test]
fn little_endian_layout() {
    assert_eq!(<u16 as ToBytes>::to_le_bytes(0x1234), vec![0x34, 0x12]);
    assert_eq!(<u32 as ToBytes>::to_le_bytes(0x12345678), vec![0x78, 0x56, 0x34, 0x12]);
}

#[test]
fn bytes_expected_values() {
    assert_eq!(<() as FromByteSlice>::bytes_expected(), 0);
    assert_eq!(<bool as FromByteSlice>::bytes_expected(), 1);
    assert_eq!(<u16 as FromByteSlice>::bytes_expected(), 2);
    assert_eq!(<u32 as FromByteSlice>::bytes_expected(), 4);
    assert_eq!(<u64 as FromByteSlice>::bytes_expected(), 8);
    assert_eq!(<String as FromByteSlice>::bytes_expected(), 1);
}

#[test]
fn string_serializes_its_bytes() {
    let bytes = <String as ToBytes>::to_le_bytes(String::from("abc"));
    assert_eq!(bytes, b"abc".to_vec());
}

#[test]
fn string_pads_up_to_cap() {
    let bytes = <String as ToBytes>::try_to_le_bytes(String::from("ab"), 5).unwrap();
    assert_eq!(bytes, vec![b'a', b'b', 0, 0, 0]);
}

#[test]
fn string_over_cap_is_invalid_parameter() {
    let r = <String as ToBytes>::try_to_le_bytes(String::from("toolong"), 3);
    assert!(matches!(r, Err(BrickletError::InvalidParameter)));
}

#[test]
fn string_decoding_strips_zero_padding() {
    let s = <String as FromByteSlice>::from_le_bytes(&[b'h', b'i', 0, 0, 0]);
    assert_eq!(s, "hi");
}

#[test]
fn string_decodability_follows_utf8() {
    assert!(<String as FromByteSlice>::decodable(&[b'o', b'k', 0]));
    assert!(!<String as FromByteSlice>::decodable(&[0xFF, 0xFE]));
}

#[test]
fn u8_arrays_copy_through() {
    let bytes = <[u8; 4] as ToBytes>::to_le_bytes([1, 2, 3, 4]);
    assert_eq!(bytes, vec![1, 2, 3, 4]);
    assert_eq!(<[u8; 4] as FromByteSlice>::bytes_expected(), 4);
    assert_eq!(<[u8; 4] as FromByteSlice>::from_le_bytes(&bytes), [1, 2, 3, 4]);
}

#[test]
fn bool_arrays_bit_pack_little_bit_order() {
    let mut bits = [false; 12];
    bits[0] = true;
    bits[3] = true;
    bits[8] = true;
    let bytes = <[bool; 12] as ToBytes>::to_le_bytes(bits);
    assert_eq!(bytes, vec![0b0000_1001, 0b0000_0001]);
    assert_eq!(<[bool; 12] as FromByteSlice>::bytes_expected(), 2);
    assert_eq!(<[bool; 12] as FromByteSlice>::from_le_bytes(&bytes), bits);
    assert_eq!(<[bool; 16] as FromByteSlice>::bytes_expected(), 2);
    assert_eq!(<[bool; 17] as FromByteSlice>::bytes_expected(), 3);
}

#[test]
fn u16_arrays_concatenate_little_endian() {
    let bytes = <[u16; 2] as ToBytes>::to_le_bytes([0x1234, 0xBEEF]);
    assert_eq!(bytes, vec![0x34, 0x12, 0xEF, 0xBE]);
    assert_eq!(<[u16; 2] as FromByteSlice>::bytes_expected(), 4);
    assert_eq!(<[u16; 2] as FromByteSlice>::from_le_bytes(&bytes), [0x1234, 0xBEEF]);
}

#[test]
fn signed_and_wide_arrays_round_trip() {
    let i16s = <[i16; 2] as ToBytes>::to_le_bytes([-2, 300]);
    assert_eq!(<[i16; 2] as FromByteSlice>::from_le_bytes(&i16s), [-2, 300]);
    let u32s = <[u32; 2] as ToBytes>::to_le_bytes([0xDEAD_BEEF, 7]);
    assert_eq!(<[u32; 2] as FromByteSlice>::from_le_bytes(&u32s), [0xDEAD_BEEF, 7]);
    let i32s = <[i32; 1] as ToBytes>::to_le_bytes([-70000]);
    assert_eq!(<[i32; 1] as FromByteSlice>::from_le_bytes(&i32s), [-70000]);
    let u64s = <[u64; 1] as ToBytes>::to_le_bytes([1 << 40]);
    assert_eq!(<[u64; 1] as FromByteSlice>::from_le_bytes(&u64s), [1 << 40]);
    let i64s = <[i64; 1] as ToBytes>::to_le_bytes([-(1 << 40)]);
    assert_eq!(<[i64; 1] as FromByteSlice>::from_le_bytes(&i64s), [-(1 << 40)]);
    assert_eq!(<[u64; 3] as FromByteSlice>::bytes_expected(), 24);
}

#[test]
fn char_and_i8_arrays_are_one_byte_each() {
    let chars = <[char; 3] as ToBytes>::to_le_bytes(['a', 'b', 'c']);
    assert_eq!(chars, b"abc".to_vec());
    assert_eq!(<[char; 3] as FromByteSlice>::from_le_bytes(&chars), ['a', 'b', 'c']);
    let i8s = <[i8; 2] as ToBytes>::to_le_bytes([-1, 5]);
    assert_eq!(<[i8; 2] as FromByteSlice>::from_le_bytes(&i8s), [-1, 5]);
}
