use tinkerforge::base58::{base58_bytes_to_u32, base58_encode, Base58, Base58Error};

#[test]
fn parses_known_uid() {
    assert_eq!("6sQB8J".base58_to_u32().unwrap(), 3585496300);
}

#[test]
fn parses_string_uid() {
    let s = String::from("6sQB8J");
    assert_eq!(s.base58_to_u32().unwrap(), 3585496300);
}

#[test]
fn leading_ones_are_leading_zeros() {
    assert_eq!("1116sQB8J".base58_to_u32().unwrap(), 3585496300);
}

#[test]
fn encode_round_trips() {
    let encoded = base58_encode(3585496300);
    assert_eq!(encoded, b"6sQB8J".to_vec());
    assert_eq!(base58_bytes_to_u32(&encoded), Ok(3585496300));
}

#[test]
fn encode_round_trips_many_values() {
    for v in [1u32, 2, 57, 58, 59, 3364, 0xDEAD_BEEF, u32::MAX] {
        let encoded = base58_encode(v);
        assert_eq!(base58_bytes_to_u32(&encoded), Ok(v), "value {v}");
    }
}

#[test]
fn rejects_invalid_characters() {
    for bad in ["0", "O", "I", "l", "a-b", " "] {
        assert!(matches!(bad.base58_to_u32(), Err(Base58Error::InvalidCharacter)), "{bad}");
    }
}

#[test]
fn rejects_empty_and_zero() {
    assert!(matches!("".base58_to_u32(), Err(Base58Error::UidEmpty)));
    assert!(matches!("1".base58_to_u32(), Err(Base58Error::UidEmpty)));
    assert!(matches!("1111".base58_to_u32(), Err(Base58Error::UidEmpty)));
}

#[test]
fn rejects_oversized_values() {
    assert!(matches!("zzzzzzzzzzzz".base58_to_u32(), Err(Base58Error::UidToBig)));
}

#[test]
fn mangles_values_above_u32() {
    // "ZZZZZZ" accumulates to 38068692543, which exceeds u32::MAX and is
    // compressed by the legacy scheme.
    assert_eq!("ZZZZZZ".base58_to_u32().unwrap(), 579135);
}

#[test]
fn mangled_zero_is_uid_empty() {
    // 0x40 << 32 encodes as "8dN288E"; every bit falls outside the mangling
    // masks, so the compressed value is zero.
    assert!(matches!("8dN288E".base58_to_u32(), Err(Base58Error::UidEmpty)));
}

#[test]
fn base58_error_messages_name_their_condition() {
    assert!(Base58Error::InvalidCharacter.message().contains("invalid character"));
    assert!(Base58Error::UidToBig.message().contains("too big"));
    assert!(Base58Error::UidEmpty.message().contains("empty"));
}
