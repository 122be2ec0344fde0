use tinkerforge::packet::PacketHeader;

#[test]
fn header_encodes_to_eight_bytes() {
    let h = PacketHeader {
        uid: 0x12345678,
        length: 16,
        function_id: 5,
        sequence_number: 3,
        response_expected: true,
        error_code: 0,
    };
    let bytes = PacketHeader::to_le_bytes(h);
    assert_eq!(bytes, vec![0x78, 0x56, 0x34, 0x12, 16, 5, 0x38, 0x00]);
}

#[test]
fn header_round_trips() {
    for seq in 0u8..16 {
        for err in 0u8..4 {
            for re in [false, true] {
                let h = PacketHeader {
                    uid: 0xdeadbeef,
                    length: 80,
                    function_id: 255,
                    sequence_number: seq,
                    response_expected: re,
                    error_code: err,
                };
                let bytes = PacketHeader::to_le_bytes(h);
                let back = PacketHeader::from_le_bytes(&bytes);
                assert_eq!(back, h);
            }
        }
    }
}

#[test]
fn decode_reads_bit_fields() {
    // seq 7, response expected, error code 2.
    let bytes = [1, 0, 0, 0, 8, 253, 0x78, 0x80];
    let h = PacketHeader::from_le_bytes(&bytes);
    assert_eq!(h.uid, 1);
    assert_eq!(h.length, 8);
    assert_eq!(h.function_id, 253);
    assert_eq!(h.sequence_number, 7);
    assert!(h.response_expected);
    assert_eq!(h.error_code, 2);
}

#[test]
fn with_payload_adds_header_size() {
    let h = PacketHeader::with_payload(42, 5, 1, false, 1);
    assert_eq!(h.length, 9);
    assert_eq!(h.uid, 42);
    assert_eq!(h.function_id, 5);
    assert_eq!(h.sequence_number, 1);
    assert!(!h.response_expected);
    assert_eq!(h.error_code, 0);
    assert_eq!(PacketHeader::bytes_expected(), 8);
}
