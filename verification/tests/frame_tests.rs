use tinkerforge::frame::{extract_frames, read_into_packet_buffer};
use tinkerforge::packet::PacketHeader;

fn frame_bytes(uid: u32, function_id: u8, seq: u8, payload: &[u8]) -> Vec<u8> {
    let header = PacketHeader::with_payload(uid, function_id, seq, false, payload.len() as u8);
    let mut bytes = PacketHeader::to_le_bytes(header);
    bytes.extend_from_slice(payload);
    bytes
}

#[test]
fn moves_bytes_and_keeps_buffer_size() {
    let mut read_buffer = vec![1, 2, 3, 4, 5];
    let mut packet_buffer = vec![9];
    let mut level = 5;
    read_into_packet_buffer(&mut read_buffer, &mut packet_buffer, 3, &mut level);
    assert_eq!(packet_buffer, vec![9, 1, 2, 3]);
    assert_eq!(read_buffer, vec![4, 5, 0, 0, 0]);
    assert_eq!(level, 2);
}

#[test]
fn cuts_two_whole_frames() {
    let mut stream = frame_bytes(10, 5, 1, &[0xAA]);
    stream.extend_from_slice(&frame_bytes(11, 6, 2, &[0xBB, 0xCC]));
    let level_wanted = stream.len();
    // Leave head room as the rolling buffer has.
    stream.extend_from_slice(&[0u8; 16]);
    let mut level = level_wanted;
    let mut packet_buffer = Vec::new();
    let frames = extract_frames(&mut stream, &mut level, &mut packet_buffer);
    assert_eq!(frames.len(), 2);
    assert_eq!(frames[0].0.uid, 10);
    assert_eq!(frames[0].1, vec![0xAA]);
    assert_eq!(frames[1].0.uid, 11);
    assert_eq!(frames[1].0.function_id, 6);
    assert_eq!(frames[1].1, vec![0xBB, 0xCC]);
    assert_eq!(level, 0);
    assert!(packet_buffer.is_empty());
}

#[test]
fn keeps_partial_frame_for_later() {
    let whole = frame_bytes(7, 3, 4, &[1, 2, 3, 4]);
    // Only the header and two payload bytes have arrived.
    let mut buffer = whole[0..10].to_vec();
    buffer.extend_from_slice(&[0u8; 8]);
    let mut level = 10;
    let mut packet_buffer = Vec::new();
    let frames = extract_frames(&mut buffer, &mut level, &mut packet_buffer);
    assert!(frames.is_empty());
    assert_eq!(packet_buffer, whole[0..10].to_vec());
    assert_eq!(level, 0);

    // The rest arrives: the frame completes.
    let mut rest = whole[10..].to_vec();
    rest.extend_from_slice(&[0u8; 8]);
    let mut level = 2;
    let frames = extract_frames(&mut rest, &mut level, &mut packet_buffer);
    assert_eq!(frames.len(), 1);
    assert_eq!(frames[0].0.uid, 7);
    assert_eq!(frames[0].1, vec![1, 2, 3, 4]);
    assert!(packet_buffer.is_empty());
}

#[test]
fn less_than_a_header_waits() {
    let mut buffer = vec![1, 2, 3, 0, 0, 0, 0, 0];
    let mut level = 3;
    let mut packet_buffer = Vec::new();
    let frames = extract_frames(&mut buffer, &mut level, &mut packet_buffer);
    assert!(frames.is_empty());
    assert_eq!(level, 3);
    assert!(packet_buffer.is_empty());
}
