use std::sync::mpsc::channel;
use std::time::Duration;
use tinkerforge::byte_converter::FromByteSlice;
use tinkerforge::converting_callback_receiver::ConvertingCallbackReceiver;
use tinkerforge::converting_high_level_callback_receiver::{
    feed_whole_stream, ConvertingHighLevelCallbackReceiver, StreamAssembler,
};
use tinkerforge::low_level_traits::LowLevelRead;

#[test]
fn three_chunks_reassemble_and_leave_the_assembler_idle() {
    let mut assembler: StreamAssembler<u8> = StreamAssembler::new(0);
    assert!(assembler.recv_stream_chunk(7, 0, &[1, 2, 3]).is_none());
    assert!(assembler.recv_stream_chunk(7, 3, &[4, 5, 6]).is_none());
    let done = assembler.recv_stream_chunk(7, 6, &[7]);
    assert_eq!(done, Some(vec![1, 2, 3, 4, 5, 6, 7]));
    assert!(!assembler.is_assembling());
    // The next stream starts cleanly.
    assert_eq!(assembler.recv_stream_chunk(1, 0, &[9]), Some(vec![9]));
}

#[test]
fn feed_whole_stream_returns_the_payload() {
    let mut assembler: StreamAssembler<u8> = StreamAssembler::new(0);
    let chunks = vec![vec![10, 20], vec![30], vec![40, 50]];
    let payload = feed_whole_stream(&mut assembler, &chunks, 5);
    assert_eq!(payload, Some(vec![10, 20, 30, 40, 50]));
    assert!(!assembler.is_assembling());
}

#[test]
fn mid_stream_chunk_while_idle_is_out_of_sync() {
    let mut assembler: StreamAssembler<u8> = StreamAssembler::new(0);
    assert!(assembler.recv_stream_chunk(7, 3, &[4, 5, 6]).is_none());
    assert!(!assembler.is_assembling());
}

#[test]
fn wrong_offset_resets_the_stream() {
    let mut assembler: StreamAssembler<u8> = StreamAssembler::new(0);
    assert!(assembler.recv_stream_chunk(6, 0, &[1, 2]).is_none());
    assert!(assembler.is_assembling());
    // The next chunk skips ahead: the whole stream is lost.
    assert!(assembler.recv_stream_chunk(6, 4, &[5, 6]).is_none());
    assert!(!assembler.is_assembling());
}

#[test]
fn changed_total_length_resets_the_stream() {
    let mut assembler: StreamAssembler<u8> = StreamAssembler::new(0);
    assert!(assembler.recv_stream_chunk(6, 0, &[1, 2]).is_none());
    assert!(assembler.recv_stream_chunk(8, 2, &[3, 4]).is_none());
    assert!(!assembler.is_assembling());
}

#[test]
fn overlong_chunk_is_cut_at_the_total_length() {
    let mut assembler: StreamAssembler<u8> = StreamAssembler::new(0);
    let done = assembler.recv_stream_chunk(3, 0, &[1, 2, 3, 4, 5]);
    assert_eq!(done, Some(vec![1, 2, 3]));
}

#[test]
fn empty_stream_completes_at_once() {
    let mut assembler: StreamAssembler<u8> = StreamAssembler::new(0);
    assert_eq!(assembler.recv_stream_chunk(0, 0, &[]), Some(vec![]));
    assert!(!assembler.is_assembling());
}

/// A low-level reply of a chunked callback: total length, chunk offset, up
/// to four payload bytes, and a tail value.
#[derive(Clone)]
struct Chunked {
    message_length: u16,
    chunk_offset: u16,
    data: [u8; 4],
    tail: u8,
}

impl FromByteSlice for Chunked {
    fn from_le_bytes(bytes: &[u8]) -> Chunked {
        Chunked {
            message_length: <u16 as FromByteSlice>::from_le_bytes(&bytes[0..2]),
            chunk_offset: <u16 as FromByteSlice>::from_le_bytes(&bytes[2..4]),
            data: [bytes[4], bytes[5], bytes[6], bytes[7]],
            tail: bytes[8],
        }
    }

    fn decodable(_bytes: &[u8]) -> bool {
        true
    }

    fn bytes_expected() -> usize {
        9
    }
}

impl LowLevelRead<u8, u8> for Chunked {
    fn ll_message_length(&self) -> usize {
        self.message_length as usize
    }

    fn ll_message_chunk_offset(&self) -> usize {
        self.chunk_offset as usize
    }

    fn ll_message_chunk_data(&self) -> &[u8] {
        let len = self.message_length as usize - self.chunk_offset as usize;
        if len < 4 {
            &self.data[0..len]
        } else {
            &self.data[..]
        }
    }

    fn get_result(&self) -> u8 {
        self.tail
    }
}

#[test]
fn high_level_receiver_reassembles_chunked_callbacks() {
    let (tx, rx) = channel();
    tx.send(vec![6, 0, 0, 0, 1, 2, 3, 4, 9]).unwrap();
    tx.send(vec![6, 0, 4, 0, 5, 6, 0, 0, 9]).unwrap();
    let callback_receiver: ConvertingCallbackReceiver<Chunked> = ConvertingCallbackReceiver::new(
        rx,
    );
    let mut receiver: ConvertingHighLevelCallbackReceiver<u8, u8, Chunked> =
        ConvertingHighLevelCallbackReceiver::new(callback_receiver, 0);
    assert_eq!(receiver.try_recv().unwrap(), None);
    let complete = receiver.try_recv().unwrap();
    assert_eq!(complete, Some((vec![1, 2, 3, 4, 5, 6], 9)));
    let r = receiver.recv_timeout(Duration::from_millis(20));
    assert!(r.is_err());
}
