use std::sync::atomic::{AtomicBool, AtomicU64, AtomicUsize};
use std::sync::mpsc::channel;
use std::sync::Arc;
use tinkerforge::converting_receiver::{BrickletError, BrickletRecvTimeoutError};
use tinkerforge::device::{
    disabled_response_message, Device, GetResponseExpectedError, ResponseExpectedFlag,
    SetResponseExpectedError,
};
use tinkerforge::ip_connection::IpConRequestSender;
use tinkerforge::low_level_traits::LowLevelWrite;

fn request_sender() -> IpConRequestSender {
    let (tx, _rx) = channel();
    // Keep the worker end alive for the whole test.
    std::mem::forget(_rx);
    IpConRequestSender::new(
        tx,
        Arc::new(AtomicUsize::new(0)),
        Arc::new(AtomicBool::new(false)),
        Arc::new(AtomicU64::new(2500)),
    )
}

fn test_device() -> Device {
    let sender = request_sender();
    let mut device = Device::new([2, 0, 0], "6sQB8J", &sender, 1);
    device.set_response_expected_flag(1, ResponseExpectedFlag::AlwaysTrue);
    device.set_response_expected_flag(5, ResponseExpectedFlag::False);
    device.set_response_expected_flag(6, ResponseExpectedFlag::True);
    device
}

#[test]
fn new_parses_the_uid() {
    let device = test_device();
    assert_eq!(device.internal_uid, 3585496300);
    assert_eq!(device.api_version, [2, 0, 0]);
}

#[test]
fn get_response_expected_reads_the_table() {
    let device = test_device();
    assert_eq!(device.get_response_expected(1), Ok(true));
    assert_eq!(device.get_response_expected(5), Ok(false));
    assert_eq!(device.get_response_expected(6), Ok(true));
    assert_eq!(device.get_response_expected(200), Err(GetResponseExpectedError(200)));
}

#[test]
fn set_response_expected_changes_user_flags_only() {
    let mut device = test_device();
    assert_eq!(device.set_response_expected(5, true), Ok(()));
    assert_eq!(device.get_response_expected(5), Ok(true));
    assert!(matches!(
        device.set_response_expected(1, false),
        Err(SetResponseExpectedError::IsAlwaysTrue(1))
    ));
    assert!(matches!(
        device.set_response_expected(77, true),
        Err(SetResponseExpectedError::InvalidFunctionId(77))
    ));
}

#[test]
fn set_response_expected_all_spares_getters_and_unknown_ids() {
    let mut device = test_device();
    device.set_response_expected_all(true);
    assert_eq!(device.get_response_expected(5), Ok(true));
    assert_eq!(device.get_response_expected(6), Ok(true));
    assert_eq!(device.get_response_expected(1), Ok(true));
    assert!(device.get_response_expected(42).is_err());
    device.set_response_expected_all(false);
    assert_eq!(device.get_response_expected(5), Ok(false));
    assert_eq!(device.get_response_expected(6), Ok(false));
    // A getter always answers.
    assert_eq!(device.get_response_expected(1), Ok(true));
}

/// A low-level reply to a written chunk.
struct Written {
    written: usize,
}

impl LowLevelWrite<u8> for Written {
    fn ll_message_written(&self) -> usize {
        self.written
    }

    fn get_result(&self) -> u8 {
        7
    }
}

#[test]
fn set_high_level_splits_the_payload_into_chunks() {
    let device = test_device();
    let calls = std::cell::RefCell::new(Vec::new());
    let payload: Vec<u8> = (0..10).collect();
    let r = device.set_high_level(0, &payload, 100, 4, &|length, offset, chunk: &[u8]| {
        calls.borrow_mut().push((length, offset, chunk.to_vec()));
        Ok(Written { written: chunk.len() })
    });
    // The last chunk is short: the written sum still covers everything.
    assert!(matches!(r, Ok((10, 7))));
    let calls = calls.into_inner();
    assert_eq!(calls.len(), 3);
    assert_eq!(calls[0], (10, 0, vec![0, 1, 2, 3]));
    assert_eq!(calls[1], (10, 4, vec![4, 5, 6, 7]));
    assert_eq!(calls[2], (10, 8, vec![8, 9]));
}

#[test]
fn set_high_level_stops_on_a_short_write() {
    let device = test_device();
    let payload: Vec<u8> = (0..12).collect();
    let r = device.set_high_level(0, &payload, 100, 4, &|_, offset, chunk: &[u8]| {
        if offset == 4 {
            Ok(Written { written: 2 })
        } else {
            Ok(Written { written: chunk.len() })
        }
    });
    // 4 from the first chunk, 2 from the refused second one.
    assert!(matches!(r, Ok((6, 7))));
}

#[test]
fn set_high_level_refuses_an_oversized_payload() {
    let device = test_device();
    let payload: Vec<u8> = (0..10).collect();
    let r = device.set_high_level(0, &payload, 5, 4, &|_, _, chunk: &[u8]| {
        Ok(Written { written: chunk.len() })
    });
    assert!(matches!(r, Err(BrickletRecvTimeoutError::InvalidParameter)));
}

#[test]
fn set_high_level_empty_payload_makes_one_call() {
    let device = test_device();
    let calls = std::cell::RefCell::new(0usize);
    let r = device.set_high_level(0, &[], 100, 4, &|length, offset, chunk: &[u8]| {
        *calls.borrow_mut() += 1;
        assert_eq!((length, offset, chunk.len()), (0, 0, 0));
        Ok(Written { written: 0 })
    });
    assert!(matches!(r, Ok((0, 7))));
    assert_eq!(calls.into_inner(), 1);
}

/// A low-level reply carrying one chunk of a read stream.
struct ReadChunk {
    message_length: usize,
    chunk_offset: usize,
    data: Vec<u8>,
    tail: u8,
}

impl tinkerforge::low_level_traits::LowLevelRead<u8, u8> for ReadChunk {
    fn ll_message_length(&self) -> usize {
        self.message_length
    }

    fn ll_message_chunk_offset(&self) -> usize {
        self.chunk_offset
    }

    fn ll_message_chunk_data(&self) -> &[u8] {
        &self.data
    }

    fn get_result(&self) -> u8 {
        self.tail
    }
}

#[test]
fn get_high_level_pulls_a_whole_stream() {
    let device = test_device();
    let step = std::cell::RefCell::new(0usize);
    let r = device.get_high_level(0, 0u8, &|| {
        let mut s = step.borrow_mut();
        *s += 1;
        match *s {
            1 => Ok(ReadChunk { message_length: 6, chunk_offset: 0, data: vec![1, 2, 3, 4], tail: 9 }),
            _ => Ok(ReadChunk { message_length: 6, chunk_offset: 4, data: vec![5, 6], tail: 9 }),
        }
    });
    assert!(matches!(r, Ok((ref p, 9)) if p == &vec![1, 2, 3, 4, 5, 6]));
}

#[test]
fn get_high_level_out_of_sync_start_is_malformed() {
    let device = test_device();
    let step = std::cell::RefCell::new(0usize);
    let r: Result<(Vec<u8>, u8), _> = device.get_high_level(0, 0u8, &|| {
        let mut s = step.borrow_mut();
        *s += 1;
        match *s {
            // The stream starts mid-way: out of sync; the rest is drained.
            1 => Ok(ReadChunk { message_length: 6, chunk_offset: 2, data: vec![3, 4, 5, 6], tail: 9 }),
            _ => Ok(ReadChunk { message_length: 6, chunk_offset: 2, data: vec![3, 4, 5, 6], tail: 9 }),
        }
    });
    assert!(matches!(r, Err(BrickletRecvTimeoutError::MalformedPacket)));
}

#[test]
fn get_high_level_propagates_the_closure_error() {
    let device = test_device();
    let r: Result<(Vec<u8>, u8), _> = device.get_high_level(
        0,
        0u8,
        &|| -> Result<ReadChunk, BrickletRecvTimeoutError> {
            Err(BrickletRecvTimeoutError::QueueTimeout)
        },
    );
    assert!(matches!(r, Err(BrickletRecvTimeoutError::QueueTimeout)));
}

#[test]
fn set_decision_follows_the_flag_table() {
    let device = test_device();
    assert!(!device.set_wants_response(5));
    assert!(device.set_wants_response(1));
    assert!(device.set_wants_response(6));
    // An unknown id is not guarded on the setter path.
    assert!(device.set_wants_response(42));
    assert_eq!(
        disabled_response_message(),
        Err(BrickletError::SuccessButResponseExpectedIsDisabled)
    );
}

#[test]
fn set_without_response_expected_prefills_the_receiver() {
    let (tx, rx) = channel();
    drop(rx);
    let sender = IpConRequestSender::new(
        tx,
        Arc::new(AtomicUsize::new(0)),
        Arc::new(AtomicBool::new(false)),
        Arc::new(AtomicU64::new(2500)),
    );
    let mut device = Device::new([2, 0, 0], "6sQB8J", &sender, 1);
    device.set_response_expected_flag(5, ResponseExpectedFlag::False);
    let mut receiver = device.set::<()>(5, vec![0x01]);
    // The first receive consumes the pre-filled message at once.
    assert_eq!(
        receiver.recv(),
        Err(BrickletRecvTimeoutError::SuccessButResponseExpectedIsDisabled)
    );
}

#[test]
fn get_high_level_mid_stream_mismatch_is_malformed() {
    let device = test_device();
    let step = std::cell::RefCell::new(0usize);
    let r: Result<(Vec<u8>, u8), _> = device.get_high_level(0, 0u8, &|| {
        let mut s = step.borrow_mut();
        *s += 1;
        match *s {
            1 => Ok(ReadChunk { message_length: 8, chunk_offset: 0, data: vec![1, 2, 3, 4], tail: 9 }),
            // The follow-up chunk skips ahead: the stream is lost and the
            // rest is drained.
            _ => Ok(ReadChunk { message_length: 8, chunk_offset: 6, data: vec![7, 8], tail: 9 }),
        }
    });
    assert!(matches!(r, Err(BrickletRecvTimeoutError::MalformedPacket)));
}
