use std::sync::mpsc::channel;
use std::time::{Duration, Instant};
use tinkerforge::converting_callback_receiver::{
    CallbackTryRecvError, ConvertingCallbackReceiver,
};
use tinkerforge::converting_receiver::{
    BrickletError, BrickletRecvTimeoutError, BrickletTryRecvError, ConvertingReceiver,
};

#[test]
fn good_bytes_decode() {
    let (tx, rx) = channel();
    tx.send(Ok(vec![0x78, 0x56, 0x34, 0x12])).unwrap();
    let mut receiver: ConvertingReceiver<u32> = ConvertingReceiver::new(rx, 100);
    assert_eq!(receiver.recv(), Ok(0x12345678));
}

#[test]
fn wrong_length_is_malformed() {
    let (tx, rx) = channel();
    tx.send(Ok(vec![1, 2, 3])).unwrap();
    let mut receiver: ConvertingReceiver<u32> = ConvertingReceiver::new(rx, 100);
    assert_eq!(receiver.recv(), Err(BrickletRecvTimeoutError::MalformedPacket));
}

#[test]
fn worker_errors_keep_their_names() {
    let cases = [
        (BrickletError::InvalidParameter, BrickletRecvTimeoutError::InvalidParameter),
        (BrickletError::FunctionNotSupported, BrickletRecvTimeoutError::FunctionNotSupported),
        (BrickletError::UnknownError, BrickletRecvTimeoutError::UnknownError),
        (BrickletError::NotConnected, BrickletRecvTimeoutError::NotConnected),
        (
            BrickletError::SuccessButResponseExpectedIsDisabled,
            BrickletRecvTimeoutError::SuccessButResponseExpectedIsDisabled,
        ),
    ];
    for (sent, expected) in cases {
        let (tx, rx) = channel();
        tx.send(Err(sent)).unwrap();
        let mut receiver: ConvertingReceiver<()> = ConvertingReceiver::new(rx, 100);
        assert_eq!(receiver.recv(), Err(expected));
    }
}

#[test]
fn empty_queue_times_out_after_the_deadline() {
    let (tx, rx) = channel::<Result<Vec<u8>, BrickletError>>();
    let mut receiver: ConvertingReceiver<u32> = ConvertingReceiver::new(rx, 100);
    let started = Instant::now();
    assert_eq!(receiver.recv(), Err(BrickletRecvTimeoutError::QueueTimeout));
    let elapsed = started.elapsed();
    assert!(elapsed >= Duration::from_millis(50), "timed out too early: {elapsed:?}");
    assert!(elapsed < Duration::from_millis(2000), "timed out too late: {elapsed:?}");
    drop(tx);
}

#[test]
fn dropped_worker_side_is_queue_disconnected() {
    let (tx, rx) = channel::<Result<Vec<u8>, BrickletError>>();
    drop(tx);
    let mut receiver: ConvertingReceiver<u32> = ConvertingReceiver::new(rx, 100);
    assert_eq!(receiver.recv(), Err(BrickletRecvTimeoutError::QueueDisconnected));
}

#[test]
fn try_recv_reports_an_empty_queue() {
    let (tx, rx) = channel::<Result<Vec<u8>, BrickletError>>();
    let mut receiver: ConvertingReceiver<u32> = ConvertingReceiver::new(rx, 100);
    assert_eq!(receiver.try_recv(), Err(BrickletTryRecvError::QueueEmpty));
    tx.send(Ok(vec![1, 0, 0, 0])).unwrap();
    assert_eq!(receiver.try_recv(), Ok(1));
}

#[test]
fn callback_receiver_decodes_payloads() {
    let (tx, rx) = channel();
    tx.send(vec![0xEF, 0xBE]).unwrap();
    let receiver: ConvertingCallbackReceiver<u16> = ConvertingCallbackReceiver::new(rx);
    assert_eq!(receiver.try_recv(), Ok(0xBEEF));
    assert_eq!(receiver.try_recv(), Err(CallbackTryRecvError::QueueEmpty));
    tx.send(vec![1, 2, 3]).unwrap();
    assert_eq!(receiver.try_recv(), Err(CallbackTryRecvError::MalformedPacket));
    drop(tx);
    assert_eq!(receiver.try_recv(), Err(CallbackTryRecvError::QueueDisconnected));
}

#[test]
fn callback_receiver_recv_timeout_expires() {
    let (_tx, rx) = channel::<Vec<u8>>();
    let receiver: ConvertingCallbackReceiver<u16> = ConvertingCallbackReceiver::new(rx);
    let r = receiver.recv_timeout(Duration::from_millis(50));
    assert!(r.is_err());
}
