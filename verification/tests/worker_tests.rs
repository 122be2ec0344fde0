use std::sync::atomic::{AtomicUsize, Ordering};
use std::sync::mpsc::channel;
use std::sync::Arc;
use tinkerforge::converting_receiver::{BrickletError, BrickletRecvTimeoutError, ConvertingReceiver};
use tinkerforge::ip_connection::{ConnectReason, DisconnectReason, Request, SocketThreadRequest};
use tinkerforge::packet::PacketHeader;
use tinkerforge::worker::{
    enumerate_request, getter_request, keepalive_request, response_message, setter_request,
    ConnectedAction, DisconnectedAction, SinkTable, SocketClosedAction, WorkerState,
};

fn fresh_worker() -> (WorkerState, Arc<AtomicUsize>) {
    let state = Arc::new(AtomicUsize::new(0));
    (WorkerState::new(Arc::clone(&state)), state)
}

fn seq_of_frame(frame: &[u8]) -> u8 {
    (frame[6] & 0xf0) >> 4
}

fn send_get(worker: &mut WorkerState, uid: u32, function_id: u8) -> (
    std::sync::mpsc::Receiver<Result<Vec<u8>, BrickletError>>,
    Vec<u8>,
) {
    let (tx, rx) = channel();
    let (sent_tx, _sent_rx) = channel();
    let request = Request::Get { uid, function_id, payload: vec![], response_sender: tx };
    match worker.handle_connected_request(request, sent_tx) {
        ConnectedAction::Write { frame, .. } => (rx, frame),
        ConnectedAction::Done => panic!("a getter must be written"),
    }
}

#[test]
fn sequence_numbers_wrap_from_15_to_1() {
    let (mut worker, _) = fresh_worker();
    let mut seen = Vec::new();
    for _ in 0..16 {
        let (_rx, frame) = send_get(&mut worker, 1, 2);
        seen.push(seq_of_frame(&frame));
    }
    let expected: Vec<u8> = (1..=15).chain([1]).collect();
    assert_eq!(seen, expected);
    assert!(seen.iter().all(|&s| s != 0));
}

#[test]
fn responses_in_reverse_order_reach_the_right_sinks() {
    let (mut worker, _) = fresh_worker();
    let (rx_a, frame_a) = send_get(&mut worker, 9, 10);
    let (rx_b, frame_b) = send_get(&mut worker, 9, 10);
    let seq_a = seq_of_frame(&frame_a);
    let seq_b = seq_of_frame(&frame_b);
    assert_ne!(seq_a, seq_b);

    // The replies arrive in reverse order.
    let header_b = PacketHeader {
        uid: 9,
        length: 9,
        function_id: 10,
        sequence_number: seq_b,
        response_expected: true,
        error_code: 0,
    };
    worker.handle_response(header_b, vec![0xBB]);
    let header_a = PacketHeader { sequence_number: seq_a, ..header_b };
    worker.handle_response(header_a, vec![0xAA]);

    assert_eq!(rx_a.try_recv().unwrap(), Ok(vec![0xAA]));
    assert_eq!(rx_b.try_recv().unwrap(), Ok(vec![0xBB]));
}

#[test]
fn same_sequence_number_is_served_in_fifo_order() {
    let (mut worker, _) = fresh_worker();
    let (rx_first, frame_first) = send_get(&mut worker, 3, 4);
    // Drive the counter through a whole wrap so the same sequence number
    // comes up again for the same uid and function id.
    for _ in 0..14 {
        let _ = send_get(&mut worker, 100, 100);
    }
    let (rx_second, frame_second) = send_get(&mut worker, 3, 4);
    assert_eq!(seq_of_frame(&frame_first), seq_of_frame(&frame_second));

    let header = PacketHeader {
        uid: 3,
        length: 9,
        function_id: 4,
        sequence_number: seq_of_frame(&frame_first),
        response_expected: true,
        error_code: 0,
    };
    worker.handle_response(header, vec![1]);
    worker.handle_response(header, vec![2]);
    assert_eq!(rx_first.try_recv().unwrap(), Ok(vec![1]));
    assert_eq!(rx_second.try_recv().unwrap(), Ok(vec![2]));
}

#[test]
fn error_code_reaches_the_sink_as_error() {
    let (mut worker, _) = fresh_worker();
    let (rx, frame) = send_get(&mut worker, 7, 10);
    let header = PacketHeader {
        uid: 7,
        length: 8,
        function_id: 10,
        sequence_number: seq_of_frame(&frame),
        response_expected: true,
        error_code: 2,
    };
    worker.handle_response(header, vec![]);
    let mut receiver: ConvertingReceiver<u32> = ConvertingReceiver::new(rx, 100);
    assert_eq!(receiver.recv(), Err(BrickletRecvTimeoutError::FunctionNotSupported));
}

#[test]
fn setter_without_response_expected_writes_frame_with_clear_re_bit() {
    let (mut worker, _) = fresh_worker();
    let (sent_tx, _sent_rx) = channel();
    let request = Request::Setter { uid: 21, function_id: 5, payload: vec![0x01], response_sender: None };
    match worker.handle_connected_request(request, sent_tx) {
        ConnectedAction::Write { frame, ack } => {
            assert_eq!(frame.len(), 9);
            assert_eq!(frame[6] & 0x08, 0, "response-expected bit must be clear");
            assert!(ack.is_some(), "an ordinary setter acknowledges its sender");
        },
        ConnectedAction::Done => panic!("a setter must be written"),
    }
}

#[test]
fn keepalive_has_no_acknowledgement() {
    let (mut worker, _) = fresh_worker();
    let (sent_tx, _sent_rx) = channel();
    match worker.handle_connected_request(keepalive_request(), sent_tx) {
        ConnectedAction::Write { frame, ack } => {
            assert_eq!(frame.len(), 8);
            assert_eq!(frame[5], 128);
            assert!(ack.is_none());
        },
        ConnectedAction::Done => panic!("the keepalive must be written"),
    }
}

#[test]
fn enumerate_request_is_a_broadcast_frame() {
    let (mut worker, _) = fresh_worker();
    let (sent_tx, _sent_rx) = channel();
    let request = Request::Setter { uid: 0, function_id: 254, payload: vec![], response_sender: None };
    match worker.handle_connected_request(request, sent_tx) {
        ConnectedAction::Write { frame, .. } => {
            assert_eq!(frame.len(), 8);
            assert_eq!(&frame[0..4], &[0, 0, 0, 0]);
            assert_eq!(frame[5], 254);
            assert_eq!(frame[6] & 0x08, 0);
        },
        ConnectedAction::Done => panic!("the enumerate request must be written"),
    }
}

#[test]
fn unsolicited_enumerate_event_fans_out() {
    let (mut worker, _) = fresh_worker();
    let (tx, rx) = channel();
    let (sent_tx, _sent_rx) = channel();
    let action = worker.handle_disconnected_request(SocketThreadRequest::Request(
        Request::RegisterEnumerateCallback(tx),
        sent_tx,
    ));
    assert!(matches!(action, DisconnectedAction::Continue));
    let header = PacketHeader {
        uid: 0,
        length: 34,
        function_id: 253,
        sequence_number: 0,
        response_expected: false,
        error_code: 0,
    };
    worker.handle_response(header, vec![1, 2, 3]);
    assert_eq!(rx.try_recv().unwrap(), vec![1, 2, 3]);
}

#[test]
fn registered_callback_receives_unsolicited_frames() {
    let (mut worker, _) = fresh_worker();
    let (tx, rx) = channel();
    let (sent_tx, _sent_rx) = channel();
    worker.handle_disconnected_request(SocketThreadRequest::Request(
        Request::RegisterCallback { uid: 77, function_id: 42, response_sender: tx },
        sent_tx,
    ));
    let header = PacketHeader {
        uid: 77,
        length: 10,
        function_id: 42,
        sequence_number: 0,
        response_expected: false,
        error_code: 0,
    };
    worker.handle_response(header, vec![5, 6]);
    assert_eq!(rx.try_recv().unwrap(), vec![5, 6]);
    // A frame for an unknown callback key goes nowhere and hurts nothing.
    let other = PacketHeader { uid: 78, ..header };
    worker.handle_response(other, vec![9]);
    assert!(rx.try_recv().is_err());
}

#[test]
fn setters_are_cancelled_while_disconnected() {
    let (mut worker, _) = fresh_worker();
    let (tx, rx) = channel();
    let (sent_tx, _sent_rx) = channel();
    worker.handle_disconnected_request(SocketThreadRequest::Request(
        Request::Get { uid: 1, function_id: 1, payload: vec![], response_sender: tx },
        sent_tx,
    ));
    assert_eq!(rx.try_recv().unwrap(), Err(BrickletError::NotConnected));
}

#[test]
fn auto_reconnect_cycle_delivers_one_event_per_subscriber() {
    let (mut worker, state) = fresh_worker();
    let (connect_tx, connect_rx) = channel();
    let (disconnect_tx, disconnect_rx) = channel();
    let (sent_tx, _sent_rx) = channel();
    worker.handle_disconnected_request(SocketThreadRequest::Request(
        Request::RegisterConnectCallback(connect_tx),
        sent_tx.clone(),
    ));
    worker.handle_disconnected_request(SocketThreadRequest::Request(
        Request::RegisterDisconnectCallback(disconnect_tx),
        sent_tx,
    ));

    // First connect, by request.
    let (done_tx, _done_rx) = channel();
    let action = worker.handle_disconnected_request(SocketThreadRequest::Connect(
        String::from("127.0.0.1"),
        4223,
        done_tx,
    ));
    assert!(matches!(action, DisconnectedAction::StartConnect { .. }));
    worker.begin_connect();
    assert_eq!(state.load(Ordering::SeqCst), 2);
    let (reason, notified) = worker.connect_succeeded();
    assert_eq!(reason, ConnectReason::Request);
    assert_eq!(notified, 1);
    assert_eq!(state.load(Ordering::SeqCst), 1);
    assert_eq!(connect_rx.try_recv().unwrap(), ConnectReason::Request);

    // The daemon closes the socket gracefully.
    let session = worker.current_session_id();
    match worker.handle_socket_closed(session, true) {
        SocketClosedAction::BreakConnection { trigger_reconnect } => assert!(trigger_reconnect),
        SocketClosedAction::Ignore => panic!("the current session must break the connection"),
    }
    let (reason, _) = worker.end_connection();
    assert_eq!(reason, DisconnectReason::Shutdown);
    assert_eq!(disconnect_rx.try_recv().unwrap(), DisconnectReason::Shutdown);

    // The reconnect trigger reopens the connection.
    worker.reset_session_state();
    assert_eq!(state.load(Ordering::SeqCst), 0);
    let action = worker.handle_disconnected_request(SocketThreadRequest::TriggerAutoReconnect(
        String::from("127.0.0.1"),
        4223,
    ));
    match action {
        DisconnectedAction::StartConnect { done, .. } => assert!(done.is_none()),
        _ => panic!("an allowed reconnect trigger must start a connect"),
    }
    worker.begin_connect();
    let (reason, _) = worker.connect_succeeded();
    assert_eq!(reason, ConnectReason::AutoReconnect);
    assert_eq!(connect_rx.try_recv().unwrap(), ConnectReason::AutoReconnect);
    // Exactly one event per subscriber.
    assert!(connect_rx.try_recv().is_err());
    assert!(disconnect_rx.try_recv().is_err());
}

#[test]
fn stale_socket_closed_notices_are_ignored() {
    let (mut worker, _) = fresh_worker();
    worker.begin_connect();
    let action = worker.handle_socket_closed(worker.current_session_id() - 1, true);
    assert!(matches!(action, SocketClosedAction::Ignore));
}

#[test]
fn disconnect_while_reconnecting_forbids_the_reconnect() {
    let (mut worker, _) = fresh_worker();
    // Enter the auto-reconnect wait.
    let action = worker.handle_disconnected_request(SocketThreadRequest::TriggerAutoReconnect(
        String::from("127.0.0.1"),
        4223,
    ));
    assert!(matches!(action, DisconnectedAction::StartConnect { .. }));
    // The user disconnects before the reconnect happens.
    let (done_tx, done_rx) = channel();
    worker.handle_disconnected_request(SocketThreadRequest::Disconnect(done_tx));
    assert!(done_rx.try_recv().is_err(), "no refusal while auto-reconnecting");
    // Another trigger is now refused.
    let action = worker.handle_disconnected_request(SocketThreadRequest::TriggerAutoReconnect(
        String::from("127.0.0.1"),
        4223,
    ));
    assert!(matches!(action, DisconnectedAction::Continue));
}

#[test]
fn failed_write_breaks_and_reconnects_only_when_enabled() {
    let (mut worker, _) = fresh_worker();
    match worker.after_request_write(false, None) {
        SocketClosedAction::BreakConnection { trigger_reconnect } => assert!(trigger_reconnect),
        SocketClosedAction::Ignore => panic!("a failed write must break the connection"),
    }
    worker.handle_disconnected_request(SocketThreadRequest::SetAutoReconnect(false));
    match worker.after_request_write(false, None) {
        SocketClosedAction::BreakConnection { trigger_reconnect } => assert!(!trigger_reconnect),
        SocketClosedAction::Ignore => panic!("a failed write must break the connection"),
    }
}

#[test]
fn successful_write_acknowledges_with_current_timeout() {
    let (mut worker, _) = fresh_worker();
    worker.handle_disconnected_request(SocketThreadRequest::SetTimeout(123));
    let (ack_tx, ack_rx) = channel();
    let action = worker.after_request_write(true, Some(ack_tx));
    assert!(matches!(action, SocketClosedAction::Ignore));
    assert_eq!(ack_rx.try_recv().unwrap(), 123);
}

#[test]
fn sink_table_pushes_takes_and_puts() {
    let mut table: SinkTable<u32> = SinkTable::new();
    table.push_to(5, 100);
    table.push_to(5, 101);
    table.push_to(6, 200);
    let q5 = table.take(5).unwrap();
    assert_eq!(q5, vec![100, 101]);
    assert!(table.take(5).is_none());
    table.put(5, vec![101]);
    assert_eq!(table.take(5).unwrap(), vec![101]);
    assert_eq!(table.take(6).unwrap(), vec![200]);
}

#[test]
fn request_builders_carry_their_fields() {
    let (tx, _rx) = channel::<Result<Vec<u8>, BrickletError>>();
    match getter_request(7, 9, vec![1, 2], tx) {
        Request::Get { uid, function_id, payload, .. } => {
            assert_eq!((uid, function_id, payload), (7, 9, vec![1, 2]));
        }
        _ => panic!("a getter request must be a Get"),
    }
    match setter_request(8, 3, vec![5], None) {
        Request::Setter { uid, function_id, payload, response_sender } => {
            assert_eq!((uid, function_id, payload), (8, 3, vec![5]));
            assert!(response_sender.is_none());
        }
        _ => panic!("a setter request must be a Setter"),
    }
    match enumerate_request() {
        Request::Setter { uid, function_id, payload, response_sender } => {
            assert_eq!((uid, function_id), (0, 254));
            assert!(payload.is_empty());
            assert!(response_sender.is_none());
        }
        _ => panic!("the enumerate request must be a Setter"),
    }
    let ok_header = PacketHeader {
        uid: 1,
        length: 9,
        function_id: 2,
        sequence_number: 3,
        response_expected: true,
        error_code: 0,
    };
    assert_eq!(response_message(ok_header, vec![0xAB]), Ok(vec![0xAB]));
    let err_header = PacketHeader { error_code: 1, ..ok_header };
    assert_eq!(response_message(err_header, vec![]), Err(BrickletError::InvalidParameter));
}
