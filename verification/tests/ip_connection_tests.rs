use std::sync::mpsc::channel;
use tinkerforge::byte_converter::FromByteSlice;
use tinkerforge::converting_callback_receiver::ConvertingCallbackReceiver;
use tinkerforge::converting_receiver::BrickletError;
use tinkerforge::ip_connection::{
    cancel_request, AuthenticateError, ConnectError, ConnectionState, EnumerateAnswer,
    EnumerationType, Request,
};

fn enumerate_payload() -> Vec<u8> {
    let mut payload = Vec::new();
    payload.extend_from_slice(b"6sQB8J\0\0");
    payload.extend_from_slice(b"0\0\0\0\0\0\0\0");
    payload.push(b'0');
    payload.extend_from_slice(&[1, 0, 0]);
    payload.extend_from_slice(&[2, 4, 4]);
    payload.extend_from_slice(&13u16.to_le_bytes());
    payload.push(1);
    payload
}

#[test]
fn enumerate_answer_decodes_the_documented_payload() {
    let payload = enumerate_payload();
    assert_eq!(payload.len(), EnumerateAnswer::bytes_expected());
    let answer = EnumerateAnswer::from_le_bytes(&payload);
    assert_eq!(answer.uid, "6sQB8J");
    assert_eq!(answer.connected_uid, "0");
    assert_eq!(answer.position, '0');
    assert_eq!(answer.hardware_version, [1, 0, 0]);
    assert_eq!(answer.firmware_version, [2, 4, 4]);
    assert_eq!(answer.device_identifier, 13);
    assert_eq!(answer.enumeration_type, EnumerationType::Connected);
}

#[test]
fn enumerate_answer_arrives_through_the_callback_receiver() {
    let (tx, rx) = channel();
    tx.send(enumerate_payload()).unwrap();
    let receiver: ConvertingCallbackReceiver<EnumerateAnswer> = ConvertingCallbackReceiver::new(
        rx,
    );
    let answer = receiver.try_recv().unwrap();
    assert_eq!(answer.enumeration_type, EnumerationType::Connected);
    assert_eq!(answer.uid, "6sQB8J");
}

#[test]
fn enumeration_types_follow_the_wire_byte() {
    assert_eq!(EnumerationType::from_byte(0), EnumerationType::Available);
    assert_eq!(EnumerationType::from_byte(1), EnumerationType::Connected);
    assert_eq!(EnumerationType::from_byte(2), EnumerationType::Disconnected);
    assert_eq!(EnumerationType::from_byte(3), EnumerationType::Unknown);
    assert_eq!(EnumerationType::from_byte(255), EnumerationType::Unknown);
}

#[test]
fn connection_states_follow_the_stored_number() {
    assert_eq!(ConnectionState::from_num(0), ConnectionState::Disconnected);
    assert_eq!(ConnectionState::from_num(1), ConnectionState::Connected);
    assert_eq!(ConnectionState::from_num(2), ConnectionState::Pending);
    assert_eq!(ConnectionState::from_num(77), ConnectionState::Disconnected);
}

#[test]
fn bricklet_errors_follow_the_error_code() {
    assert_eq!(BrickletError::from_code(1), BrickletError::InvalidParameter);
    assert_eq!(BrickletError::from_code(2), BrickletError::FunctionNotSupported);
    assert_eq!(BrickletError::from_code(3), BrickletError::UnknownError);
    assert_eq!(BrickletError::from_code(0), BrickletError::UnknownError);
}

#[test]
fn request_headers_carry_the_response_expected_bit() {
    let (tx, _rx) = channel();
    let get = Request::Get { uid: 5, function_id: 9, payload: vec![1, 2], response_sender: tx };
    let header = get.get_header(3);
    assert_eq!(header.uid, 5);
    assert_eq!(header.length, 10);
    assert_eq!(header.function_id, 9);
    assert_eq!(header.sequence_number, 3);
    assert!(header.response_expected);

    let set = Request::Setter { uid: 5, function_id: 9, payload: vec![], response_sender: None };
    assert!(!set.get_header(4).response_expected);
}

#[test]
fn cancelled_requests_tell_their_sink() {
    let (tx, rx) = channel();
    cancel_request(Request::Get { uid: 1, function_id: 2, payload: vec![], response_sender: tx });
    assert_eq!(rx.try_recv().unwrap(), Err(BrickletError::NotConnected));
    // A setter without a sink has nobody to tell.
    cancel_request(Request::Setter { uid: 1, function_id: 2, payload: vec![], response_sender: None });
}

#[test]
fn connection_error_messages_name_their_condition() {
    assert!(AuthenticateError.message().contains("server nonce"));
    assert!(ConnectError::AlreadyConnected.message().contains("Already connected"));
    assert!(BrickletError::NotConnected.message().contains("no connection"));
}
