//! The IP connection: the request variants that the socket worker accepts,
//! the public event and error types, and the request sender with the
//! authentication handshake.

use vstd::prelude::*;

use crate::byte_converter::{remove_zero_bytes, string_from_utf8, strip_zero_bytes, FromByteSlice};
use crate::converting_callback_receiver::ConvertingCallbackReceiver;
use crate::converting_receiver::{BrickletError, ConvertingReceiver};
use crate::packet::{PacketHeader, MAX_FRAME_SIZE, PACKET_HEADER_SIZE};
use std::sync::atomic::{AtomicBool, AtomicU64, AtomicUsize, Ordering};
use std::sync::mpsc::{Receiver, Sender};
use std::sync::Arc;

use hmac::Mac;

verus! {

/// Type of enumeration of a device.
#[derive(Copy, Clone, Debug, Eq, PartialEq, Hash, Structural)]
pub enum EnumerationType {
    /// Device is available (enumeration triggered by the user). This
    /// enumeration type can occur multiple times for the same device.
    Available,
    /// Device is newly connected (automatically sent by the brick after
    /// establishing a communication connection). The device may have lost
    /// its previous configuration and needs to be reconfigured.
    Connected,
    /// Device is disconnected (only possible for USB connection). Only uid
    /// and enumeration type are valid.
    Disconnected,
    /// Device returned an unknown enumeration type.
    Unknown,
}

impl EnumerationType {
    /// The enumeration type a payload byte names: 0 is `Available`, 1 is
    /// `Connected`, 2 is `Disconnected`, everything else is `Unknown`.
    pub open spec fn spec_from_byte(byte: u8) -> EnumerationType {
        if byte == 0 {
            EnumerationType::Available
        } else if byte == 1 {
            EnumerationType::Connected
        } else if byte == 2 {
            EnumerationType::Disconnected
        } else {
            EnumerationType::Unknown
        }
    }

    /// Map a payload byte to the enumeration type it names.
    pub fn from_byte(byte: u8) -> (r: EnumerationType)
        ensures
            r == EnumerationType::spec_from_byte(byte),
    {
        match byte {
            0 => EnumerationType::Available,
            1 => EnumerationType::Connected,
            2 => EnumerationType::Disconnected,
            _ => EnumerationType::Unknown,
        }
    }
}

/// Devices send `EnumerateAnswer`s when they are connected, disconnected or
/// when an enumeration was triggered by the user.
#[derive(Clone, Debug)]
pub struct EnumerateAnswer {
    /// The UID of the device.
    pub uid: String,
    /// UID of the brick the device is connected to; `"0"` for the bottom
    /// master brick of a stack.
    pub connected_uid: String,
    /// For bricks: `'0'` to `'8'` (position in stack). For bricklets: `'a'`
    /// to `'d'` (position on brick).
    pub position: char,
    /// Major, minor and release number for hardware version.
    pub hardware_version: [u8; 3],
    /// Major, minor and release number for firmware version.
    pub firmware_version: [u8; 3],
    /// A number that represents the device.
    pub device_identifier: u16,
    /// Type of enumeration.
    pub enumeration_type: EnumerationType,
}

impl FromByteSlice for EnumerateAnswer {
    /// The 26 payload bytes of an enumerate event: two 8-byte zero-padded
    /// UID strings, the position character, two 3-byte versions, the
    /// little-endian device identifier, and the enumeration type byte.
    open spec fn spec_decodes(bytes: Seq<u8>, v: Self) -> bool {
        &&& v.uid@ == vstd::utf8::decode_utf8(strip_zero_bytes(bytes.subrange(0, 8)))
        &&& v.connected_uid@ == vstd::utf8::decode_utf8(strip_zero_bytes(bytes.subrange(8, 16)))
        &&& v.position == bytes[16] as char
        &&& v.hardware_version@ == bytes.subrange(17, 20)
        &&& v.firmware_version@ == bytes.subrange(20, 23)
        &&& v.device_identifier == vstd::bytes::spec_u16_from_le_bytes(bytes.subrange(23, 25))
        &&& v.enumeration_type == EnumerationType::spec_from_byte(bytes[25])
    }

    open spec fn spec_bytes_expected() -> usize {
        26
    }

    open spec fn spec_decodable(bytes: Seq<u8>) -> bool {
        &&& vstd::utf8::valid_utf8(strip_zero_bytes(bytes.subrange(0, 8)))
        &&& vstd::utf8::valid_utf8(strip_zero_bytes(bytes.subrange(8, 16)))
    }

    fn from_le_bytes(bytes: &[u8]) -> (r: Self) {
        let uid_bytes = remove_zero_bytes(vstd::slice::slice_subrange(bytes, 0, 8));
        let connected_bytes = remove_zero_bytes(vstd::slice::slice_subrange(bytes, 8, 16));
        let uid = match string_from_utf8(uid_bytes) {
            Some(s) => s,
            None => {
                proof {
                    assert(false);
                }
                String::new()
            },
        };
        let connected_uid = match string_from_utf8(connected_bytes) {
            Some(s) => s,
            None => {
                proof {
                    assert(false);
                }
                String::new()
            },
        };
        let hardware_version = [bytes[17], bytes[18], bytes[19]];
        let firmware_version = [bytes[20], bytes[21], bytes[22]];
        proof {
            assert(hardware_version@ =~= bytes@.subrange(17, 20));
            assert(firmware_version@ =~= bytes@.subrange(20, 23));
        }
        EnumerateAnswer {
            uid,
            connected_uid,
            position: bytes[16] as char,
            hardware_version,
            firmware_version,
            device_identifier: vstd::bytes::u16_from_le_bytes(
                vstd::slice::slice_subrange(bytes, 23, 25),
            ),
            enumeration_type: EnumerationType::from_byte(bytes[25]),
        }
    }

    fn decodable(bytes: &[u8]) -> (r: bool) {
        let uid_bytes = remove_zero_bytes(vstd::slice::slice_subrange(bytes, 0, 8));
        let connected_bytes = remove_zero_bytes(vstd::slice::slice_subrange(bytes, 8, 16));
        let uid_ok = match string_from_utf8(uid_bytes) {
            Some(_) => true,
            None => false,
        };
        let connected_ok = match string_from_utf8(connected_bytes) {
            Some(_) => true,
            None => false,
        };
        uid_ok && connected_ok
    }

    fn bytes_expected() -> usize {
        26
    }
}

/// This enum specifies the reason of a successful connection.
#[derive(Clone, Copy, Debug, PartialEq, Eq, Structural)]
pub enum ConnectReason {
    /// Connection established after request from user.
    Request,
    /// Connection after auto-reconnect.
    AutoReconnect,
}

/// This enum specifies the reason of a connection's termination.
#[derive(Clone, Copy, Debug, PartialEq, Eq, Structural)]
pub enum DisconnectReason {
    /// Disconnect was requested by user.
    Request,
    /// Disconnect because of an unresolvable error.
    Error,
    /// Disconnect initiated by the brick daemon or the WIFI/Ethernet
    /// extension.
    Shutdown,
}

/// This error is raised if a connect call fails.
#[derive(Debug, Clone, PartialEq, Eq)]
pub enum ConnectError {
    /// Could not parse the given ip address. Holds the address as given.
    CouldNotParseIpAddress(String),
    /// An I/O error was raised while creating the socket. Holds the error's
    /// text.
    IoError(String),
    /// Already connected. Disconnect before connecting somewhere else.
    AlreadyConnected,
    /// Could not create tcp socket (failed to set the no-delay flag).
    CouldNotSetNoDelayFlag,
    /// Could not create tcp socket (failed to clone the tcp stream).
    CouldNotCloneTcpStream,
    /// Connect succeeded, but the socket was disconnected immediately.
    NotReallyConnected,
}

impl ConnectError {
    /// A human-readable description of the error.
    pub fn message(&self) -> &'static str {
        match self {
            ConnectError::CouldNotParseIpAddress(_) => "Could not parse ip address.",
            ConnectError::IoError(_) => "An io error was raised while creating the socket.",
            ConnectError::AlreadyConnected => "Already connected. Disconnect before connecting somewhere else.",
            ConnectError::CouldNotSetNoDelayFlag => "Could not create tcp socket (Failed to set no delay flag).",
            ConnectError::CouldNotCloneTcpStream => "Could not create tcp socket (Failed to clone tcp stream).",
            ConnectError::NotReallyConnected => "Connect succeeded, but the socket was disconnected immediately.",
        }
    }
}

/// This error is raised if a disconnect request failed, because there was no
/// connection to disconnect.
#[derive(Debug, Copy, Clone, PartialEq, Eq, Structural)]
pub struct DisconnectErrorNotConnected;

/// This enum is returned from the `get_connection_state` method.
#[derive(Debug, Clone, Copy, PartialEq, Eq, Structural)]
pub enum ConnectionState {
    /// No connection is established.
    Disconnected,
    /// A connection to the brick daemon or the WIFI/Ethernet extension is
    /// established.
    Connected,
    /// IP connection is currently trying to connect.
    Pending,
}

impl ConnectionState {
    /// The state a stored state number names: 1 is `Connected`, 2 is
    /// `Pending`, everything else is `Disconnected`.
    pub open spec fn spec_from_num(num: usize) -> ConnectionState {
        if num == 1 {
            ConnectionState::Connected
        } else if num == 2 {
            ConnectionState::Pending
        } else {
            ConnectionState::Disconnected
        }
    }

    /// Map a stored state number to the state it names.
    pub fn from_num(num: usize) -> (r: ConnectionState)
        ensures
            r == ConnectionState::spec_from_num(num),
    {
        match num {
            1 => ConnectionState::Connected,
            2 => ConnectionState::Pending,
            _ => ConnectionState::Disconnected,
        }
    }
}

/// This error is returned if the remote's server nonce could not be queried.
#[derive(Debug, Copy, Clone, PartialEq, Eq, Structural)]
pub struct AuthenticateError;

impl AuthenticateError {
    /// A human-readable description of the error.
    pub fn message(&self) -> &'static str {
        "Could not get server nonce"
    }
}

/// The first reply of the authentication handshake: the server's nonce.
pub struct ServerNonce(pub [u8; 4]);

impl FromByteSlice for ServerNonce {
    open spec fn spec_decodes(bytes: Seq<u8>, v: Self) -> bool {
        v.0@ == bytes.subrange(0, 4)
    }

    open spec fn spec_bytes_expected() -> usize {
        4
    }

    open spec fn spec_decodable(bytes: Seq<u8>) -> bool {
        true
    }

    fn from_le_bytes(bytes: &[u8]) -> (r: Self) {
        let nonce = [bytes[0], bytes[1], bytes[2], bytes[3]];
        proof {
            assert(nonce@ =~= bytes@.subrange(0, 4));
        }
        ServerNonce(nonce)
    }

    fn decodable(bytes: &[u8]) -> bool {
        true
    }

    fn bytes_expected() -> usize {
        4
    }
}

/// One request from a device handle or the request sender to the socket
/// worker.
pub enum Request {
    /// A setter: a response sink only when the response-expected flag asks
    /// for an acknowledgement.
    Setter {
        uid: u32,
        function_id: u8,
        payload: Vec<u8>,
        response_sender: Option<Sender<Result<Vec<u8>, BrickletError>>>,
    },
    /// A getter: always expects a response.
    Get {
        uid: u32,
        function_id: u8,
        payload: Vec<u8>,
        response_sender: Sender<Result<Vec<u8>, BrickletError>>,
    },
    /// Subscribe a sink to the callback with this uid and function id.
    RegisterCallback { uid: u32, function_id: u8, response_sender: Sender<Vec<u8>> },
    /// Subscribe a sink to connect events.
    RegisterConnectCallback(Sender<ConnectReason>),
    /// Subscribe a sink to disconnect events.
    RegisterDisconnectCallback(Sender<DisconnectReason>),
    /// Subscribe a sink to enumerate events.
    RegisterEnumerateCallback(Sender<Vec<u8>>),
}

impl Request {
    /// The header that a `Set` or `Get` request puts on the wire under a
    /// given sequence number.
    pub open spec fn spec_header(&self, sequence_number: u8) -> PacketHeader {
        match self {
            Request::Setter { uid, function_id, payload, response_sender } => PacketHeader {
                uid: *uid,
                length: (8 + payload@.len()) as u8,
                function_id: *function_id,
                sequence_number,
                response_expected: response_sender is Some,
                error_code: 0,
            },
            Request::Get { uid, function_id, payload, .. } => PacketHeader {
                uid: *uid,
                length: (8 + payload@.len()) as u8,
                function_id: *function_id,
                sequence_number,
                response_expected: true,
                error_code: 0,
            },
            _ => PacketHeader {
                uid: 0,
                length: 0,
                function_id: 0,
                sequence_number: 0,
                response_expected: false,
                error_code: 0,
            },
        }
    }

    /// Whether the request goes on the wire at all: only setters and
    /// getters do; registrations stay inside the worker.
    pub open spec fn spec_is_wire_request(&self) -> bool {
        self is Setter || self is Get
    }

    /// The payload the request carries on the wire.
    pub open spec fn spec_payload(&self) -> Seq<u8> {
        match self {
            Request::Setter { payload, .. } => payload@,
            Request::Get { payload, .. } => payload@,
            _ => Seq::empty(),
        }
    }

    /// Build the header for this setter or getter under a sequence number.
    pub fn get_header(&self, sequence_number: u8) -> (r: PacketHeader)
        requires
            self.spec_is_wire_request(),
            self.spec_payload().len() <= MAX_FRAME_SIZE - PACKET_HEADER_SIZE,
        ensures
            r == self.spec_header(sequence_number),
    {
        match self {
            Request::Setter { uid, function_id, payload, response_sender } => {
                let response_expected = match response_sender {
                    Some(_) => true,
                    None => false,
                };
                PacketHeader::with_payload(
                    *uid,
                    *function_id,
                    sequence_number,
                    response_expected,
                    payload.len() as u8,
                )
            },
            Request::Get { uid, function_id, payload, .. } => PacketHeader::with_payload(
                *uid,
                *function_id,
                sequence_number,
                true,
                payload.len() as u8,
            ),
            _ => {
                proof {
                    assert(false);
                }
                PacketHeader::with_payload(0, 0, 0, false, 0)
            },
        }
    }
}

/// Cancel a setter or getter that cannot be served: its response sink, if it
/// has one, is told that there is no connection.
pub fn cancel_request(request: Request) -> (nothing: ())
    requires
        request.spec_is_wire_request(),
{
    let response_sender_opt = match request {
        Request::Setter { response_sender, .. } => response_sender,
        Request::Get { response_sender, .. } => Some(response_sender),
        _ => None,
    };
    if let Some(response_sender) = response_sender_opt {
        let _ = crate::channel::channel_send(
            &response_sender,
            Err::<Vec<u8>, BrickletError>(BrickletError::NotConnected),
        );
    }
}

/// One message on the socket worker's work queue.
pub enum SocketThreadRequest {
    /// A request from a device handle or the request sender, with the ack
    /// channel into which the worker posts the current timeout (in
    /// milliseconds) once the request is on the wire or cancelled.
    Request(Request, Sender<u64>),
    /// Connect to this host and port; the sink learns how it went.
    Connect(String, u16, Sender<Result<(), ConnectError>>),
    /// Disconnect; the sink learns how it went.
    Disconnect(Sender<Result<(), DisconnectErrorNotConnected>>),
    /// Injected by the frame reader: its session's socket closed, gracefully
    /// or not.
    SocketWasClosed(u64, bool),
    /// Injected by the frame reader: one decoded frame.
    Response(PacketHeader, Vec<u8>),
    /// Set the timeout for typed receivers, in milliseconds.
    SetTimeout(u64),
    /// Reconnect to this host and port, if auto-reconnect is still allowed.
    TriggerAutoReconnect(String, u16),
    /// Enable or disable auto-reconnect.
    SetAutoReconnect(bool),
    /// Leave the worker loop.
    Terminate,
}

/// The result of the keyed-hash step of the authentication handshake:
/// what `HMAC-SHA1(secret, message)` returns for the given key and message
/// bytes. The digest depends on its two arguments alone.
pub uninterp spec fn hmac_sha1_of(key: Seq<u8>, message: Seq<u8>) -> Seq<u8>;

/// Relies on hmac's `Hmac<Sha1>`: the digest is a function of the key and
/// message bytes alone and is 20 bytes long; `Hmac` accepts keys of every
/// length, so `new_from_slice` cannot fail.
#[verifier::external_body]
fn hmac_sha1(key: &[u8], message: &[u8]) -> (r: Vec<u8>)
    ensures
        r@ == hmac_sha1_of(key@, message@),
        r@.len() == 20,
{
    let mut mac = <hmac::Hmac<sha1::Sha1> as hmac::KeyInit>::new_from_slice(key)
        .expect("HMAC accepts keys of any length");
    mac.update(message);
    mac.finalize().into_bytes().to_vec()
}

/// Relies on rand's `random`, a cryptographically secure generator seeded
/// from OS entropy. Nothing is promised of the value.
#[verifier::external_body]
fn random_nonce() -> [u8; 4] {
    rand::random()
}

/// Build the authentication payload: the 4-byte client nonce, then the
/// 20-byte `HMAC-SHA1` digest, keyed with the secret, of the server nonce
/// followed by the client nonce.
pub fn build_auth_payload(server_nonce: &[u8; 4], client_nonce: &[u8; 4], secret: &[u8]) -> (r:
    Vec<u8>)
    ensures
        r@.len() == 24,
        r@.subrange(0, 4) == client_nonce@,
        r@.subrange(4, 24) == hmac_sha1_of(secret@, server_nonce@ + client_nonce@),
{
    let mut to_hash: Vec<u8> = Vec::new();
    to_hash.push(server_nonce[0]);
    to_hash.push(server_nonce[1]);
    to_hash.push(server_nonce[2]);
    to_hash.push(server_nonce[3]);
    to_hash.push(client_nonce[0]);
    to_hash.push(client_nonce[1]);
    to_hash.push(client_nonce[2]);
    to_hash.push(client_nonce[3]);
    proof {
        assert(to_hash@ =~= server_nonce@ + client_nonce@);
    }
    let digest = hmac_sha1(secret, to_hash.as_slice());
    let mut payload: Vec<u8> = Vec::new();
    payload.push(client_nonce[0]);
    payload.push(client_nonce[1]);
    payload.push(client_nonce[2]);
    payload.push(client_nonce[3]);
    let mut i: usize = 0;
    while i < digest.len()
        invariant
            i <= digest@.len(),
            digest@.len() == 20,
            payload@.len() == 4 + i,
            payload@.subrange(0, 4) =~= client_nonce@,
            payload@.subrange(4, payload@.len() as int) =~= digest@.take(i as int),
        decreases digest@.len() - i,
    {
        payload.push(digest[i]);
        proof {
            assert(payload@.subrange(0, 4) =~= client_nonce@);
            assert(payload@.subrange(4, payload@.len() as int) =~= digest@.take(i as int + 1));
        }
        i += 1;
    }
    proof {
        assert(payload@.subrange(4, 24) =~= digest@);
    }
    payload
}

/// The second request of the authentication handshake: a setter on the
/// reserved daemon uid, function id 2, with a response sink, carrying
/// exactly the payload [`build_auth_payload`] states for these nonces and
/// this secret.
pub fn auth_request(
    server_nonce: &[u8; 4],
    client_nonce: &[u8; 4],
    secret: &[u8],
    response_sender: Sender<Result<Vec<u8>, BrickletError>>,
) -> (r: Request)
    ensures
        r is Setter,
        crate::worker::spec_request_uid(&r) == 1,
        crate::worker::spec_request_function_id(&r) == 2,
        crate::worker::spec_request_sink(&r) == Some(response_sender),
        r.spec_payload().len() == 24,
        r.spec_payload().subrange(0, 4) == client_nonce@,
        r.spec_payload().subrange(4, 24) == hmac_sha1_of(secret@, server_nonce@ + client_nonce@),
{
    let payload = build_auth_payload(server_nonce, client_nonce, secret);
    crate::worker::setter_request(1, 2, payload, Some(response_sender))
}

/// A connect order to the socket worker, carrying exactly this host, port
/// and done-sink; the worker loop parses the host and answers parse and
/// socket failures into the sink.
pub fn connect_message(
    host: String,
    port: u16,
    done: Sender<Result<(), ConnectError>>,
) -> (r: SocketThreadRequest)
    ensures
        (r matches SocketThreadRequest::Connect(h, p, d) && h@ == host@ && p == port && d
            == done),
{
    SocketThreadRequest::Connect(host, port, done)
}

/// A disconnect order to the socket worker, carrying exactly this
/// done-sink.
pub fn disconnect_message(done: Sender<Result<(), DisconnectErrorNotConnected>>) -> (r:
    SocketThreadRequest)
    ensures
        (r matches SocketThreadRequest::Disconnect(d) && d == done),
{
    SocketThreadRequest::Disconnect(done)
}

/// A handle on the socket worker's work queue, to be cloned into every
/// thread that talks to the connection.
#[derive(Clone)]
pub struct IpConRequestSender {
    socket_thread_tx: Sender<SocketThreadRequest>,
    connection_state: Arc<AtomicUsize>,
    auto_reconnect_enabled: Arc<AtomicBool>,
    current_timeout_ms: Arc<AtomicU64>,
}

impl IpConRequestSender {
    /// A request sender over the worker's work queue. The three shared
    /// cells mirror what the worker publishes: the connection state, the
    /// auto-reconnect flag and the current timeout.
    pub fn new(
        socket_thread_tx: Sender<SocketThreadRequest>,
        connection_state: Arc<AtomicUsize>,
        auto_reconnect_enabled: Arc<AtomicBool>,
        current_timeout_ms: Arc<AtomicU64>,
    ) -> IpConRequestSender {
        IpConRequestSender {
            socket_thread_tx,
            connection_state,
            auto_reconnect_enabled,
            current_timeout_ms,
        }
    }

    /// Another handle on the same work queue and the same shared cells.
    pub fn clone_sender(&self) -> IpConRequestSender {
        self.clone()
    }

    /// A clone of the raw work-queue sender, for device handles.
    pub fn request_sender_clone(&self) -> Sender<SocketThreadRequest> {
        self.socket_thread_tx.clone()
    }

    /// Ask the worker to open a TCP/IP connection to the given host and
    /// port. The returned receiver learns how the connect went; a host that
    /// is no IP address is answered with `CouldNotParseIpAddress`.
    pub fn connect(&self, host: &str, port: u16) -> Receiver<Result<(), ConnectError>> {
        let (tx, rx) = crate::channel::channel_pair();
        let _ = crate::channel::channel_send(
            &self.socket_thread_tx,
            connect_message(host.to_owned(), port, tx),
        );
        rx
    }

    /// Ask the worker to drop the connection. The returned receiver learns
    /// how the disconnect went.
    pub fn disconnect(&self) -> Receiver<Result<(), DisconnectErrorNotConnected>> {
        let (tx, rx) = crate::channel::channel_pair();
        let _ = crate::channel::channel_send(&self.socket_thread_tx, disconnect_message(tx));
        rx
    }

    /// Subscribe to connect events: one event per established connection,
    /// saying whether it was requested or an auto-reconnect.
    pub fn get_connect_event_listener(&self) -> Receiver<ConnectReason> {
        let (tx, rx) = crate::channel::channel_pair();
        let (sent_tx, sent_rx) = crate::channel::channel_pair();
        let _ = crate::channel::channel_send(
            &self.socket_thread_tx,
            SocketThreadRequest::Request(crate::worker::register_connect_request(tx), sent_tx),
        );
        let _ = crate::channel::channel_recv(&sent_rx);
        rx
    }

    /// Subscribe to disconnect events: one event per ended connection, with
    /// the reason it ended.
    pub fn get_disconnect_event_listener(&self) -> Receiver<DisconnectReason> {
        let (tx, rx) = crate::channel::channel_pair();
        let (sent_tx, sent_rx) = crate::channel::channel_pair();
        let _ = crate::channel::channel_send(
            &self.socket_thread_tx,
            SocketThreadRequest::Request(
                crate::worker::register_disconnect_request(tx),
                sent_tx,
            ),
        );
        let _ = crate::channel::channel_recv(&sent_rx);
        rx
    }

    /// The timeout for getters and for setters whose response-expected flag
    /// is set, in milliseconds.
    pub fn get_timeout(&self) -> u64 {
        self.current_timeout_ms.load(Ordering::SeqCst)
    }

    /// Set the timeout for getters and for setters whose response-expected
    /// flag is set. The default is 2500 milliseconds.
    pub fn set_timeout(&mut self, timeout_ms: u64) {
        let _ = crate::channel::channel_send(
            &self.socket_thread_tx,
            SocketThreadRequest::SetTimeout(timeout_ms),
        );
        self.current_timeout_ms.store(timeout_ms, Ordering::SeqCst);
    }

    /// The connection state the worker last published.
    pub fn get_connection_state(&self) -> ConnectionState {
        ConnectionState::from_num(self.connection_state.load(Ordering::SeqCst))
    }

    /// Whether auto-reconnect is enabled.
    pub fn get_auto_reconnect(&self) -> bool {
        self.auto_reconnect_enabled.load(Ordering::SeqCst)
    }

    /// Enable or disable auto-reconnect: whether a lost connection is
    /// reopened to the previously given host and port.
    pub fn set_auto_reconnect(&mut self, enabled: bool) {
        let _ = crate::channel::channel_send(
            &self.socket_thread_tx,
            SocketThreadRequest::SetAutoReconnect(enabled),
        );
        self.auto_reconnect_enabled.store(enabled, Ordering::SeqCst);
    }

    /// Broadcast an enumerate request. All devices respond with an
    /// enumerate event.
    pub fn enumerate(&self) {
        let (sent_tx, sent_rx) = crate::channel::channel_pair();
        let _ = crate::channel::channel_send(
            &self.socket_thread_tx,
            SocketThreadRequest::Request(crate::worker::enumerate_request(), sent_tx),
        );
        let _ = crate::channel::channel_recv(&sent_rx);
    }

    /// Subscribe to enumerate events.
    pub fn get_enumerate_event_listener(&self) -> ConvertingCallbackReceiver<EnumerateAnswer> {
        let (tx, rx) = crate::channel::channel_pair();
        let (sent_tx, sent_rx) = crate::channel::channel_pair();
        let _ = crate::channel::channel_send(
            &self.socket_thread_tx,
            SocketThreadRequest::Request(
                crate::worker::register_enumerate_request(tx),
                sent_tx,
            ),
        );
        let _ = crate::channel::channel_recv(&sent_rx);
        ConvertingCallbackReceiver::new(rx)
    }

    /// Perform the authentication handshake: fetch the 4-byte server nonce
    /// from the reserved daemon endpoint (through [`getter_request`] on uid
    /// 1, function id 1), draw a fresh client nonce from a cryptographic
    /// generator, and send back the request [`auth_request`] builds: uid 1,
    /// function id 2, a response sink, and the nonce-plus-digest payload
    /// [`build_auth_payload`] states. `Err` when the server nonce cannot be
    /// obtained; otherwise the returned receiver waits for the daemon's
    /// acknowledgement, with nothing pre-filled.
    ///
    /// [`getter_request`]: crate::worker::getter_request
    pub fn authenticate(&self, secret: &str) -> (r: Result<
        ConvertingReceiver<()>,
        AuthenticateError,
    >)
        ensures
            r matches Ok(receiver) ==> receiver.spec_prefilled() is None,
    {
        let (tx, rx) = crate::channel::channel_pair();
        let (sent_tx, sent_rx) = crate::channel::channel_pair();
        let _ = crate::channel::channel_send(
            &self.socket_thread_tx,
            SocketThreadRequest::Request(
                crate::worker::getter_request(1, 1, Vec::new(), tx),
                sent_tx,
            ),
        );
        let timeout_ms = match crate::channel::channel_recv(&sent_rx) {
            crate::channel::RecvOutcome::Received(t) => t,
            crate::channel::RecvOutcome::Disconnected => {
                return Err(AuthenticateError);
            },
        };
        let mut nonce_receiver: ConvertingReceiver<ServerNonce> = ConvertingReceiver::new(
            rx,
            timeout_ms,
        );
        let server_nonce = match nonce_receiver.recv() {
            Ok(nonce) => nonce,
            Err(_) => {
                return Err(AuthenticateError);
            },
        };
        let client_nonce = random_nonce();
        let (auth_tx, auth_rx) = crate::channel::channel_pair();
        let (auth_sent_tx, auth_sent_rx) = crate::channel::channel_pair();
        let request = auth_request(&server_nonce.0, &client_nonce, secret.as_bytes(), auth_tx);
        let _ = crate::channel::channel_send(
            &self.socket_thread_tx,
            SocketThreadRequest::Request(request, auth_sent_tx),
        );
        let timeout_ms = match crate::channel::channel_recv(&auth_sent_rx) {
            crate::channel::RecvOutcome::Received(t) => t,
            crate::channel::RecvOutcome::Disconnected => {
                return Err(AuthenticateError);
            },
        };
        Ok(ConvertingReceiver::new(auth_rx, timeout_ms))
    }
}

} // verus!

