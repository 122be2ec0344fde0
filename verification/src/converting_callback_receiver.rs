//! A wrapper for a byte channel receiver which converts received byte
//! vectors to structured data. This variant of
//! [`ConvertingReceiver`](crate::converting_receiver::ConvertingReceiver) is
//! used for event listeners.

use vstd::prelude::*;

use crate::byte_converter::FromByteSlice;
use crate::channel::{RecvOutcome, RecvTimeoutOutcome, TryRecvOutcome};
use std::sync::mpsc::Receiver;
use std::time::Duration;

verus! {

/// Error type which is returned if a
/// [`ConvertingCallbackReceiver::recv_forever`] call fails.
#[derive(Debug, Copy, Clone, PartialEq, Eq, Structural)]
pub enum CallbackRecvError {
    /// The queue was disconnected. This usually happens if the ip connection
    /// is destroyed.
    QueueDisconnected,
    /// The received packet had an unexpected length. Maybe a function was
    /// called on a wrong brick or bricklet?
    MalformedPacket,
}

impl CallbackRecvError {
    /// A human-readable description of the error.
    pub fn message(&self) -> &'static str {
        match self {
            CallbackRecvError::QueueDisconnected => "The queue was disconnected. This usually happens if the ip connection is destroyed.",
            CallbackRecvError::MalformedPacket => "The received packet had an unexpected length. Maybe a function was called on a wrong brick or bricklet?",
        }
    }
}

/// Error type which is returned if a
/// [`ConvertingCallbackReceiver::recv_timeout`] call fails.
#[derive(Debug, Copy, Clone, PartialEq, Eq, Structural)]
pub enum CallbackRecvTimeoutError {
    /// The queue was disconnected. This usually happens if the ip connection
    /// is destroyed.
    QueueDisconnected,
    /// The request could not be answered before the timeout was reached.
    QueueTimeout,
    /// The received packet had an unexpected length. Maybe a function was
    /// called on a wrong brick or bricklet?
    MalformedPacket,
}

impl CallbackRecvTimeoutError {
    /// A human-readable description of the error.
    pub fn message(&self) -> &'static str {
        match self {
            CallbackRecvTimeoutError::QueueDisconnected => "The queue was disconnected. This usually happens if the ip connection is destroyed.",
            CallbackRecvTimeoutError::QueueTimeout => "The request could not be answered before the timeout was reached.",
            CallbackRecvTimeoutError::MalformedPacket => "The received packet had an unexpected length. Maybe a function was called on a wrong brick or bricklet?",
        }
    }
}

/// Error type which is returned if a [`ConvertingCallbackReceiver::try_recv`]
/// call fails.
#[derive(Debug, Copy, Clone, PartialEq, Eq, Structural)]
pub enum CallbackTryRecvError {
    /// The queue was disconnected. This usually happens if the ip connection
    /// is destroyed.
    QueueDisconnected,
    /// There are currently no answers available.
    QueueEmpty,
    /// The received packet had an unexpected length. Maybe a function was
    /// called on a wrong brick or bricklet?
    MalformedPacket,
}

impl CallbackTryRecvError {
    /// A human-readable description of the error.
    pub fn message(&self) -> &'static str {
        match self {
            CallbackTryRecvError::QueueDisconnected => "The queue was disconnected. This usually happens if the ip connection is destroyed.",
            CallbackTryRecvError::QueueEmpty => "There are currently no answers available.",
            CallbackTryRecvError::MalformedPacket => "The received packet had an unexpected length. Maybe a function was called on a wrong brick or bricklet?",
        }
    }
}

/// A wrapper for a receiver of callback payloads, which converts received
/// byte vectors to instances of `T`. Unlike a
/// [`ConvertingReceiver`](crate::converting_receiver::ConvertingReceiver) it
/// has no deadline of its own and no error channel: the worker queues only
/// raw payload bytes for callbacks.
pub struct ConvertingCallbackReceiver<T: FromByteSlice> {
    receiver: Receiver<Vec<u8>>,
    phantom: core::marker::PhantomData<T>,
}

impl<T: FromByteSlice> ConvertingCallbackReceiver<T> {
    /// Creates a new converting callback receiver which wraps the given
    /// receiver.
    pub fn new(receiver: Receiver<Vec<u8>>) -> ConvertingCallbackReceiver<T> {
        ConvertingCallbackReceiver { receiver, phantom: core::marker::PhantomData }
    }

    /// Attempts to return a pending value on this receiver without blocking.
    ///
    /// Whatever payload the socket worker queued, the result is its decoding
    /// when it has the length `T` expects, and `MalformedPacket` otherwise;
    /// an empty or disconnected queue keeps its name.
    pub fn try_recv(&self) -> (r: Result<T, CallbackTryRecvError>)
        ensures
            r is Ok ==> (exists|bytes: Seq<u8>|
                bytes.len() == T::spec_bytes_expected() && #[trigger] T::spec_decodable(bytes)
                    && T::spec_decodes(bytes, r->Ok_0)),
    {
        interpret_callback_try_outcome(crate::channel::channel_try_recv(&self.receiver))
    }

    /// Attempts to wait for a value on this receiver, with no deadline.
    ///
    /// Whatever payload the socket worker queued, the result is its decoding
    /// when it has the length `T` expects, and `MalformedPacket` otherwise;
    /// a disconnected queue keeps its name.
    pub fn recv_forever(&self) -> (r: Result<T, CallbackRecvError>)
        ensures
            r is Ok ==> (exists|bytes: Seq<u8>|
                bytes.len() == T::spec_bytes_expected() && #[trigger] T::spec_decodable(bytes)
                    && T::spec_decodes(bytes, r->Ok_0)),
    {
        interpret_callback_outcome(crate::channel::channel_recv(&self.receiver))
    }

    /// Attempts to wait for a value on this receiver, for at most the given
    /// timeout.
    ///
    /// Whatever payload the socket worker queued, the result is its decoding
    /// when it has the length `T` expects, and `MalformedPacket` otherwise;
    /// a timeout or a disconnected queue keeps its name.
    pub fn recv_timeout(&self, timeout: Duration) -> (r: Result<T, CallbackRecvTimeoutError>)
        ensures
            r is Ok ==> (exists|bytes: Seq<u8>|
                bytes.len() == T::spec_bytes_expected() && #[trigger] T::spec_decodable(bytes)
                    && T::spec_decodes(bytes, r->Ok_0)),
    {
        interpret_callback_timeout_outcome(
            crate::channel::channel_recv_timeout(&self.receiver, &timeout),
        )
    }
}

/// What one channel outcome means to a blocking callback `recv_forever`: a
/// disconnected queue is `QueueDisconnected`, and a received payload decodes
/// as [`convert_callback`] states.
pub fn interpret_callback_outcome<T: FromByteSlice>(outcome: RecvOutcome<Vec<u8>>) -> (r: Result<
    T,
    CallbackRecvError,
>)
    ensures
        outcome is Disconnected ==> r == Err::<T, CallbackRecvError>(
            CallbackRecvError::QueueDisconnected,
        ),
        (outcome matches RecvOutcome::Received(bytes) ==> ((bytes@.len()
            == T::spec_bytes_expected() && T::spec_decodable(bytes@) ==> r is Ok
            && T::spec_decodes(bytes@, r->Ok_0)) && (!(bytes@.len() == T::spec_bytes_expected()
            && T::spec_decodable(bytes@)) ==> r == Err::<T, CallbackRecvError>(
            CallbackRecvError::MalformedPacket,
        )))),
{
    match outcome {
        RecvOutcome::Received(bytes) => convert_callback(bytes),
        RecvOutcome::Disconnected => Err(CallbackRecvError::QueueDisconnected),
    }
}

/// What one channel outcome means to a callback `recv_timeout`: the deadline
/// passing is `QueueTimeout`, a disconnected queue is `QueueDisconnected`,
/// and a received payload decodes as [`convert_callback_timeout`] states.
pub fn interpret_callback_timeout_outcome<T: FromByteSlice>(
    outcome: RecvTimeoutOutcome<Vec<u8>>,
) -> (r: Result<T, CallbackRecvTimeoutError>)
    ensures
        outcome is Timeout ==> r == Err::<T, CallbackRecvTimeoutError>(
            CallbackRecvTimeoutError::QueueTimeout,
        ),
        outcome is Disconnected ==> r == Err::<T, CallbackRecvTimeoutError>(
            CallbackRecvTimeoutError::QueueDisconnected,
        ),
        (outcome matches RecvTimeoutOutcome::Received(bytes) ==> ((bytes@.len()
            == T::spec_bytes_expected() && T::spec_decodable(bytes@) ==> r is Ok
            && T::spec_decodes(bytes@, r->Ok_0)) && (!(bytes@.len() == T::spec_bytes_expected()
            && T::spec_decodable(bytes@)) ==> r == Err::<T, CallbackRecvTimeoutError>(
            CallbackRecvTimeoutError::MalformedPacket,
        )))),
{
    match outcome {
        RecvTimeoutOutcome::Received(bytes) => convert_callback_timeout(bytes),
        RecvTimeoutOutcome::Timeout => Err(CallbackRecvTimeoutError::QueueTimeout),
        RecvTimeoutOutcome::Disconnected => Err(CallbackRecvTimeoutError::QueueDisconnected),
    }
}

/// What one channel outcome means to a non-blocking callback `try_recv`: an
/// empty queue is `QueueEmpty`, a disconnected queue is `QueueDisconnected`,
/// and a received payload decodes as [`convert_callback_try`] states.
pub fn interpret_callback_try_outcome<T: FromByteSlice>(outcome: TryRecvOutcome<Vec<u8>>) -> (r:
    Result<T, CallbackTryRecvError>)
    ensures
        outcome is Empty ==> r == Err::<T, CallbackTryRecvError>(CallbackTryRecvError::QueueEmpty),
        outcome is Disconnected ==> r == Err::<T, CallbackTryRecvError>(
            CallbackTryRecvError::QueueDisconnected,
        ),
        (outcome matches TryRecvOutcome::Received(bytes) ==> ((bytes@.len()
            == T::spec_bytes_expected() && T::spec_decodable(bytes@) ==> r is Ok
            && T::spec_decodes(bytes@, r->Ok_0)) && (!(bytes@.len() == T::spec_bytes_expected()
            && T::spec_decodable(bytes@)) ==> r == Err::<T, CallbackTryRecvError>(
            CallbackTryRecvError::MalformedPacket,
        )))),
{
    match outcome {
        TryRecvOutcome::Received(bytes) => convert_callback_try(bytes),
        TryRecvOutcome::Empty => Err(CallbackTryRecvError::QueueEmpty),
        TryRecvOutcome::Disconnected => Err(CallbackTryRecvError::QueueDisconnected),
    }
}

/// Decode one callback payload for `recv_forever`: bytes of the expected
/// length that decode give the value, anything else is `MalformedPacket`.
pub fn convert_callback<T: FromByteSlice>(bytes: Vec<u8>) -> (r: Result<T, CallbackRecvError>)
    ensures
        bytes@.len() == T::spec_bytes_expected() && T::spec_decodable(bytes@) ==> r is Ok
            && T::spec_decodes(bytes@, r->Ok_0),
        !(bytes@.len() == T::spec_bytes_expected() && T::spec_decodable(bytes@)) ==> r == Err::<
            T,
            CallbackRecvError,
        >(CallbackRecvError::MalformedPacket),
{
    if T::bytes_expected() == bytes.len() && T::decodable(bytes.as_slice()) {
        Ok(T::from_le_bytes(bytes.as_slice()))
    } else {
        Err(CallbackRecvError::MalformedPacket)
    }
}

/// Decode one callback payload for `recv_timeout`, as [`convert_callback`]
/// does.
pub fn convert_callback_timeout<T: FromByteSlice>(bytes: Vec<u8>) -> (r: Result<
    T,
    CallbackRecvTimeoutError,
>)
    ensures
        bytes@.len() == T::spec_bytes_expected() && T::spec_decodable(bytes@) ==> r is Ok
            && T::spec_decodes(bytes@, r->Ok_0),
        !(bytes@.len() == T::spec_bytes_expected() && T::spec_decodable(bytes@)) ==> r == Err::<
            T,
            CallbackRecvTimeoutError,
        >(CallbackRecvTimeoutError::MalformedPacket),
{
    if T::bytes_expected() == bytes.len() && T::decodable(bytes.as_slice()) {
        Ok(T::from_le_bytes(bytes.as_slice()))
    } else {
        Err(CallbackRecvTimeoutError::MalformedPacket)
    }
}

/// Decode one callback payload for `try_recv`, as [`convert_callback`] does.
pub fn convert_callback_try<T: FromByteSlice>(bytes: Vec<u8>) -> (r: Result<
    T,
    CallbackTryRecvError,
>)
    ensures
        bytes@.len() == T::spec_bytes_expected() && T::spec_decodable(bytes@) ==> r is Ok
            && T::spec_decodes(bytes@, r->Ok_0),
        !(bytes@.len() == T::spec_bytes_expected() && T::spec_decodable(bytes@)) ==> r == Err::<
            T,
            CallbackTryRecvError,
        >(CallbackTryRecvError::MalformedPacket),
{
    if T::bytes_expected() == bytes.len() && T::decodable(bytes.as_slice()) {
        Ok(T::from_le_bytes(bytes.as_slice()))
    } else {
        Err(CallbackTryRecvError::MalformedPacket)
    }
}

} // verus!
