//! A wrapper for a byte channel receiver which converts received byte
//! vectors to structured data, bounded by the connection timeout.

use vstd::prelude::*;

use crate::byte_converter::FromByteSlice;
use crate::channel::{RecvTimeoutOutcome, TryRecvOutcome};
use std::sync::mpsc::Receiver;

verus! {

/// Error type for interactions with Tinkerforge bricks or bricklets.
#[derive(Debug, Copy, Clone, PartialEq, Eq, Structural)]
pub enum BrickletError {
    /// A parameter was invalid or had an unexpected length.
    InvalidParameter,
    /// The brick or bricklet does not support the requested function.
    FunctionNotSupported,
    /// Currently unused.
    UnknownError,
    /// The request can not be fulfilled, as there is currently no connection
    /// to a brick daemon.
    NotConnected,
    /// The request was sent, but response expected is disabled, so no
    /// response can be received. This is not an error.
    SuccessButResponseExpectedIsDisabled,
}

impl BrickletError {
    /// The error a response header's two-bit error code names: 1 is
    /// `InvalidParameter`, 2 is `FunctionNotSupported`, everything else is
    /// `UnknownError`.
    pub open spec fn spec_from_code(byte: u8) -> BrickletError {
        if byte == 1 {
            BrickletError::InvalidParameter
        } else if byte == 2 {
            BrickletError::FunctionNotSupported
        } else {
            BrickletError::UnknownError
        }
    }

    /// Map a response header's error code to the error it names.
    pub fn from_code(byte: u8) -> (r: BrickletError)
        ensures
            r == BrickletError::spec_from_code(byte),
    {
        match byte {
            1 => BrickletError::InvalidParameter,
            2 => BrickletError::FunctionNotSupported,
            _ => BrickletError::UnknownError,
        }
    }

    /// A human-readable description of the error.
    pub fn message(&self) -> &'static str {
        match self {
            BrickletError::InvalidParameter => "A parameter was invalid or had an unexpected length.",
            BrickletError::FunctionNotSupported => "The brick or bricklet does not support the requested function.",
            BrickletError::UnknownError => "UnknownError, Currently unused",
            BrickletError::NotConnected => "The request can not be fulfilled, as there is currently no connection to a brick daemon.",
            BrickletError::SuccessButResponseExpectedIsDisabled => "The request was sent, but response expected is disabled, so no response can be received. This is not an error.",
        }
    }
}

/// Error type which is returned if a [`ConvertingReceiver::recv`] call fails.
#[derive(Debug, Copy, Clone, PartialEq, Eq, Structural)]
pub enum BrickletRecvTimeoutError {
    /// The queue was disconnected. This usually happens if the ip connection
    /// is destroyed.
    QueueDisconnected,
    /// The request could not be responded to before the timeout was reached.
    QueueTimeout,
    /// A parameter was invalid or had an unexpected length.
    InvalidParameter,
    /// The brick or bricklet does not support the requested function.
    FunctionNotSupported,
    /// Currently unused.
    UnknownError,
    /// The received packet had an unexpected length. Maybe a function was
    /// called on a wrong brick or bricklet?
    MalformedPacket,
    /// The request can not be fulfilled, as there is currently no connection
    /// to a brick daemon.
    NotConnected,
    /// The request was sent, but response expected is disabled, so no
    /// response can be received. This is not an error.
    SuccessButResponseExpectedIsDisabled,
}

impl BrickletRecvTimeoutError {
    /// A human-readable description of the error.
    pub fn message(&self) -> &'static str {
        match self {
            BrickletRecvTimeoutError::QueueDisconnected => "The queue was disconnected. This usually happens if the ip connection is destroyed.",
            BrickletRecvTimeoutError::QueueTimeout => "The request could not be responded to before the timeout was reached.",
            BrickletRecvTimeoutError::InvalidParameter => "A parameter was invalid or had an unexpected length.",
            BrickletRecvTimeoutError::FunctionNotSupported => "The brick or bricklet does not support the requested function.",
            BrickletRecvTimeoutError::UnknownError => "UnknownError, Currently unused",
            BrickletRecvTimeoutError::MalformedPacket => "The received packet had an unexpected length. Maybe a function was called on a wrong brick or bricklet?",
            BrickletRecvTimeoutError::NotConnected => "The request can not be fulfilled, as there is currently no connection to a brick daemon.",
            BrickletRecvTimeoutError::SuccessButResponseExpectedIsDisabled => "The request was sent, but response expected is disabled, so no response can be received. This is not an error.",
        }
    }
}

/// Error type which is returned if a [`ConvertingReceiver::try_recv`] call
/// fails.
#[derive(Debug, Copy, Clone, PartialEq, Eq, Structural)]
pub enum BrickletTryRecvError {
    /// The queue was disconnected. This usually happens if the ip connection
    /// is destroyed.
    QueueDisconnected,
    /// There are currently no responses available.
    QueueEmpty,
    /// A parameter was invalid or had an unexpected length.
    InvalidParameter,
    /// The brick or bricklet does not support the requested function.
    FunctionNotSupported,
    /// Currently unused.
    UnknownError,
    /// The received packet had an unexpected length. Maybe a function was
    /// called on a wrong brick or bricklet?
    MalformedPacket,
    /// The request can not be fulfilled, as there is currently no connection
    /// to a brick daemon.
    NotConnected,
    /// The request was sent, but response expected is disabled, so no
    /// response can be received. This is not an error.
    SuccessButResponseExpectedIsDisabled,
}

impl BrickletTryRecvError {
    /// A human-readable description of the error.
    pub fn message(&self) -> &'static str {
        match self {
            BrickletTryRecvError::QueueDisconnected => "The queue was disconnected. This usually happens if the ip connection is destroyed.",
            BrickletTryRecvError::QueueEmpty => "There are currently no responses available.",
            BrickletTryRecvError::InvalidParameter => "A parameter was invalid or had an unexpected length.",
            BrickletTryRecvError::FunctionNotSupported => "The brick or bricklet does not support the requested function.",
            BrickletTryRecvError::UnknownError => "UnknownError, Currently unused",
            BrickletTryRecvError::MalformedPacket => "The received packet had an unexpected length. Maybe a function was called on a wrong brick or bricklet?",
            BrickletTryRecvError::NotConnected => "The request can not be fulfilled, as there is currently no connection to a brick daemon.",
            BrickletTryRecvError::SuccessButResponseExpectedIsDisabled => "The request was sent, but response expected is disabled, so no response can be received. This is not an error.",
        }
    }
}

/// What one raw message from the socket worker means to a blocking `recv`:
/// good bytes of the right length decode, a length mismatch or undecodable
/// bytes are `MalformedPacket`, and each worker-side error keeps its name.
pub open spec fn spec_recv_meaning(
    raw: Result<Seq<u8>, BrickletError>,
    expected_len: int,
    decodable: spec_fn(Seq<u8>) -> bool,
) -> Result<Seq<u8>, BrickletRecvTimeoutError> {
    match raw {
        Ok(bytes) => if bytes.len() == expected_len && decodable(bytes) {
            Ok(bytes)
        } else {
            Err(BrickletRecvTimeoutError::MalformedPacket)
        },
        Err(BrickletError::InvalidParameter) => Err(BrickletRecvTimeoutError::InvalidParameter),
        Err(BrickletError::FunctionNotSupported) => Err(
            BrickletRecvTimeoutError::FunctionNotSupported,
        ),
        Err(BrickletError::UnknownError) => Err(BrickletRecvTimeoutError::UnknownError),
        Err(BrickletError::NotConnected) => Err(BrickletRecvTimeoutError::NotConnected),
        Err(BrickletError::SuccessButResponseExpectedIsDisabled) => Err(
            BrickletRecvTimeoutError::SuccessButResponseExpectedIsDisabled,
        ),
    }
}

/// What one raw message means to a non-blocking `try_recv`; the mapping of
/// [`spec_recv_meaning`] with the try-variant error names.
pub open spec fn spec_try_recv_meaning(
    raw: Result<Seq<u8>, BrickletError>,
    expected_len: int,
    decodable: spec_fn(Seq<u8>) -> bool,
) -> Result<Seq<u8>, BrickletTryRecvError> {
    match raw {
        Ok(bytes) => if bytes.len() == expected_len && decodable(bytes) {
            Ok(bytes)
        } else {
            Err(BrickletTryRecvError::MalformedPacket)
        },
        Err(BrickletError::InvalidParameter) => Err(BrickletTryRecvError::InvalidParameter),
        Err(BrickletError::FunctionNotSupported) => Err(BrickletTryRecvError::FunctionNotSupported),
        Err(BrickletError::UnknownError) => Err(BrickletTryRecvError::UnknownError),
        Err(BrickletError::NotConnected) => Err(BrickletTryRecvError::NotConnected),
        Err(BrickletError::SuccessButResponseExpectedIsDisabled) => Err(
            BrickletTryRecvError::SuccessButResponseExpectedIsDisabled,
        ),
    }
}

/// A wrapper for a receiver of raw worker messages, which converts received
/// byte vectors to instances of `T`.
///
/// `recv` does not block indefinitely: it times out after the timeout that
/// the socket worker stamped into the request's acknowledgement.
pub struct ConvertingReceiver<T: FromByteSlice> {
    receiver: Receiver<Result<Vec<u8>, BrickletError>>,
    sent_time: std::time::Instant,
    timeout_ms: u64,
    prefilled: Option<Result<Vec<u8>, BrickletError>>,
    phantom: core::marker::PhantomData<T>,
}

impl<T: FromByteSlice> ConvertingReceiver<T> {
    /// Creates a new converting receiver which wraps the given receiver.
    /// `recv` calls will time out after the given number of milliseconds.
    pub fn new(receiver: Receiver<Result<Vec<u8>, BrickletError>>, timeout_ms: u64) -> (r:
        ConvertingReceiver<T>)
        ensures
            r.timeout_ms() == timeout_ms,
            r.spec_prefilled() is None,
    {
        ConvertingReceiver {
            receiver,
            sent_time: crate::channel::instant_now(),
            timeout_ms,
            prefilled: None,
            phantom: core::marker::PhantomData,
        }
    }

    /// A receiver that already holds one worker message: the first `recv`
    /// or `try_recv` consumes it without touching the channel.
    pub fn new_prefilled(
        receiver: Receiver<Result<Vec<u8>, BrickletError>>,
        timeout_ms: u64,
        message: Result<Vec<u8>, BrickletError>,
    ) -> (r: ConvertingReceiver<T>)
        ensures
            r.timeout_ms() == timeout_ms,
            r.spec_prefilled() == Some(
                match message {
                    Ok(v) => Ok::<Seq<u8>, BrickletError>(v@),
                    Err(e) => Err::<Seq<u8>, BrickletError>(e),
                },
            ),
    {
        ConvertingReceiver {
            receiver,
            sent_time: crate::channel::instant_now(),
            timeout_ms,
            prefilled: Some(message),
            phantom: core::marker::PhantomData,
        }
    }

    /// The timeout that bounds `recv`, in milliseconds.
    pub closed spec fn timeout_ms(&self) -> u64 {
        self.timeout_ms
    }

    /// The worker message the receiver was pre-filled with, if any: the
    /// next receive consumes it before the channel is asked.
    pub closed spec fn spec_prefilled(&self) -> Option<Result<Seq<u8>, BrickletError>> {
        match self.prefilled {
            None => None,
            Some(Ok(v)) => Some(Ok(v@)),
            Some(Err(e)) => Some(Err(e)),
        }
    }

    /// Attempts to return a pending value on this receiver without blocking.
    ///
    /// Whatever message the socket worker queued, the result is its meaning
    /// under [`spec_try_recv_meaning`], decoded as a `T` when the bytes have
    /// the length `T` expects; an empty or disconnected queue keeps its name.
    pub fn try_recv(&mut self) -> (r: Result<T, BrickletTryRecvError>)
        ensures
            final(self).timeout_ms() == old(self).timeout_ms(),
            final(self).spec_prefilled() is None,
            (old(self).spec_prefilled() matches Some(raw) ==> (match spec_try_recv_meaning(
                raw,
                T::spec_bytes_expected() as int,
                (|b: Seq<u8>| T::spec_decodable(b)),
            ) {
                Ok(bytes) => r is Ok && T::spec_decodes(bytes, r->Ok_0),
                Err(e) => r == Err::<T, BrickletTryRecvError>(e),
            })),
            r is Ok ==> (exists|bytes: Seq<u8>|
                bytes.len() == T::spec_bytes_expected() && #[trigger] T::spec_decodable(bytes)
                    && T::spec_decodes(bytes, r->Ok_0)),
    {
        let mut taken: Option<Result<Vec<u8>, BrickletError>> = None;
        core::mem::swap(&mut taken, &mut self.prefilled);
        match taken {
            Some(raw) => convert_try_raw(raw),
            None => interpret_try_recv_outcome(crate::channel::channel_try_recv(&self.receiver)),
        }
    }

    /// Attempts to wait for a value on this receiver, until the deadline
    /// that lies the configured timeout after the receiver was built (which
    /// is when the request was acknowledged as sent).
    ///
    /// Whatever message the socket worker queued, the result is its meaning
    /// under [`spec_recv_meaning`], decoded as a `T` when the bytes have the
    /// length `T` expects; a timeout or a disconnected queue keeps its name.
    pub fn recv(&mut self) -> (r: Result<T, BrickletRecvTimeoutError>)
        ensures
            final(self).timeout_ms() == old(self).timeout_ms(),
            final(self).spec_prefilled() is None,
            (old(self).spec_prefilled() matches Some(raw) ==> (match spec_recv_meaning(
                raw,
                T::spec_bytes_expected() as int,
                (|b: Seq<u8>| T::spec_decodable(b)),
            ) {
                Ok(bytes) => r is Ok && T::spec_decodes(bytes, r->Ok_0),
                Err(e) => r == Err::<T, BrickletRecvTimeoutError>(e),
            })),
            r is Ok ==> (exists|bytes: Seq<u8>|
                bytes.len() == T::spec_bytes_expected() && #[trigger] T::spec_decodable(bytes)
                    && T::spec_decodes(bytes, r->Ok_0)),
    {
        let mut taken: Option<Result<Vec<u8>, BrickletError>> = None;
        core::mem::swap(&mut taken, &mut self.prefilled);
        if let Some(raw) = taken {
            return convert_raw(raw);
        }
        let elapsed = crate::channel::duration_as_millis(
            &crate::channel::instant_elapsed(&self.sent_time),
        );
        let remaining_ms: u64 = if elapsed >= self.timeout_ms as u128 {
            0
        } else {
            (self.timeout_ms as u128 - elapsed) as u64
        };
        let timeout = crate::channel::duration_from_millis(remaining_ms);
        interpret_recv_outcome(crate::channel::channel_recv_timeout(&self.receiver, &timeout))
    }
}

/// What one channel outcome means to a blocking `recv`: the deadline
/// passing is `QueueTimeout`, a disconnected queue is `QueueDisconnected`,
/// and a received worker message means what [`spec_recv_meaning`] says.
pub fn interpret_recv_outcome<T: FromByteSlice>(
    outcome: RecvTimeoutOutcome<Result<Vec<u8>, BrickletError>>,
) -> (r: Result<T, BrickletRecvTimeoutError>)
    ensures
        outcome is Timeout ==> r == Err::<T, BrickletRecvTimeoutError>(
            BrickletRecvTimeoutError::QueueTimeout,
        ),
        outcome is Disconnected ==> r == Err::<T, BrickletRecvTimeoutError>(
            BrickletRecvTimeoutError::QueueDisconnected,
        ),
        (outcome matches RecvTimeoutOutcome::Received(raw) ==> (match spec_recv_meaning(
            match raw {
                Ok(b) => Ok(b@),
                Err(e) => Err(e),
            },
            T::spec_bytes_expected() as int,
            (|b: Seq<u8>| T::spec_decodable(b)),
        ) {
            Ok(bytes) => r is Ok && T::spec_decodes(bytes, r->Ok_0),
            Err(e) => r == Err::<T, BrickletRecvTimeoutError>(e),
        })),
{
    match outcome {
        RecvTimeoutOutcome::Received(raw) => convert_raw(raw),
        RecvTimeoutOutcome::Timeout => Err(BrickletRecvTimeoutError::QueueTimeout),
        RecvTimeoutOutcome::Disconnected => Err(BrickletRecvTimeoutError::QueueDisconnected),
    }
}

/// What one channel outcome means to a non-blocking `try_recv`: an empty
/// queue is `QueueEmpty`, a disconnected queue is `QueueDisconnected`, and
/// a received worker message means what [`spec_try_recv_meaning`] says.
pub fn interpret_try_recv_outcome<T: FromByteSlice>(
    outcome: TryRecvOutcome<Result<Vec<u8>, BrickletError>>,
) -> (r: Result<T, BrickletTryRecvError>)
    ensures
        outcome is Empty ==> r == Err::<T, BrickletTryRecvError>(BrickletTryRecvError::QueueEmpty),
        outcome is Disconnected ==> r == Err::<T, BrickletTryRecvError>(
            BrickletTryRecvError::QueueDisconnected,
        ),
        (outcome matches TryRecvOutcome::Received(raw) ==> (match spec_try_recv_meaning(
            match raw {
                Ok(b) => Ok(b@),
                Err(e) => Err(e),
            },
            T::spec_bytes_expected() as int,
            (|b: Seq<u8>| T::spec_decodable(b)),
        ) {
            Ok(bytes) => r is Ok && T::spec_decodes(bytes, r->Ok_0),
            Err(e) => r == Err::<T, BrickletTryRecvError>(e),
        })),
{
    match outcome {
        TryRecvOutcome::Received(raw) => convert_try_raw(raw),
        TryRecvOutcome::Empty => Err(BrickletTryRecvError::QueueEmpty),
        TryRecvOutcome::Disconnected => Err(BrickletTryRecvError::QueueDisconnected),
    }
}

/// Decode one raw worker message for a blocking `recv`: exactly
/// [`spec_recv_meaning`], with the good bytes decoded as a `T`.
pub fn convert_raw<T: FromByteSlice>(raw: Result<Vec<u8>, BrickletError>) -> (r: Result<
    T,
    BrickletRecvTimeoutError,
>)
    ensures
        match spec_recv_meaning(
            match raw {
                Ok(b) => Ok(b@),
                Err(e) => Err(e),
            },
            T::spec_bytes_expected() as int,
            (|b: Seq<u8>| T::spec_decodable(b)),
        ) {
            Ok(bytes) => r is Ok && T::spec_decodes(bytes, r->Ok_0),
            Err(e) => r == Err::<T, BrickletRecvTimeoutError>(e),
        },
{
    match raw {
        Ok(bytes) => {
            if T::bytes_expected() == bytes.len() && T::decodable(bytes.as_slice()) {
                Ok(T::from_le_bytes(bytes.as_slice()))
            } else {
                Err(BrickletRecvTimeoutError::MalformedPacket)
            }
        },
        Err(BrickletError::InvalidParameter) => Err(BrickletRecvTimeoutError::InvalidParameter),
        Err(BrickletError::FunctionNotSupported) => Err(
            BrickletRecvTimeoutError::FunctionNotSupported,
        ),
        Err(BrickletError::UnknownError) => Err(BrickletRecvTimeoutError::UnknownError),
        Err(BrickletError::NotConnected) => Err(BrickletRecvTimeoutError::NotConnected),
        Err(BrickletError::SuccessButResponseExpectedIsDisabled) => Err(
            BrickletRecvTimeoutError::SuccessButResponseExpectedIsDisabled,
        ),
    }
}

/// Decode one raw worker message for a non-blocking `try_recv`: exactly
/// [`spec_try_recv_meaning`], with the good bytes decoded as a `T`.
pub fn convert_try_raw<T: FromByteSlice>(raw: Result<Vec<u8>, BrickletError>) -> (r: Result<
    T,
    BrickletTryRecvError,
>)
    ensures
        match spec_try_recv_meaning(
            match raw {
                Ok(b) => Ok(b@),
                Err(e) => Err(e),
            },
            T::spec_bytes_expected() as int,
            (|b: Seq<u8>| T::spec_decodable(b)),
        ) {
            Ok(bytes) => r is Ok && T::spec_decodes(bytes, r->Ok_0),
            Err(e) => r == Err::<T, BrickletTryRecvError>(e),
        },
{
    match raw {
        Ok(bytes) => {
            if T::bytes_expected() == bytes.len() && T::decodable(bytes.as_slice()) {
                Ok(T::from_le_bytes(bytes.as_slice()))
            } else {
                Err(BrickletTryRecvError::MalformedPacket)
            }
        },
        Err(BrickletError::InvalidParameter) => Err(BrickletTryRecvError::InvalidParameter),
        Err(BrickletError::FunctionNotSupported) => Err(BrickletTryRecvError::FunctionNotSupported),
        Err(BrickletError::UnknownError) => Err(BrickletTryRecvError::UnknownError),
        Err(BrickletError::NotConnected) => Err(BrickletTryRecvError::NotConnected),
        Err(BrickletError::SuccessButResponseExpectedIsDisabled) => Err(
            BrickletTryRecvError::SuccessButResponseExpectedIsDisabled,
        ),
    }
}

} // verus!
