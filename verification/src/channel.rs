//! Trusted declarations of the standard multi-producer single-consumer
//! channel, through which the socket worker, the devices and the typed
//! receivers talk to each other.
//!
//! What a channel operation returns depends on the other endpoint and on
//! timing, so none of the wrappers promises more than the shape of the
//! outcome; every decision taken on an outcome lives in verified code that
//! takes the outcome as an argument.

use vstd::prelude::*;

use std::sync::mpsc::{Receiver, Sender};
use std::time::Duration;

verus! {

/// The sending end of std's mpsc channel, declared opaque.
#[verifier::external_type_specification]
#[verifier::external_body]
#[verifier::reject_recursive_types(T)]
pub struct ExSender<T>(Sender<T>);

/// The receiving end of std's mpsc channel, declared opaque.
#[verifier::external_type_specification]
#[verifier::external_body]
#[verifier::reject_recursive_types(T)]
pub struct ExReceiver<T>(Receiver<T>);

/// What a blocking receive with a deadline came back with.
pub enum RecvTimeoutOutcome<T> {
    /// A message arrived before the deadline.
    Received(T),
    /// The deadline passed with no message.
    Timeout,
    /// Every sender is gone and the queue is drained.
    Disconnected,
}

/// What a non-blocking receive came back with.
pub enum TryRecvOutcome<T> {
    /// A message was waiting.
    Received(T),
    /// No message is waiting.
    Empty,
    /// Every sender is gone and the queue is drained.
    Disconnected,
}

/// What a blocking receive without a deadline came back with.
pub enum RecvOutcome<T> {
    /// A message arrived.
    Received(T),
    /// Every sender is gone and the queue is drained.
    Disconnected,
}

/// Relies on std::sync::mpsc::channel: the two ends of a fresh channel.
#[verifier::external_body]
pub fn channel_pair<T>() -> (Sender<T>, Receiver<T>) {
    std::sync::mpsc::channel()
}

/// Relies on Sender::send, which fails exactly when the receiver is gone.
#[verifier::external_body]
pub fn channel_send<T>(tx: &Sender<T>, msg: T) -> bool {
    match tx.send(msg) {
        Ok(()) => true,
        Err(_) => false,
    }
}

/// Relies on Sender::clone: another sending end of the same channel.
pub assume_specification<T>[ <Sender<T> as Clone>::clone ](sender: &Sender<T>) -> Sender<T>;

/// Relies on Receiver::recv, which blocks until a message or until every
/// sender is gone.
#[verifier::external_body]
pub fn channel_recv<T>(rx: &Receiver<T>) -> RecvOutcome<T> {
    match rx.recv() {
        Ok(msg) => RecvOutcome::Received(msg),
        Err(_) => RecvOutcome::Disconnected,
    }
}

/// Relies on Receiver::recv_timeout, which blocks at most for the given
/// duration.
#[verifier::external_body]
pub fn channel_recv_timeout<T>(rx: &Receiver<T>, timeout: &Duration) -> RecvTimeoutOutcome<T> {
    match rx.recv_timeout(*timeout) {
        Ok(msg) => RecvTimeoutOutcome::Received(msg),
        Err(std::sync::mpsc::RecvTimeoutError::Timeout) => RecvTimeoutOutcome::Timeout,
        Err(std::sync::mpsc::RecvTimeoutError::Disconnected) => RecvTimeoutOutcome::Disconnected,
    }
}

/// Relies on Receiver::try_recv, which never blocks.
#[verifier::external_body]
pub fn channel_try_recv<T>(rx: &Receiver<T>) -> TryRecvOutcome<T> {
    match rx.try_recv() {
        Ok(msg) => TryRecvOutcome::Received(msg),
        Err(std::sync::mpsc::TryRecvError::Empty) => TryRecvOutcome::Empty,
        Err(std::sync::mpsc::TryRecvError::Disconnected) => TryRecvOutcome::Disconnected,
    }
}

/// Relies on Duration::from_millis.
#[verifier::external_body]
pub fn duration_from_millis(ms: u64) -> Duration {
    Duration::from_millis(ms)
}

/// A point in time from std's monotonic clock, declared opaque.
#[verifier::external_type_specification]
#[verifier::external_body]
pub struct ExInstant(std::time::Instant);

/// Relies on Instant::now.
#[verifier::external_body]
pub fn instant_now() -> std::time::Instant {
    std::time::Instant::now()
}

/// Relies on Instant::elapsed: how long ago this instant was taken.
#[verifier::external_body]
pub fn instant_elapsed(instant: &std::time::Instant) -> Duration {
    instant.elapsed()
}

/// Relies on Duration::as_millis.
#[verifier::external_body]
pub fn duration_as_millis(duration: &Duration) -> u128 {
    duration.as_millis()
}

} // verus!
