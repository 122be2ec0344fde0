//! Generic device functionality which is used by all bricks and bricklets:
//! the parsed UID, the response-expected table, the request helpers and the
//! high-level (chunked) getters and setters.

use vstd::prelude::*;

use crate::base58::{spec_base58, Base58};
use crate::byte_converter::FromByteSlice;
use crate::converting_callback_receiver::ConvertingCallbackReceiver;
use crate::converting_receiver::{BrickletError, BrickletRecvTimeoutError, ConvertingReceiver};
use crate::ip_connection::{IpConRequestSender, SocketThreadRequest};
use crate::worker::{getter_request, register_callback_request, setter_request};
use crate::low_level_traits::{LowLevelRead, LowLevelWrite};
use crate::packet::{MAX_FRAME_SIZE, PACKET_HEADER_SIZE};
use std::sync::mpsc::Sender;
use std::sync::{Arc, Mutex};
use vstd::pervasive::VecAdditionalExecFns;
use vstd::string::StringSliceAdditionalSpecFns;

verus! {

/// std's mutual-exclusion lock, declared opaque.
#[verifier::external_type_specification]
#[verifier::external_body]
#[verifier::reject_recursive_types(T)]
pub struct ExMutex<T: ?Sized>(Mutex<T>);

/// The guard that holds an std mutex locked, declared opaque.
#[verifier::external_type_specification]
#[verifier::external_body]
#[verifier::reject_recursive_types(T)]
pub struct ExMutexGuard<'a, T: ?Sized + 'a>(std::sync::MutexGuard<'a, T>);

/// Relies on Mutex::new.
#[verifier::external_body]
fn mutex_new(value: ()) -> Mutex<()> {
    Mutex::new(value)
}

/// Relies on Mutex::lock, which blocks until the lock is free; a poisoned
/// lock is taken over rather than propagated, so the poison path cannot
/// panic.
#[verifier::external_body]
fn mutex_lock<'a>(m: &'a Mutex<()>) -> std::sync::MutexGuard<'a, ()> {
    match m.lock() {
        Ok(guard) => guard,
        Err(poisoned) => poisoned.into_inner(),
    }
}

/// The response-expected policy of one function id.
#[derive(Debug, Copy, Clone, PartialEq, Eq, Structural)]
pub enum ResponseExpectedFlag {
    /// The device has no function under this id.
    InvalidFunctionId,
    /// A setter whose acknowledgement the user turned off.
    False,
    /// A setter whose acknowledgement the user turned on.
    True,
    /// A getter: its reply carries data, so a response is always expected.
    AlwaysTrue,
}

impl ResponseExpectedFlag {
    /// The user-settable flag a boolean names.
    pub open spec fn spec_from_bool(b: bool) -> ResponseExpectedFlag {
        if b {
            ResponseExpectedFlag::True
        } else {
            ResponseExpectedFlag::False
        }
    }

    /// Map a boolean to the user-settable flag it names.
    pub fn from_bool(b: bool) -> (r: ResponseExpectedFlag)
        ensures
            r == ResponseExpectedFlag::spec_from_bool(b),
    {
        if b {
            ResponseExpectedFlag::True
        } else {
            ResponseExpectedFlag::False
        }
    }
}

/// This error is returned if the response expected status was queried for an
/// unknown function.
#[derive(Debug, Copy, Clone, PartialEq, Eq, Structural)]
pub struct GetResponseExpectedError(pub u8);

impl GetResponseExpectedError {
    /// A human-readable description of the error.
    pub fn message(&self) -> &'static str {
        "Can not get response expected: Invalid function id"
    }
}

/// This error is returned if the response expected status of a function
/// could not be changed.
#[derive(Debug, Copy, Clone, PartialEq, Eq, Structural)]
pub enum SetResponseExpectedError {
    /// The function id was unknown. Maybe the wrong UID was used?
    InvalidFunctionId(u8),
    /// This function must always respond, as the response contains result
    /// data.
    IsAlwaysTrue(u8),
}

impl SetResponseExpectedError {
    /// A human-readable description of the error.
    pub fn message(&self) -> &'static str {
        match self {
            SetResponseExpectedError::InvalidFunctionId(_) => "Can not set response expected: Invalid function id",
            SetResponseExpectedError::IsAlwaysTrue(_) => "Can not set response expected: function always responds.",
        }
    }
}

/// The message that pre-fills a setter's receiver when the function's
/// response-expected flag is off: the request was sent, but no response can
/// come. This is not an error.
pub fn disabled_response_message() -> (r: Result<Vec<u8>, BrickletError>)
    ensures
        r == Err::<Vec<u8>, BrickletError>(BrickletError::SuccessButResponseExpectedIsDisabled),
{
    Err(BrickletError::SuccessButResponseExpectedIsDisabled)
}

/// Where the chunk at index `i` of a payload of this length ends: one
/// `chunk_len` further, or at the payload's end.
pub open spec fn spec_chunk_end(payload_len: int, chunk_len: int, i: int) -> int {
    if (i + 1) * chunk_len <= payload_len {
        (i + 1) * chunk_len
    } else {
        payload_len
    }
}

/// `reply` is a successful closure answer to the chunked call at index `i`:
/// the call carried the whole payload length, the offset `i * chunk_len`,
/// and exactly the payload elements from the offset to the chunk's end.
pub open spec fn spec_chunk_reply_at<
    PayloadT,
    OutputT,
    LlwT: LowLevelWrite<OutputT>,
    ClosureT: Fn(usize, usize, &[PayloadT]) -> Result<LlwT, BrickletRecvTimeoutError>,
>(f: ClosureT, payload: Seq<PayloadT>, chunk_len: usize, reply: LlwT, i: int) -> bool {
    exists|chunk: &[PayloadT]|
        chunk@ == payload.subrange(
            i * chunk_len,
            spec_chunk_end(payload.len() as int, chunk_len as int, i),
        ) && #[trigger] call_ensures(
            f,
            ((payload.len() as usize), ((i * chunk_len) as usize), chunk),
            Ok::<LlwT, BrickletRecvTimeoutError>(reply),
        )
}

/// Every reply answers the chunked call at its own index.
pub open spec fn spec_chunk_replies<
    PayloadT,
    OutputT,
    LlwT: LowLevelWrite<OutputT>,
    ClosureT: Fn(usize, usize, &[PayloadT]) -> Result<LlwT, BrickletRecvTimeoutError>,
>(f: ClosureT, payload: Seq<PayloadT>, chunk_len: usize, replies: Seq<LlwT>) -> bool {
    forall|i: int|
        0 <= i < replies.len() ==> #[trigger] spec_chunk_reply_at(
            f,
            payload,
            chunk_len,
            replies[i],
            i,
        )
}

/// The written counts of the replies, summed with the same saturation at
/// `usize::MAX` that the running total uses.
pub open spec fn spec_written_sum<OutputT, LlwT: LowLevelWrite<OutputT>>(replies: Seq<LlwT>) -> int
    decreases replies.len(),
{
    if replies.len() == 0 {
        0
    } else {
        let rest = spec_written_sum(replies.drop_last());
        if rest + replies.last().spec_written() <= usize::MAX {
            rest + replies.last().spec_written()
        } else {
            usize::MAX as int
        }
    }
}

/// The payload gathered from a run of stream replies: each reply's chunk
/// data, truncated to what the total length still admits, in order.
pub open spec fn spec_gathered<PayloadT, OutputT, LlrT: LowLevelRead<PayloadT, OutputT>>(
    replies: Seq<LlrT>,
    total: int,
) -> Seq<PayloadT>
    decreases replies.len(),
{
    if replies.len() == 0 {
        Seq::empty()
    } else {
        let prev = spec_gathered::<PayloadT, OutputT, LlrT>(replies.drop_last(), total);
        let data = replies.last().spec_chunk_data();
        let room = if total - prev.len() >= 0 {
            total - prev.len()
        } else {
            0int
        };
        prev + data.take(
            if data.len() <= room {
                data.len() as int
            } else {
                room
            },
        )
    }
}

/// The replies form one in-sync stream: every reply states the same total
/// length, and each chunk starts exactly where the gathered payload ended.
pub open spec fn spec_stream_in_sync<PayloadT, OutputT, LlrT: LowLevelRead<PayloadT, OutputT>>(
    replies: Seq<LlrT>,
    total: int,
) -> bool {
    forall|i: int|
        0 <= i < replies.len() ==> (#[trigger] replies[i]).spec_message_length() == total
            && replies[i].spec_chunk_offset() == spec_gathered::<PayloadT, OutputT, LlrT>(
            replies.take(i),
            total,
        ).len()
}

/// Evidence that a stream went out of sync: a run of in-sync closure
/// replies that falls short of its total length, answered by one more
/// closure reply that does not continue it (a wrong offset, a changed
/// total length, or no data). The total length is the first reply's.
pub open spec fn spec_out_of_sync_evidence<
    PayloadT,
    OutputT,
    LlrT: LowLevelRead<PayloadT, OutputT>,
    ClosureT: Fn() -> Result<LlrT, BrickletRecvTimeoutError>,
>(f: ClosureT, good: Seq<LlrT>, bad: LlrT) -> bool {
    let total = if good.len() > 0 {
        good[0].spec_message_length() as int
    } else {
        bad.spec_message_length() as int
    };
    let gathered_len = spec_gathered::<PayloadT, OutputT, LlrT>(good, total).len() as int;
    &&& (forall|i: int|
        0 <= i < good.len() ==> #[trigger] call_ensures(
            f,
            (),
            Ok::<LlrT, BrickletRecvTimeoutError>(good[i]),
        ))
    &&& call_ensures(f, (), Ok::<LlrT, BrickletRecvTimeoutError>(bad))
    &&& spec_stream_in_sync::<PayloadT, OutputT, LlrT>(good, total)
    &&& (gathered_len < total || (good.len() == 0 && bad.spec_chunk_offset() != 0))
    &&& (bad.spec_chunk_offset() != gathered_len || bad.spec_message_length() as int != total
        || bad.spec_chunk_data().len() == 0)
}

/// One device handle: the API version, the UID parsed from Base58, the
/// 256-entry response-expected table, a clone of the sender to the socket
/// worker, and one lock per high-level function (so that two threads cannot
/// interleave the chunks of one logical stream on the same handle).
/// Handles are cheaply cloneable: clones share the worker sender and the
/// high-level locks, while the response-expected table is per clone.
#[derive(Clone)]
pub struct Device {
    /// Major, minor and release number of the device's API.
    pub api_version: [u16; 3],
    /// The UID every request of this handle addresses.
    pub internal_uid: u32,
    response_expected: Vec<ResponseExpectedFlag>,
    req_tx: Sender<SocketThreadRequest>,
    high_level_locks: Vec<Arc<Mutex<()>>>,
}

impl Device {
    /// The UID every request of this handle addresses.
    pub closed spec fn uid(&self) -> u32 {
        self.internal_uid
    }

    /// The API version the handle was built with.
    pub closed spec fn spec_api_version(&self) -> [u16; 3] {
        self.api_version
    }

    /// The response-expected flag of a function id.
    pub closed spec fn flag_at(&self, function_id: u8) -> ResponseExpectedFlag {
        self.response_expected@[function_id as int]
    }

    /// The table holds one flag per possible function id.
    pub closed spec fn wf(&self) -> bool {
        self.response_expected@.len() == 256
    }

    /// How many high-level locks the handle carries.
    pub closed spec fn lock_count(&self) -> int {
        self.high_level_locks@.len() as int
    }

    /// A device handle. The UID must be a well-formed Base58 string; every
    /// function id starts out as `InvalidFunctionId` until the device
    /// module declares it.
    pub fn new(
        api_version: [u16; 3],
        uid: &str,
        req_sender: &IpConRequestSender,
        high_level_function_count: u8,
    ) -> (r: Device)
        requires
            spec_base58(uid.spec_bytes()) is Ok,
        ensures
            r.wf(),
            r.uid() == spec_base58(uid.spec_bytes())->Ok_0,
            r.spec_api_version() == api_version,
            forall|f: u8| r.flag_at(f) == ResponseExpectedFlag::InvalidFunctionId,
            r.lock_count() == high_level_function_count,
    {
        let internal_uid = match uid.base58_to_u32() {
            Ok(u) => u,
            Err(_) => {
                proof {
                    assert(false);
                }
                0
            },
        };
        let mut response_expected: Vec<ResponseExpectedFlag> = Vec::new();
        while response_expected.len() < 256
            invariant
                response_expected@.len() <= 256,
                forall|i: int|
                    0 <= i < response_expected@.len() ==> response_expected@[i]
                        == ResponseExpectedFlag::InvalidFunctionId,
            decreases 256 - response_expected@.len(),
        {
            response_expected.push(ResponseExpectedFlag::InvalidFunctionId);
        }
        let mut high_level_locks: Vec<Arc<Mutex<()>>> = Vec::new();
        let mut i: u8 = 0;
        while i < high_level_function_count
            invariant
                i <= high_level_function_count,
                high_level_locks@.len() == i,
            decreases high_level_function_count - i,
        {
            high_level_locks.push(Arc::new(mutex_new(())));
            i += 1;
        }
        Device {
            api_version,
            internal_uid,
            response_expected,
            req_tx: req_sender.request_sender_clone(),
            high_level_locks,
        }
    }

    /// Declare a function id's response-expected policy, as the device
    /// modules do when a handle is built.
    pub fn set_response_expected_flag(&mut self, function_id: u8, flag: ResponseExpectedFlag)
        requires
            old(self).wf(),
        ensures
            final(self).wf(),
            final(self).flag_at(function_id) == flag,
            forall|f: u8| f != function_id ==> final(self).flag_at(f) == old(self).flag_at(f),
            final(self).lock_count() == old(self).lock_count(),
            final(self).uid() == old(self).uid(),
    {
        self.response_expected.set(function_id as usize, flag);
    }

    /// Whether a function expects a response: getters and acknowledged
    /// setters do; an unknown function id is refused.
    pub fn get_response_expected(&self, function_id: u8) -> (r: Result<
        bool,
        GetResponseExpectedError,
    >)
        requires
            self.wf(),
        ensures
            r == (match self.flag_at(function_id) {
                ResponseExpectedFlag::False => Ok::<bool, GetResponseExpectedError>(false),
                ResponseExpectedFlag::True => Ok(true),
                ResponseExpectedFlag::AlwaysTrue => Ok(true),
                ResponseExpectedFlag::InvalidFunctionId => Err(
                    GetResponseExpectedError(function_id),
                ),
            }),
    {
        match self.response_expected[function_id as usize] {
            ResponseExpectedFlag::False => Ok(false),
            ResponseExpectedFlag::True => Ok(true),
            ResponseExpectedFlag::AlwaysTrue => Ok(true),
            ResponseExpectedFlag::InvalidFunctionId => Err(GetResponseExpectedError(function_id)),
        }
    }

    /// Choose whether a setter is acknowledged. A getter is refused with
    /// `IsAlwaysTrue` (its reply carries data), an unknown function id with
    /// `InvalidFunctionId`; anything else takes the given choice.
    pub fn set_response_expected(&mut self, function_id: u8, response_expected: bool) -> (r:
        Result<(), SetResponseExpectedError>)
        requires
            old(self).wf(),
        ensures
            final(self).wf(),
            final(self).uid() == old(self).uid(),
            final(self).lock_count() == old(self).lock_count(),
            old(self).flag_at(function_id) == ResponseExpectedFlag::AlwaysTrue ==> r == Err::<
                (),
                SetResponseExpectedError,
            >(SetResponseExpectedError::IsAlwaysTrue(function_id)) && final(self).flag_at(
                function_id,
            ) == old(self).flag_at(function_id),
            old(self).flag_at(function_id) == ResponseExpectedFlag::InvalidFunctionId ==> r
                == Err::<(), SetResponseExpectedError>(
                SetResponseExpectedError::InvalidFunctionId(function_id),
            ) && final(self).flag_at(function_id) == old(self).flag_at(function_id),
            (old(self).flag_at(function_id) == ResponseExpectedFlag::True || old(self).flag_at(
                function_id,
            ) == ResponseExpectedFlag::False) ==> r == Ok::<(), SetResponseExpectedError>(())
                && final(self).flag_at(function_id) == ResponseExpectedFlag::spec_from_bool(
                response_expected,
            ),
            forall|f: u8| f != function_id ==> final(self).flag_at(f) == old(self).flag_at(f),
    {
        if self.response_expected[function_id as usize] == ResponseExpectedFlag::AlwaysTrue {
            Err(SetResponseExpectedError::IsAlwaysTrue(function_id))
        } else if self.response_expected[function_id as usize]
            == ResponseExpectedFlag::InvalidFunctionId {
            Err(SetResponseExpectedError::InvalidFunctionId(function_id))
        } else {
            self.response_expected.set(
                function_id as usize,
                ResponseExpectedFlag::from_bool(response_expected),
            );
            Ok(())
        }
    }

    /// Apply one acknowledged-or-not choice to every user-settable setter;
    /// getters and unknown function ids stay as they are.
    pub fn set_response_expected_all(&mut self, response_expected: bool)
        requires
            old(self).wf(),
        ensures
            final(self).wf(),
            final(self).uid() == old(self).uid(),
            final(self).lock_count() == old(self).lock_count(),
            forall|f: u8|
                final(self).flag_at(f) == (if old(self).flag_at(f) == ResponseExpectedFlag::True
                    || old(self).flag_at(f) == ResponseExpectedFlag::False {
                    ResponseExpectedFlag::spec_from_bool(response_expected)
                } else {
                    old(self).flag_at(f)
                }),
    {
        let mut i: usize = 0;
        while i < 256
            invariant
                old(self).wf(),
                self.wf(),
                i <= 256,
                self.internal_uid == old(self).internal_uid,
                self.lock_count() == old(self).lock_count(),
                self.req_tx == old(self).req_tx,
                self.api_version == old(self).api_version,
                self.high_level_locks == old(self).high_level_locks,
                forall|f: int|
                    0 <= f < i ==> self.response_expected@[f] == (if old(
                        self,
                    ).response_expected@[f] == ResponseExpectedFlag::True || old(
                        self,
                    ).response_expected@[f] == ResponseExpectedFlag::False {
                        ResponseExpectedFlag::spec_from_bool(response_expected)
                    } else {
                        old(self).response_expected@[f]
                    }),
                forall|f: int|
                    i <= f < 256 ==> self.response_expected@[f] == old(self).response_expected@[f],
            decreases 256 - i,
        {
            let flag = self.response_expected[i];
            if flag == ResponseExpectedFlag::True || flag == ResponseExpectedFlag::False {
                self.response_expected.set(i, ResponseExpectedFlag::from_bool(response_expected));
            }
            i += 1;
        }
    }

    /// Whether a setter on this function id carries a response sink: every
    /// flag but `False` does (an unknown function id is not guarded on the
    /// setter path).
    pub fn set_wants_response(&self, function_id: u8) -> (r: bool)
        requires
            self.wf(),
        ensures
            r == (self.flag_at(function_id) != ResponseExpectedFlag::False),
    {
        !(self.response_expected[function_id as usize] == ResponseExpectedFlag::False)
    }

    /// Send a setter. When the function's response-expected flag is off,
    /// the returned receiver is pre-filled with
    /// `SuccessButResponseExpectedIsDisabled` (its first receive consumes
    /// that message at once, without waiting for the daemon), so every
    /// setter call reads uniformly; otherwise the receiver waits for the
    /// device's acknowledgement or error.
    pub fn set<T: FromByteSlice>(&self, function_id: u8, payload: Vec<u8>) -> (r:
        ConvertingReceiver<T>)
        requires
            self.wf(),
            payload@.len() <= MAX_FRAME_SIZE - PACKET_HEADER_SIZE,
        ensures
            self.flag_at(function_id) == ResponseExpectedFlag::False ==> r.spec_prefilled()
                == Some(
                Err::<Seq<u8>, BrickletError>(BrickletError::SuccessButResponseExpectedIsDisabled),
            ),
            self.flag_at(function_id) != ResponseExpectedFlag::False ==> r.spec_prefilled()
                is None,
    {
        let (sent_tx, sent_rx) = crate::channel::channel_pair();
        if !self.set_wants_response(function_id) {
            let (_tx, rx) = crate::channel::channel_pair();
            let request = setter_request(self.internal_uid, function_id, payload, None);
            let _ = crate::channel::channel_send(
                &self.req_tx,
                SocketThreadRequest::Request(request, sent_tx),
            );
            let timeout_ms = match crate::channel::channel_recv(&sent_rx) {
                crate::channel::RecvOutcome::Received(t) => t,
                crate::channel::RecvOutcome::Disconnected => 0,
            };
            ConvertingReceiver::new_prefilled(rx, timeout_ms, disabled_response_message())
        } else {
            let (tx, rx) = crate::channel::channel_pair();
            let request = setter_request(self.internal_uid, function_id, payload, Some(tx));
            let _ = crate::channel::channel_send(
                &self.req_tx,
                SocketThreadRequest::Request(request, sent_tx),
            );
            let timeout_ms = match crate::channel::channel_recv(&sent_rx) {
                crate::channel::RecvOutcome::Received(t) => t,
                crate::channel::RecvOutcome::Disconnected => 0,
            };
            ConvertingReceiver::new(rx, timeout_ms)
        }
    }

    /// Send a getter; the returned receiver waits for the device's reply:
    /// nothing pre-fills it.
    pub fn get<T: FromByteSlice>(&self, function_id: u8, payload: Vec<u8>) -> (r:
        ConvertingReceiver<T>)
        requires
            self.wf(),
            payload@.len() <= MAX_FRAME_SIZE - PACKET_HEADER_SIZE,
        ensures
            r.spec_prefilled() is None,
    {
        let (tx, rx) = crate::channel::channel_pair();
        let (sent_tx, sent_rx) = crate::channel::channel_pair();
        let request = getter_request(self.internal_uid, function_id, payload, tx);
        let _ = crate::channel::channel_send(
            &self.req_tx,
            SocketThreadRequest::Request(request, sent_tx),
        );
        let timeout_ms = match crate::channel::channel_recv(&sent_rx) {
            crate::channel::RecvOutcome::Received(t) => t,
            crate::channel::RecvOutcome::Disconnected => 0,
        };
        ConvertingReceiver::new(rx, timeout_ms)
    }

    /// Subscribe a typed receiver to the callback with this function id.
    pub fn get_callback_receiver<T: FromByteSlice>(&self, function_id: u8) -> (r:
        ConvertingCallbackReceiver<T>) {
        let (tx, rx) = crate::channel::channel_pair();
        let (sent_tx, sent_rx) = crate::channel::channel_pair();
        let request = register_callback_request(self.internal_uid, function_id, tx);
        let _ = crate::channel::channel_send(
            &self.req_tx,
            SocketThreadRequest::Request(request, sent_tx),
        );
        let _ = crate::channel::channel_recv(&sent_rx);
        ConvertingCallbackReceiver::new(rx)
    }

    /// Send a payload that exceeds one frame as consecutive chunks of
    /// `chunk_len` elements, under the function's high-level lock so that
    /// two threads cannot interleave their streams. The low-level call is
    /// made once per chunk (once for an empty payload); the written counts
    /// it reports are summed, and a short write ends the stream early (the
    /// device refused the remainder).
    ///
    /// A payload longer than `max_payload_len` is refused with
    /// `InvalidParameter`; the first error of a low-level call is handed
    /// back as it is.
    pub fn set_high_level<PayloadT, OutputT, LlwT: LowLevelWrite<OutputT>, ClosureT: Fn(
        usize,
        usize,
        &[PayloadT],
    ) -> Result<LlwT, BrickletRecvTimeoutError>>(
        &self,
        high_level_function_idx: u8,
        payload: &[PayloadT],
        max_payload_len: usize,
        chunk_len: usize,
        low_level_closure: &ClosureT,
    ) -> (r: Result<(usize, OutputT), BrickletRecvTimeoutError>)
        requires
            self.wf(),
            (high_level_function_idx as int) < self.lock_count(),
            chunk_len > 0,
            forall|length: usize, offset: usize, chunk: &[PayloadT]| #[trigger]
                call_requires(*low_level_closure, (length, offset, chunk)),
        ensures
            payload@.len() > max_payload_len ==> r == Err::<
                (usize, OutputT),
                BrickletRecvTimeoutError,
            >(BrickletRecvTimeoutError::InvalidParameter),
            (r matches Err(e) ==> payload@.len() > max_payload_len || (exists|
                length: usize,
                offset: usize,
                chunk: &[PayloadT],
            |
                call_ensures(
                    *low_level_closure,
                    (length, offset, chunk),
                    Err::<LlwT, BrickletRecvTimeoutError>(e),
                ))),
            (r matches Ok(out) ==> payload@.len() <= max_payload_len && (exists|
                replies: Seq<LlwT>,
            |
                {
                    &&& replies.len() >= 1
                    &&& #[trigger] spec_chunk_replies(
                        *low_level_closure,
                        payload@,
                        chunk_len,
                        replies,
                    )
                    &&& (forall|i: int|
                        0 <= i < replies.len() - 1 ==> (#[trigger] replies[i]).spec_written()
                            >= chunk_len)
                    &&& (replies.last().spec_written() < chunk_len || replies.len() * chunk_len
                        >= payload@.len())
                    &&& out.0 == spec_written_sum(replies)
                    &&& replies.last().spec_result_is(out.1)
                })),
    {
        if payload.len() > max_payload_len {
            return Err(BrickletRecvTimeoutError::InvalidParameter);
        }
        let length = payload.len();
        let _lock_guard = mutex_lock(&self.high_level_locks[high_level_function_idx as usize]);
        if length == 0 {
            let empty: Vec<PayloadT> = Vec::new();
            let chunk = empty.as_slice();
            return match low_level_closure(length, 0, chunk) {
                Ok(low_level_result) => {
                    let written = low_level_result.ll_message_written();
                    let output = low_level_result.get_result();
                    proof {
                        let replies = seq![low_level_result];
                        assert(chunk@ =~= payload@.subrange(
                            0,
                            spec_chunk_end(payload@.len() as int, chunk_len as int, 0),
                        ));
                        assert((payload@.len() as usize) == length);
                        assert(((0int * chunk_len) as usize) == 0usize);
                        assert(call_ensures(
                            *low_level_closure,
                            ((payload@.len() as usize), ((0int * chunk_len) as usize), chunk),
                            Ok::<LlwT, BrickletRecvTimeoutError>(low_level_result),
                        ));
                        assert(spec_chunk_reply_at(
                            *low_level_closure,
                            payload@,
                            chunk_len,
                            low_level_result,
                            0,
                        ));
                        assert(spec_chunk_replies(
                            *low_level_closure,
                            payload@,
                            chunk_len,
                            replies,
                        ));
                        assert(replies.drop_last() =~= Seq::<LlwT>::empty());
                        assert(spec_written_sum(Seq::<LlwT>::empty()) == 0);
                        assert(written == spec_written_sum(replies));
                    }
                    Ok((written, output))
                },
                Err(e) => Err(e),
            };
        }
        let mut chunk_offset: usize = 0;
        let mut written_sum: usize = 0;
        let ghost mut replies: Seq<LlwT> = Seq::empty();
        loop
            invariant
                chunk_offset < length,
                length == payload@.len(),
                length <= max_payload_len,
                chunk_len > 0,
                chunk_offset as int == replies.len() * chunk_len,
                spec_chunk_replies(*low_level_closure, payload@, chunk_len, replies),
                forall|i: int|
                    0 <= i < replies.len() ==> (#[trigger] replies[i]).spec_written() >= chunk_len,
                written_sum == spec_written_sum(replies),
                forall|l: usize, o: usize, c: &[PayloadT]| #[trigger]
                    call_requires(*low_level_closure, (l, o, c)),
            decreases length - chunk_offset,
        {
            let end = if length - chunk_offset <= chunk_len {
                length
            } else {
                chunk_offset + chunk_len
            };
            let chunk = vstd::slice::slice_subrange(payload, chunk_offset, end);
            let ghost n = replies.len() as int;
            proof {
                assert((n + 1) * chunk_len == n * chunk_len + chunk_len) by (nonlinear_arith);
                assert(chunk@ =~= payload@.subrange(
                    n * chunk_len,
                    spec_chunk_end(payload@.len() as int, chunk_len as int, n),
                ));
            }
            match low_level_closure(length, chunk_offset, chunk) {
                Ok(low_level_result) => {
                    let written = low_level_result.ll_message_written();
                    let output = low_level_result.get_result();
                    proof {
                        let ghost pre = replies;
                        assert((payload@.len() as usize) == length);
                        assert(((n * chunk_len) as usize) == chunk_offset);
                        assert(call_ensures(
                            *low_level_closure,
                            ((payload@.len() as usize), ((n * chunk_len) as usize), chunk),
                            Ok::<LlwT, BrickletRecvTimeoutError>(low_level_result),
                        ));
                        assert(spec_chunk_reply_at(
                            *low_level_closure,
                            payload@,
                            chunk_len,
                            low_level_result,
                            n,
                        ));
                        replies = replies.push(low_level_result);
                        assert forall|i: int| 0 <= i < replies.len() implies #[trigger]
                            spec_chunk_reply_at(
                                *low_level_closure,
                                payload@,
                                chunk_len,
                                replies[i],
                                i,
                            ) by {
                            if i < n {
                                assert(replies[i] == pre[i]);
                                assert(spec_chunk_reply_at(
                                    *low_level_closure,
                                    payload@,
                                    chunk_len,
                                    pre[i],
                                    i,
                                ));
                            }
                        }
                        assert(replies.drop_last() =~= pre);
                        assert(spec_chunk_replies(
                            *low_level_closure,
                            payload@,
                            chunk_len,
                            replies,
                        ));
                    }
                    written_sum = if written <= usize::MAX - written_sum {
                        written_sum + written
                    } else {
                        usize::MAX
                    };
                    proof {
                        assert(written_sum == spec_written_sum(replies));
                    }
                    if written < chunk_len {
                        return Ok((written_sum, output));
                    }
                    if length - chunk_offset <= chunk_len {
                        proof {
                            assert(replies.len() * chunk_len >= payload@.len()) by (
                            nonlinear_arith)
                                requires
                                    replies.len() == n + 1,
                                    (n + 1) * chunk_len == n * chunk_len + chunk_len,
                                    chunk_offset as int == n * chunk_len,
                                    payload@.len() - chunk_offset <= chunk_len,
                            ;
                        }
                        return Ok((written_sum, output));
                    }
                    chunk_offset = chunk_offset + chunk_len;
                },
                Err(e) => {
                    return Err(e);
                },
            }
        }
    }

    /// Pull a payload that exceeds one frame by calling the low-level
    /// getter once per chunk, under the function's high-level lock. The
    /// first reply must start the stream at offset zero and every following
    /// reply must continue it; a reply out of order, with a changed total
    /// length or without data drains the remaining chunks (at most one call
    /// per payload element) and is `MalformedPacket`.
    pub fn get_high_level<PayloadT: Copy, OutputT, LlrT: LowLevelRead<PayloadT, OutputT>, ClosureT: Fn() -> Result<LlrT, BrickletRecvTimeoutError>>(
        &self,
        high_level_function_idx: u8,
        fill: PayloadT,
        low_level_closure: &ClosureT,
    ) -> (r: Result<(Vec<PayloadT>, OutputT), BrickletRecvTimeoutError>)
        requires
            self.wf(),
            (high_level_function_idx as int) < self.lock_count(),
            call_requires(*low_level_closure, ()),
        ensures
            (r matches Err(e) ==> call_ensures(
                *low_level_closure,
                (),
                Err::<LlrT, BrickletRecvTimeoutError>(e),
            ) || (e == BrickletRecvTimeoutError::MalformedPacket && (exists|
                good: Seq<LlrT>,
                bad: LlrT,
            |
                #[trigger] spec_out_of_sync_evidence::<PayloadT, OutputT, LlrT, ClosureT>(
                    *low_level_closure,
                    good,
                    bad,
                )))),
            (r matches Ok(out) ==> (exists|replies: Seq<LlrT>|
                {
                    &&& replies.len() >= 1
                    &&& (forall|i: int|
                        0 <= i < replies.len() ==> #[trigger] call_ensures(
                            *low_level_closure,
                            (),
                            Ok::<LlrT, BrickletRecvTimeoutError>(replies[i]),
                        ))
                    &&& #[trigger] spec_stream_in_sync::<PayloadT, OutputT, LlrT>(
                        replies,
                        replies[0].spec_message_length() as int,
                    )
                    &&& out.0@ == spec_gathered::<PayloadT, OutputT, LlrT>(
                        replies,
                        replies[0].spec_message_length() as int,
                    )
                    &&& out.0@.len() == replies[0].spec_message_length()
                    &&& replies.last().spec_result_is(out.1)
                })),
    {
        let _lock_guard = mutex_lock(&self.high_level_locks[high_level_function_idx as usize]);
        let mut result = match low_level_closure() {
            Ok(v) => v,
            Err(e) => {
                return Err(e);
            },
        };
        let message_length = result.ll_message_length();
        let mut last_offset = result.ll_message_chunk_offset();
        let mut last_len = result.ll_message_chunk_data().len();
        let mut assembler = crate::converting_high_level_callback_receiver::StreamAssembler::new(
            fill,
        );
        let ghost mut replies: Seq<LlrT> = Seq::empty();
        let ghost mut bad_reply: Option<LlrT> = None;
        let mut in_sync = last_offset == 0;
        if !in_sync {
            proof {
                // The very first reply starts mid-stream.
                bad_reply = Some(result);
                assert(spec_gathered::<PayloadT, OutputT, LlrT>(replies, result.spec_message_length() as int) =~= Seq::<PayloadT>::empty());
                assert(spec_out_of_sync_evidence::<PayloadT, OutputT, LlrT, ClosureT>(
                    *low_level_closure,
                    replies,
                    result,
                ));
            }
        } else {
            if last_len == 0 && message_length > 0 {
                // A chunk that carries nothing cannot make progress.
                in_sync = false;
                proof {
                    bad_reply = Some(result);
                    assert(spec_gathered::<PayloadT, OutputT, LlrT>(replies, result.spec_message_length() as int) =~= Seq::<PayloadT>::empty());
                    assert(spec_out_of_sync_evidence::<PayloadT, OutputT, LlrT, ClosureT>(
                        *low_level_closure,
                        replies,
                        result,
                    ));
                }
            } else {
                let data = result.ll_message_chunk_data();
                proof {
                    replies = seq![result];
                    assert(replies.drop_last() =~= Seq::<LlrT>::empty());
                    assert(replies.take(0int) =~= Seq::<LlrT>::empty());
                    assert(spec_gathered::<PayloadT, OutputT, LlrT>(Seq::<LlrT>::empty(), message_length as int) =~= Seq::<PayloadT>::empty());
                    assert(spec_stream_in_sync::<PayloadT, OutputT, LlrT>(replies, message_length as int));
                }
                match assembler.recv_stream_chunk(message_length, 0, data) {
                    Some(buf) => {
                        let tail = result.get_result();
                        proof {
                            assert(buf@ =~= spec_gathered::<PayloadT, OutputT, LlrT>(replies, message_length as int));
                            assert(replies[0].spec_message_length() == message_length);
                            assert(spec_stream_in_sync::<PayloadT, OutputT, LlrT>(
                                replies,
                                replies[0].spec_message_length() as int,
                            ));
                            assert(buf@ == spec_gathered::<PayloadT, OutputT, LlrT>(
                                replies,
                                replies[0].spec_message_length() as int,
                            ));
                        }
                        return Ok((buf, tail));
                    },
                    None => {
                        if !assembler.is_assembling() {
                            // A first chunk at offset zero either completes
                            // or starts the stream.
                            proof {
                                assert(false);
                            }
                            in_sync = false;
                        } else {
                            proof {
                                assert(assembler.assembled() =~= spec_gathered::<PayloadT, OutputT, LlrT>(replies, message_length as int));
                            }
                        }
                    },
                }
            }
        }
        if in_sync {
            loop
                invariant_except_break
                    assembler.in_progress(),
                    assembler.total_len() == message_length,
                    assembler.next_offset() < message_length,
                    replies.len() >= 1,
                    replies[0].spec_message_length() == message_length,
                    (forall|i: int|
                        0 <= i < replies.len() ==> #[trigger] call_ensures(
                            *low_level_closure,
                            (),
                            Ok::<LlrT, BrickletRecvTimeoutError>(replies[i]),
                        )),
                    spec_stream_in_sync::<PayloadT, OutputT, LlrT>(
                        replies,
                        message_length as int,
                    ),
                    assembler.assembled() == spec_gathered::<PayloadT, OutputT, LlrT>(
                        replies,
                        message_length as int,
                    ),
                    assembler.next_offset() == spec_gathered::<PayloadT, OutputT, LlrT>(
                        replies,
                        message_length as int,
                    ).len(),
                invariant
                    assembler.wf(),
                    call_requires(*low_level_closure, ()),
                ensures
                    bad_reply is Some,
                    spec_out_of_sync_evidence::<PayloadT, OutputT, LlrT, ClosureT>(
                        *low_level_closure,
                        replies,
                        bad_reply.unwrap(),
                    ),
                decreases message_length - assembler.next_offset(),
            {
                result = match low_level_closure() {
                    Ok(v) => v,
                    Err(e) => {
                        return Err(e);
                    },
                };
                let next_length = result.ll_message_length();
                last_offset = result.ll_message_chunk_offset();
                let data = result.ll_message_chunk_data();
                last_len = data.len();
                if last_len == 0 {
                    // A chunk that carries nothing cannot make progress.
                    proof {
                        bad_reply = Some(result);
                        assert(spec_out_of_sync_evidence::<PayloadT, OutputT, LlrT, ClosureT>(
                            *low_level_closure,
                            replies,
                            result,
                        ));
                    }
                    break;
                }
                if last_offset != assembler.next_offset_now() || next_length != message_length {
                    // The chunk is out of order or changed the total length:
                    // the stream is lost.
                    proof {
                        bad_reply = Some(result);
                        assert(spec_out_of_sync_evidence::<PayloadT, OutputT, LlrT, ClosureT>(
                            *low_level_closure,
                            replies,
                            result,
                        ));
                    }
                    break;
                }
                let ghost pre = replies;
                proof {
                    replies = replies.push(result);
                    assert(replies.drop_last() =~= pre);
                    assert(replies.take(pre.len() as int) =~= pre);
                    assert forall|i: int| 0 <= i < replies.len() implies (
                        #[trigger] replies[i]).spec_message_length() == message_length as int
                        && replies[i].spec_chunk_offset() == spec_gathered::<
                        PayloadT,
                        OutputT,
                        LlrT,
                    >(replies.take(i), message_length as int).len() by {
                        assert(replies.take(i) =~= pre.take(i)) by {
                            if i < pre.len() {
                            } else {
                                assert(replies.take(i) =~= pre);
                                assert(pre.take(i) =~= pre);
                            }
                        };
                        if i < pre.len() {
                            assert(pre[i].spec_message_length() == message_length as int);
                        }
                    }
                }
                match assembler.recv_stream_chunk(next_length, last_offset, data) {
                    Some(buf) => {
                        let tail = result.get_result();
                        proof {
                            assert(buf@ =~= spec_gathered::<PayloadT, OutputT, LlrT>(
                                replies,
                                message_length as int,
                            ));
                            assert(spec_stream_in_sync::<PayloadT, OutputT, LlrT>(
                                replies,
                                message_length as int,
                            ));
                            assert(replies[0].spec_message_length() == message_length);
                            assert(spec_stream_in_sync::<PayloadT, OutputT, LlrT>(
                                replies,
                                replies[0].spec_message_length() as int,
                            ));
                            assert(buf@ == spec_gathered::<PayloadT, OutputT, LlrT>(
                                replies,
                                replies[0].spec_message_length() as int,
                            ));
                        }
                        return Ok((buf, tail));
                    },
                    None => {
                        proof {
                            assert(assembler.assembled() =~= spec_gathered::<
                                PayloadT,
                                OutputT,
                                LlrT,
                            >(replies, message_length as int));
                        }
                    },
                }
            }
        }
        // Out of sync: drain what remains of the stream (at most one call
        // per payload element), then report it.
        let mut drained: usize = 0;
        loop
            invariant
                drained <= message_length,
                call_requires(*low_level_closure, ()),
                bad_reply is Some,
                spec_out_of_sync_evidence::<PayloadT, OutputT, LlrT, ClosureT>(
                    *low_level_closure,
                    replies,
                    bad_reply.unwrap(),
                ),
            decreases message_length - drained,
        {
            if !(last_offset <= usize::MAX - last_len && last_offset + last_len
                < message_length) {
                break;
            }
            if drained >= message_length {
                break;
            }
            drained += 1;
            result = match low_level_closure() {
                Ok(v) => v,
                Err(e) => {
                    return Err(e);
                },
            };
            last_offset = result.ll_message_chunk_offset();
            last_len = result.ll_message_chunk_data().len();
        }
        Err(BrickletRecvTimeoutError::MalformedPacket)
    }
}

} // verus!
