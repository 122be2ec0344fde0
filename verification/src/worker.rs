//! The socket worker's state machine: dispatch tables, sequence-number
//! allocation, and the handling of every request and response. The worker
//! thread's loop lives outside the library; each of its decisions is a
//! function here.

use vstd::prelude::*;

use crate::converting_receiver::BrickletError;
use crate::ip_connection::{
    ConnectError, ConnectReason, DisconnectErrorNotConnected, DisconnectReason, Request,
    SocketThreadRequest,
};
use crate::packet::{spec_header_bytes, PacketHeader, MAX_FRAME_SIZE, PACKET_HEADER_SIZE};
use std::sync::atomic::{AtomicUsize, Ordering};
use std::sync::mpsc::Sender;
use std::sync::Arc;

verus! {

/// A table of sink queues: each key holds the senders that wait on it, in
/// arrival order. Keys hold at least one sink; a key whose last sink is
/// taken leaves the table.
pub struct SinkTable<T> {
    entries: Vec<(u64, Vec<T>)>,
}

impl<T> SinkTable<T> {
    /// The queues, by key.
    pub closed spec fn view(&self) -> Map<u64, Seq<T>> {
        Map::new(
            |k: u64|
                exists|i: int| 0 <= i < self.entries@.len() && (#[trigger] self.entries@[i]).0 == k,
            |k: u64|
                {
                    let i = choose|i: int|
                        0 <= i < self.entries@.len() && (#[trigger] self.entries@[i]).0 == k;
                    self.entries@[i].1@
                },
        )
    }

    /// Keys are unique and no queue is empty.
    pub closed spec fn wf(&self) -> bool {
        &&& (forall|i: int, j: int|
            0 <= i < j < self.entries@.len() ==> (#[trigger] self.entries@[i]).0 != (
            #[trigger] self.entries@[j]).0)
        &&& (forall|i: int|
            0 <= i < self.entries@.len() ==> (#[trigger] self.entries@[i]).1@.len() > 0)
    }

    /// The queue under a unique key is the queue of any entry that carries
    /// the key.
    proof fn lemma_view_at(&self, i: int)
        requires
            self.wf(),
            0 <= i < self.entries@.len(),
        ensures
            self@.contains_key(self.entries@[i].0),
            self@[self.entries@[i].0] == self.entries@[i].1@,
    {
        let k = self.entries@[i].0;
        let w = choose|w: int| 0 <= w < self.entries@.len() && (#[trigger] self.entries@[w]).0 == k;
        assert(w == i);
    }

    /// An empty table.
    pub fn new() -> (r: SinkTable<T>)
        ensures
            r.wf(),
            r@ == Map::<u64, Seq<T>>::empty(),
    {
        let r = SinkTable::<T> { entries: Vec::new() };
        proof {
            assert(r@ =~= Map::<u64, Seq<T>>::empty());
        }
        r
    }

    /// The position of `key`'s entry.
    fn find(&self, key: u64) -> (r: Option<usize>)
        requires
            self.wf(),
        ensures
            match r {
                Some(i) => i < self.entries@.len() && self.entries@[i as int].0 == key
                    && self@.contains_key(key) && self@[key] == self.entries@[i as int].1@,
                None => !self@.contains_key(key),
            },
    {
        let n = self.entries.len();
        let mut i: usize = 0;
        while i < n
            invariant
                i <= n,
                n == self.entries@.len(),
                self.wf(),
                forall|j: int| 0 <= j < i ==> (#[trigger] self.entries@[j]).0 != key,
            decreases n - i,
        {
            if self.entries[i].0 == key {
                proof {
                    self.lemma_view_at(i as int);
                }
                return Some(i);
            }
            i += 1;
        }
        proof {
            assert(!self@.contains_key(key));
        }
        None
    }

    /// Append a sink to `key`'s queue, opening the queue if the key is new.
    pub fn push_to(&mut self, key: u64, sink: T)
        requires
            old(self).wf(),
        ensures
            final(self).wf(),
            final(self)@ == old(self)@.insert(
                key,
                if old(self)@.contains_key(key) {
                    old(self)@[key].push(sink)
                } else {
                    seq![sink]
                },
            ),
    {
        let ghost pre = self.entries@;
        match self.find(key) {
            Some(i) => {
                let entry = &mut self.entries[i];
                entry.1.push(sink);
                proof {
                    assert(self.entries@[i as int].0 == key);
                    assert(forall|j: int|
                        0 <= j < self.entries@.len() && j != i ==> self.entries@[j] == pre[j]);
                    assert(self.wf());
                    self.lemma_view_at(i as int);
                    assert forall|k2: u64| #[trigger]
                        final(self)@.contains_key(k2) == old(self)@.insert(
                            key,
                            old(self)@[key].push(sink),
                        ).contains_key(k2) && (final(self)@.contains_key(k2)
                        ==> final(self)@[k2] == old(self)@.insert(
                        key,
                        old(self)@[key].push(sink),
                    )[k2]) by {
                        if final(self)@.contains_key(k2) {
                            let w = choose|w: int|
                                0 <= w < self.entries@.len() && (#[trigger] self.entries@[w]).0
                                    == k2;
                            self.lemma_view_at(w);
                            if k2 != key {
                                old(self).lemma_view_at(w);
                            }
                        } else {
                            if old(self)@.contains_key(k2) {
                                let w = choose|w: int|
                                    0 <= w < pre.len() && (#[trigger] pre[w]).0 == k2;
                                self.lemma_view_at(w);
                            }
                        }
                    }
                    assert(final(self)@ =~= old(self)@.insert(key, old(self)@[key].push(sink)));
                }
            },
            None => {
                let mut q: Vec<T> = Vec::new();
                q.push(sink);
                self.entries.push((key, q));
                proof {
                    let n = pre.len() as int;
                    assert(self.entries@[n].0 == key);
                    assert(forall|j: int| 0 <= j < n ==> self.entries@[j] == pre[j]);
                    assert(self.wf());
                    assert forall|k2: u64| #[trigger]
                        final(self)@.contains_key(k2) == old(self)@.insert(
                            key,
                            seq![sink],
                        ).contains_key(k2) && (final(self)@.contains_key(k2)
                        ==> final(self)@[k2] == old(self)@.insert(key, seq![sink])[k2]) by {
                        if final(self)@.contains_key(k2) {
                            let w = choose|w: int|
                                0 <= w < self.entries@.len() && (#[trigger] self.entries@[w]).0
                                    == k2;
                            self.lemma_view_at(w);
                            if k2 != key {
                                old(self).lemma_view_at(w);
                            }
                        } else {
                            if old(self)@.contains_key(k2) {
                                let w = choose|w: int|
                                    0 <= w < pre.len() && (#[trigger] pre[w]).0 == k2;
                                self.lemma_view_at(w);
                            }
                        }
                    }
                    assert(final(self)@ =~= old(self)@.insert(key, seq![sink]));
                }
            },
        }
    }

    /// Take the whole queue under `key` out of the table.
    pub fn take(&mut self, key: u64) -> (r: Option<Vec<T>>)
        requires
            old(self).wf(),
        ensures
            final(self).wf(),
            match r {
                Some(q) => old(self)@.contains_key(key) && q@ == old(self)@[key] && q@.len() > 0
                    && final(self)@ == old(self)@.remove(key),
                None => !old(self)@.contains_key(key) && final(self)@ == old(self)@,
            },
    {
        let ghost pre = self.entries@;
        match self.find(key) {
            Some(i) => {
                proof {
                    old(self).lemma_view_at(i as int);
                }
                let (_k, q) = self.entries.swap_remove(i);
                proof {
                    let n = self.entries@.len() as int;
                    assert(forall|j: int| 0 <= j < i ==> self.entries@[j] == pre[j]);
                    assert(forall|j: int|
                        i < j < n ==> self.entries@[j] == if j == i {
                            pre[n]
                        } else {
                            pre[j]
                        });
                    assert(self.wf());
                    assert forall|k2: u64| #[trigger]
                        final(self)@.contains_key(k2) == old(self)@.remove(key).contains_key(k2)
                            && (final(self)@.contains_key(k2) ==> final(self)@[k2] == old(self)@.remove(key)[k2]) by {
                        if final(self)@.contains_key(k2) {
                            let w = choose|w: int|
                                0 <= w < self.entries@.len() && (#[trigger] self.entries@[w]).0
                                    == k2;
                            self.lemma_view_at(w);
                            if w < i {
                                old(self).lemma_view_at(w);
                            } else {
                                old(self).lemma_view_at(pre.len() - 1);
                            }
                        } else {
                            if old(self)@.remove(key).contains_key(k2) {
                                let w = choose|w: int|
                                    0 <= w < pre.len() && (#[trigger] pre[w]).0 == k2;
                                old(self).lemma_view_at(w);
                                if w < i {
                                    self.lemma_view_at(w);
                                } else if w == pre.len() - 1 && i < pre.len() - 1 {
                                    self.lemma_view_at(i as int);
                                } else {
                                    self.lemma_view_at(w);
                                }
                            }
                        }
                    }
                    assert(final(self)@ =~= old(self)@.remove(key));
                }
                Some(q)
            },
            None => None,
        }
    }

    /// Put a non-empty queue back under a key that is free.
    pub fn put(&mut self, key: u64, queue: Vec<T>)
        requires
            old(self).wf(),
            !old(self)@.contains_key(key),
            queue@.len() > 0,
        ensures
            final(self).wf(),
            final(self)@ == old(self)@.insert(key, queue@),
    {
        let ghost pre = self.entries@;
        proof {
            assert forall|j: int| 0 <= j < pre.len() implies (#[trigger] pre[j]).0 != key by {
                old(self).lemma_view_at(j);
            }
        }
        self.entries.push((key, queue));
        proof {
            let n = pre.len() as int;
            assert(self.entries@[n].0 == key);
            assert(forall|j: int| 0 <= j < n ==> self.entries@[j] == pre[j]);
            assert(self.wf());
            assert forall|k2: u64| #[trigger]
                final(self)@.contains_key(k2) == old(self)@.insert(key, queue@).contains_key(k2)
                    && (final(self)@.contains_key(k2) ==> final(self)@[k2] == old(self)@.insert(
                    key,
                    queue@,
                )[k2]) by {
                if final(self)@.contains_key(k2) {
                    let w = choose|w: int|
                        0 <= w < self.entries@.len() && (#[trigger] self.entries@[w]).0 == k2;
                    self.lemma_view_at(w);
                    if k2 != key {
                        old(self).lemma_view_at(w);
                    }
                } else {
                    if old(self)@.contains_key(k2) {
                        let w = choose|w: int| 0 <= w < pre.len() && (#[trigger] pre[w]).0 == k2;
                        self.lemma_view_at(w);
                    }
                }
            }
            assert(final(self)@ =~= old(self)@.insert(key, queue@));
        }
    }
}

/// The key of the response queue for a correlated reply: the uid, function
/// id and sequence number, packed into one integer.
pub open spec fn spec_response_key(uid: u32, function_id: u8, sequence_number: u8) -> u64 {
    ((uid as u64) * 0x1_0000 + (function_id as u64) * 0x100 + (sequence_number as u64)) as u64
}

/// Pack a response queue key.
pub fn response_key(uid: u32, function_id: u8, sequence_number: u8) -> (r: u64)
    ensures
        r == spec_response_key(uid, function_id, sequence_number),
{
    (uid as u64) * 0x1_0000 + (function_id as u64) * 0x100 + (sequence_number as u64)
}

/// Distinct uid, function id or sequence number give distinct keys.
pub proof fn lemma_response_key_injective(
    u1: u32,
    f1: u8,
    s1: u8,
    u2: u32,
    f2: u8,
    s2: u8,
)
    requires
        spec_response_key(u1, f1, s1) == spec_response_key(u2, f2, s2),
    ensures
        u1 == u2 && f1 == f2 && s1 == s2,
{
    assert(u1 == u2 && f1 == f2 && s1 == s2) by (nonlinear_arith)
        requires
            spec_response_key(u1, f1, s1) == spec_response_key(u2, f2, s2),
    ;
}

/// The key of the callback registry for an unsolicited message: the uid and
/// function id, packed into one integer.
pub open spec fn spec_callback_key(uid: u32, function_id: u8) -> u64 {
    ((uid as u64) * 0x100 + (function_id as u64)) as u64
}

/// Pack a callback registry key.
pub fn callback_key(uid: u32, function_id: u8) -> (r: u64)
    ensures
        r == spec_callback_key(uid, function_id),
{
    (uid as u64) * 0x100 + (function_id as u64)
}

/// The sequence number after `s`: strictly increasing through 15, then back
/// to 1, never 0.
pub open spec fn spec_next_seq(s: u8) -> u8 {
    if s >= 15 {
        1
    } else {
        (s + 1) as u8
    }
}

/// The sequence number that the `n`-th allocation after a fresh session
/// returns (counting from 1); a fresh session starts at 1.
pub open spec fn spec_seq_after(n: nat) -> u8
    decreases n,
{
    if n == 0 {
        1
    } else {
        spec_next_seq(spec_seq_after((n - 1) as nat))
    }
}

/// The allocation sequence in closed form: the `n`-th state is `n % 15 + 1`.
proof fn lemma_seq_after_mod(n: nat)
    ensures
        spec_seq_after(n) == n % 15 + 1,
    decreases n,
{
    if n > 0 {
        lemma_seq_after_mod((n - 1) as nat);
        assert((n - 1) % 15 + 1 == if n % 15 == 0 {
            15int
        } else {
            (n % 15) as int
        }) by (nonlinear_arith);
    }
}

/// Sequence wrap-around: allocations run 1 up to 15 and wrap back to 1, so
/// the 15th consecutive request gets sequence number 15, the 16th gets 1,
/// and no request ever gets 0.
pub proof fn lemma_sequence_wrap_around()
    ensures
        spec_seq_after(14) == 15,
        spec_seq_after(15) == 1,
        forall|n: nat| 1 <= #[trigger] spec_seq_after(n) <= 15,
{
    lemma_seq_after_mod(14);
    lemma_seq_after_mod(15);
    assert forall|n: nat| 1 <= #[trigger] spec_seq_after(n) <= 15 by {
        lemma_seq_after_mod(n);
    }
}

/// What the worker answers into a popped response sink: the payload when
/// the header's error code is zero, else the error the code names.
pub open spec fn spec_response_message(header: PacketHeader, payload: Seq<u8>) -> Result<
    Seq<u8>,
    BrickletError,
> {
    if header.error_code != 0 {
        Err(BrickletError::spec_from_code(header.error_code))
    } else {
        Ok(payload)
    }
}

/// A response queue map with the first waiter under `key` popped: the rest
/// of the queue stays, and a drained queue leaves the map.
pub open spec fn spec_pop_first<T>(m: Map<u64, Seq<T>>, key: u64) -> Map<u64, Seq<T>> {
    if m.contains_key(key) {
        if m[key].len() > 1 {
            m.insert(key, m[key].drop_first())
        } else {
            m.remove(key)
        }
    } else {
        m
    }
}

/// Response correlation: two getters waiting under different sequence
/// numbers of the same uid and function id are answered independently, in
/// whatever order their replies arrive: each reply pops exactly the sink
/// queued under its own sequence number.
pub proof fn lemma_response_correlation<T>(
    m: Map<u64, Seq<T>>,
    uid: u32,
    function_id: u8,
    seq_a: u8,
    seq_b: u8,
    sink_a: T,
    sink_b: T,
)
    requires
        seq_a != seq_b,
        m.contains_key(spec_response_key(uid, function_id, seq_a)),
        m.contains_key(spec_response_key(uid, function_id, seq_b)),
        m[spec_response_key(uid, function_id, seq_a)] == seq![sink_a],
        m[spec_response_key(uid, function_id, seq_b)] == seq![sink_b],
    ensures
        m[spec_response_key(uid, function_id, seq_b)][0] == sink_b,
        ({
            let after_b = spec_pop_first(m, spec_response_key(uid, function_id, seq_b));
            &&& after_b.contains_key(spec_response_key(uid, function_id, seq_a))
            &&& after_b[spec_response_key(uid, function_id, seq_a)][0] == sink_a
        }),
{
    let ka = spec_response_key(uid, function_id, seq_a);
    let kb = spec_response_key(uid, function_id, seq_b);
    if ka == kb {
        lemma_response_key_injective(uid, function_id, seq_a, uid, function_id, seq_b);
    }
}

/// What the worker tells its loop to do with a request that arrived while
/// no connection is up.
pub enum DisconnectedAction {
    /// Nothing more: wait for the next request.
    Continue,
    /// Leave the worker loop for good.
    Terminate,
    /// Open a TCP connection to this host and port; the sink, when there is
    /// one, learns how the connect went.
    StartConnect { host: String, port: u16, done: Option<Sender<Result<(), ConnectError>>> },
}

/// What the worker tells its loop to do with a request that arrived while a
/// connection is up.
pub enum ConnectedAction {
    /// Nothing more: the request was handled inside the worker.
    Done,
    /// Put this frame on the wire; on success, post the current timeout
    /// into the acknowledgement channel, when there is one.
    Write { frame: Vec<u8>, ack: Option<Sender<u64>> },
}

/// What the worker tells its loop after a socket-closed notice.
pub enum SocketClosedAction {
    /// The notice is from an older session: ignore it.
    Ignore,
    /// The session's socket is gone: leave the connection, and reconnect
    /// when asked to.
    BreakConnection { trigger_reconnect: bool },
}

/// The socket worker's state: the dispatch tables, the subscriber lists,
/// the lifecycle flags and the sequence counter. The worker thread feeds
/// every request through the handlers here; the TCP socket itself stays
/// with the thread.
pub struct WorkerState {
    registered_callbacks: SinkTable<Sender<Vec<u8>>>,
    connect_callbacks: Vec<Sender<ConnectReason>>,
    disconnect_callbacks: Vec<Sender<DisconnectReason>>,
    enumerate_callbacks: Vec<Sender<Vec<u8>>>,
    session_id: u64,
    timeout_ms: u64,
    auto_reconnect_enabled: bool,
    auto_reconnect_allowed: bool,
    is_auto_reconnect: bool,
    seq_num: u8,
    response_queues: SinkTable<Sender<Result<Vec<u8>, BrickletError>>>,
    disconnect_reason: DisconnectReason,
    connection_state: Arc<AtomicUsize>,
}

impl WorkerState {
    /// The callback registry, keyed by [`spec_callback_key`].
    pub closed spec fn callbacks(&self) -> Map<u64, Seq<Sender<Vec<u8>>>> {
        self.registered_callbacks@
    }

    /// The response queues, keyed by [`spec_response_key`].
    pub closed spec fn response_queues(&self) -> Map<u64, Seq<Sender<Result<Vec<u8>, BrickletError>>>> {
        self.response_queues@
    }

    /// The connect event subscribers, in subscription order.
    pub closed spec fn connect_subscribers(&self) -> Seq<Sender<ConnectReason>> {
        self.connect_callbacks@
    }

    /// The disconnect event subscribers, in subscription order.
    pub closed spec fn disconnect_subscribers(&self) -> Seq<Sender<DisconnectReason>> {
        self.disconnect_callbacks@
    }

    /// The enumerate event subscribers, in subscription order.
    pub closed spec fn enumerate_subscribers(&self) -> Seq<Sender<Vec<u8>>> {
        self.enumerate_callbacks@
    }

    /// The session counter: one per TCP connection, ever increasing.
    pub closed spec fn session_id(&self) -> u64 {
        self.session_id
    }

    /// The timeout stamped into request acknowledgements, in milliseconds.
    pub closed spec fn timeout_ms(&self) -> u64 {
        self.timeout_ms
    }

    /// Whether a lost connection is reopened.
    pub closed spec fn auto_reconnect_enabled(&self) -> bool {
        self.auto_reconnect_enabled
    }

    /// Whether a reconnect attempt may still happen: a disconnect request
    /// during a reconnect forbids it.
    pub closed spec fn auto_reconnect_allowed(&self) -> bool {
        self.auto_reconnect_allowed
    }

    /// Whether the connection being opened is an auto-reconnect.
    pub closed spec fn is_auto_reconnect(&self) -> bool {
        self.is_auto_reconnect
    }

    /// The sequence number the next wire request gets.
    pub closed spec fn seq_num(&self) -> u8 {
        self.seq_num
    }

    /// The reason the next disconnect event will carry.
    pub closed spec fn disconnect_reason(&self) -> DisconnectReason {
        self.disconnect_reason
    }

    /// The tables are well formed and the sequence counter stays in 1..=15.
    pub open spec fn wf(&self) -> bool {
        &&& 1 <= self.seq_num() <= 15
        &&& self.callbacks_wf()
    }

    /// The two sink tables are well formed.
    pub closed spec fn callbacks_wf(&self) -> bool {
        self.registered_callbacks.wf() && self.response_queues.wf()
    }

    /// A fresh worker: no subscribers, no queues, the default timeout of
    /// 2500 milliseconds, auto-reconnect enabled and allowed.
    pub fn new(connection_state: Arc<AtomicUsize>) -> (r: WorkerState)
        ensures
            r.wf(),
            r.callbacks() == Map::<u64, Seq<Sender<Vec<u8>>>>::empty(),
            r.response_queues() == Map::<u64, Seq<Sender<Result<Vec<u8>, BrickletError>>>>::empty(),
            r.connect_subscribers() == Seq::<Sender<ConnectReason>>::empty(),
            r.disconnect_subscribers() == Seq::<Sender<DisconnectReason>>::empty(),
            r.enumerate_subscribers() == Seq::<Sender<Vec<u8>>>::empty(),
            r.session_id() == 0,
            r.timeout_ms() == 2500,
            r.auto_reconnect_enabled(),
            r.auto_reconnect_allowed(),
            !r.is_auto_reconnect(),
            r.seq_num() == 1,
    {
        let r = WorkerState {
            registered_callbacks: SinkTable::new(),
            connect_callbacks: Vec::new(),
            disconnect_callbacks: Vec::new(),
            enumerate_callbacks: Vec::new(),
            session_id: 0,
            timeout_ms: 2500,
            auto_reconnect_enabled: true,
            auto_reconnect_allowed: true,
            is_auto_reconnect: false,
            seq_num: 1,
            response_queues: SinkTable::new(),
            disconnect_reason: DisconnectReason::Error,
            connection_state,
        };
        proof {
            assert(r.connect_subscribers() =~= Seq::<Sender<ConnectReason>>::empty());
            assert(r.disconnect_subscribers() =~= Seq::<Sender<DisconnectReason>>::empty());
            assert(r.enumerate_subscribers() =~= Seq::<Sender<Vec<u8>>>::empty());
        }
        r
    }
}

/// The two dispatch tables and the three subscriber lists of `a` and `b`
/// are the same.
pub open spec fn same_tables(a: &WorkerState, b: &WorkerState) -> bool {
    &&& a.callbacks() == b.callbacks()
    &&& a.response_queues() == b.response_queues()
    &&& a.connect_subscribers() == b.connect_subscribers()
    &&& a.disconnect_subscribers() == b.disconnect_subscribers()
    &&& a.enumerate_subscribers() == b.enumerate_subscribers()
}

/// The lifecycle fields of `a` and `b` are the same.
pub open spec fn same_lifecycle(a: &WorkerState, b: &WorkerState) -> bool {
    &&& a.session_id() == b.session_id()
    &&& a.timeout_ms() == b.timeout_ms()
    &&& a.auto_reconnect_enabled() == b.auto_reconnect_enabled()
    &&& a.auto_reconnect_allowed() == b.auto_reconnect_allowed()
    &&& a.is_auto_reconnect() == b.is_auto_reconnect()
    &&& a.seq_num() == b.seq_num()
    &&& a.disconnect_reason() == b.disconnect_reason()
}

/// The response sink a wire request carries: a getter always has one, a
/// setter only when its response-expected flag asked for one.
pub open spec fn spec_request_sink(req: &Request) -> Option<
    Sender<Result<Vec<u8>, BrickletError>>,
> {
    match req {
        Request::Setter { response_sender, .. } => *response_sender,
        Request::Get { response_sender, .. } => Some(*response_sender),
        _ => None,
    }
}

/// The uid a wire request addresses.
pub open spec fn spec_request_uid(req: &Request) -> u32 {
    match req {
        Request::Setter { uid, .. } => *uid,
        Request::Get { uid, .. } => *uid,
        _ => 0,
    }
}

/// The function id a wire request calls.
pub open spec fn spec_request_function_id(req: &Request) -> u8 {
    match req {
        Request::Setter { function_id, .. } => *function_id,
        Request::Get { function_id, .. } => *function_id,
        _ => 0,
    }
}

/// Whether a request is the worker's own keepalive: a setter on the
/// broadcast uid with the no-op function id and no response sink. Nobody
/// waits for its acknowledgement.
pub open spec fn spec_is_keepalive(req: &Request) -> bool {
    req matches Request::Setter { uid: 0, function_id: 128, response_sender: None, .. }
}

/// The keepalive request the worker sends itself when the work queue stays
/// quiet: a no-op setter on the broadcast uid.
pub fn keepalive_request() -> (r: Request)
    ensures
        spec_is_keepalive(&r),
        r.spec_payload().len() == 0,
{
    Request::Setter { uid: 0, function_id: 128, payload: Vec::new(), response_sender: None }
}

/// A setter request carrying exactly these fields.
pub fn setter_request(
    uid: u32,
    function_id: u8,
    payload: Vec<u8>,
    response_sender: Option<Sender<Result<Vec<u8>, BrickletError>>>,
) -> (r: Request)
    ensures
        r is Setter,
        spec_request_uid(&r) == uid,
        spec_request_function_id(&r) == function_id,
        r.spec_payload() == payload@,
        spec_request_sink(&r) == response_sender,
{
    Request::Setter { uid, function_id, payload, response_sender }
}

/// A getter request carrying exactly these fields; a getter always has a
/// response sink.
pub fn getter_request(
    uid: u32,
    function_id: u8,
    payload: Vec<u8>,
    response_sender: Sender<Result<Vec<u8>, BrickletError>>,
) -> (r: Request)
    ensures
        r is Get,
        spec_request_uid(&r) == uid,
        spec_request_function_id(&r) == function_id,
        r.spec_payload() == payload@,
        spec_request_sink(&r) == Some(response_sender),
{
    Request::Get { uid, function_id, payload, response_sender }
}

/// The enumerate broadcast: a setter on the broadcast uid with the
/// enumerate-request function id, no payload and no response sink (its
/// frame goes out with the response-expected bit clear).
pub fn enumerate_request() -> (r: Request)
    ensures
        r is Setter,
        spec_request_uid(&r) == 0,
        spec_request_function_id(&r) == 254,
        r.spec_payload().len() == 0,
        spec_request_sink(&r) is None,
{
    let r = setter_request(0, 254, Vec::new(), None);
    r
}

/// A callback registration carrying exactly these fields.
pub fn register_callback_request(
    uid: u32,
    function_id: u8,
    response_sender: Sender<Vec<u8>>,
) -> (r: Request)
    ensures
        r == (Request::RegisterCallback { uid, function_id, response_sender }),
{
    Request::RegisterCallback { uid, function_id, response_sender }
}

/// A connect-event subscription carrying exactly this sink.
pub fn register_connect_request(response_sender: Sender<ConnectReason>) -> (r: Request)
    ensures
        r == Request::RegisterConnectCallback(response_sender),
{
    Request::RegisterConnectCallback(response_sender)
}

/// A disconnect-event subscription carrying exactly this sink.
pub fn register_disconnect_request(response_sender: Sender<DisconnectReason>) -> (r: Request)
    ensures
        r == Request::RegisterDisconnectCallback(response_sender),
{
    Request::RegisterDisconnectCallback(response_sender)
}

/// An enumerate-event subscription carrying exactly this sink.
pub fn register_enumerate_request(response_sender: Sender<Vec<u8>>) -> (r: Request)
    ensures
        r == Request::RegisterEnumerateCallback(response_sender),
{
    Request::RegisterEnumerateCallback(response_sender)
}

/// The message a correlated reply delivers into the popped sink, exactly as
/// [`spec_response_message`] states it: the payload on error code zero, else
/// the error the code names.
pub fn response_message(header: PacketHeader, payload: Vec<u8>) -> (r: Result<
    Vec<u8>,
    BrickletError,
>)
    ensures
        match spec_response_message(header, payload@) {
            Ok(b) => r is Ok && r->Ok_0@ == b,
            Err(e) => r == Err::<Vec<u8>, BrickletError>(e),
        },
{
    if header.error_code != 0 {
        Err(BrickletError::from_code(header.error_code))
    } else {
        Ok(payload)
    }
}

/// The answer a connect request gets while a connection is already up.
pub fn already_connected_refusal() -> (r: Result<(), ConnectError>)
    ensures
        r == Err::<(), ConnectError>(ConnectError::AlreadyConnected),
{
    Err(ConnectError::AlreadyConnected)
}

/// `a` is an order-preserving selection of `b`: what a fan-out leaves of a
/// subscriber list.
pub open spec fn spec_subsequence_of<T>(a: Seq<T>, b: Seq<T>) -> bool
    decreases a.len() + b.len(),
{
    if a.len() == 0 {
        true
    } else if b.len() == 0 {
        false
    } else if a[0] == b[0] {
        spec_subsequence_of(a.drop_first(), b.drop_first())
    } else {
        spec_subsequence_of(a, b.drop_first())
    }
}

/// Appending the same element to both sides keeps a subsequence.
proof fn lemma_subsequence_push_both<T>(a: Seq<T>, b: Seq<T>, x: T)
    requires
        spec_subsequence_of(a, b),
    ensures
        spec_subsequence_of(a.push(x), b.push(x)),
    decreases a.len() + b.len(),
{
    if a.len() == 0 {
        if b.len() == 0 {
            assert(a.push(x)[0] == b.push(x)[0]);
            assert(a.push(x).drop_first() =~= Seq::<T>::empty());
            assert(b.push(x).drop_first() =~= Seq::<T>::empty());
            assert(spec_subsequence_of(Seq::<T>::empty(), Seq::<T>::empty()));
        } else {
            if x == b[0] {
                assert(a.push(x)[0] == b.push(x)[0]);
                assert(a.push(x).drop_first() =~= Seq::<T>::empty());
                assert(spec_subsequence_of(Seq::<T>::empty(), b.push(x).drop_first()));
            } else {
                assert(b.push(x).drop_first() =~= b.drop_first().push(x));
                lemma_subsequence_push_both(a, b.drop_first(), x);
            }
        }
    } else {
        assert(a.push(x)[0] == a[0] && b.push(x)[0] == b[0]);
        assert(a.push(x).drop_first() =~= a.drop_first().push(x));
        assert(b.push(x).drop_first() =~= b.drop_first().push(x));
        if a[0] == b[0] {
            lemma_subsequence_push_both(a.drop_first(), b.drop_first(), x);
        } else {
            lemma_subsequence_push_both(a, b.drop_first(), x);
        }
    }
}

/// Appending an element to the right side alone keeps a subsequence.
proof fn lemma_subsequence_grow_right<T>(a: Seq<T>, b: Seq<T>, x: T)
    requires
        spec_subsequence_of(a, b),
    ensures
        spec_subsequence_of(a, b.push(x)),
    decreases a.len() + b.len(),
{
    if a.len() == 0 {
    } else {
        assert(b.len() > 0);
        assert(b.push(x)[0] == b[0]);
        assert(b.push(x).drop_first() =~= b.drop_first().push(x));
        if a[0] == b[0] {
            lemma_subsequence_grow_right(a.drop_first(), b.drop_first(), x);
        } else {
            lemma_subsequence_grow_right(a, b.drop_first(), x);
        }
    }
}

/// Send one message to every sink of the list and keep the sinks whose
/// channel is still open: what remains is an order-preserving selection of
/// the list.
fn fan_out<T: Clone>(list: Vec<Sender<T>>, message: T) -> (r: Vec<Sender<T>>)
    ensures
        spec_subsequence_of(r@, list@),
        r@.len() <= list@.len(),
{
    let ghost original = list@;
    let mut remaining = list;
    let mut survivors: Vec<Sender<T>> = Vec::new();
    let ghost mut consumed: int = 0;
    proof {
        assert(original.take(0int) =~= Seq::<Sender<T>>::empty());
    }
    while remaining.len() > 0
        invariant
            consumed + remaining@.len() == original.len(),
            0 <= consumed,
            remaining@ == original.skip(consumed),
            spec_subsequence_of(survivors@, original.take(consumed)),
            survivors@.len() <= consumed,
        decreases remaining@.len(),
    {
        let tx = remaining.remove(0);
        proof {
            assert(original.skip(consumed).drop_first() =~= original.skip(consumed + 1));
            assert(tx == original[consumed]);
            assert(original.take(consumed).push(original[consumed]) =~= original.take(
                consumed + 1,
            ));
        }
        let ghost pre_survivors = survivors@;
        if crate::channel::channel_send(&tx, message.clone()) {
            survivors.push(tx);
            proof {
                lemma_subsequence_push_both(pre_survivors, original.take(consumed), tx);
            }
        } else {
            proof {
                lemma_subsequence_grow_right(pre_survivors, original.take(consumed), tx);
            }
        }
        proof {
            consumed = consumed + 1;
        }
    }
    proof {
        assert(original.take(consumed) =~= original);
    }
    survivors
}

/// Subscribe a sink to the callback with this uid and function id.
pub fn register_callback(
    uid: u32,
    function_id: u8,
    response_sender: Sender<Vec<u8>>,
    registered_callbacks: &mut SinkTable<Sender<Vec<u8>>>,
) -> (nothing: ())
    requires
        old(registered_callbacks).wf(),
    ensures
        final(registered_callbacks).wf(),
        final(registered_callbacks)@ == old(registered_callbacks)@.insert(
            spec_callback_key(uid, function_id),
            if old(registered_callbacks)@.contains_key(spec_callback_key(uid, function_id)) {
                old(registered_callbacks)@[spec_callback_key(uid, function_id)].push(
                    response_sender,
                )
            } else {
                seq![response_sender]
            },
        ),
{
    let key = callback_key(uid, function_id);
    registered_callbacks.push_to(key, response_sender);
}

impl WorkerState {
    /// Publish a connection state number for `get_connection_state`
    /// readers: 0 disconnected, 1 connected, 2 pending.
    fn store_connection_state(&self, num: usize) {
        self.connection_state.store(num, Ordering::SeqCst);
    }

    /// Start a fresh session's bookkeeping, as the worker does each time it
    /// returns to the disconnected wait: the sequence counter restarts at 1,
    /// the response queues empty out (their receivers see a disconnected
    /// queue), and the next disconnect reason defaults to `Error`.
    pub fn reset_session_state(&mut self)
        requires
            old(self).wf(),
        ensures
            final(self).wf(),
            final(self).seq_num() == 1,
            final(self).response_queues() == Map::<
                u64,
                Seq<Sender<Result<Vec<u8>, BrickletError>>>,
            >::empty(),
            final(self).disconnect_reason() == DisconnectReason::Error,
            final(self).callbacks() == old(self).callbacks(),
            final(self).connect_subscribers() == old(self).connect_subscribers(),
            final(self).disconnect_subscribers() == old(self).disconnect_subscribers(),
            final(self).enumerate_subscribers() == old(self).enumerate_subscribers(),
            final(self).session_id() == old(self).session_id(),
            final(self).timeout_ms() == old(self).timeout_ms(),
            final(self).auto_reconnect_enabled() == old(self).auto_reconnect_enabled(),
            final(self).auto_reconnect_allowed() == old(self).auto_reconnect_allowed(),
            final(self).is_auto_reconnect() == old(self).is_auto_reconnect(),
    {
        self.store_connection_state(0);
        self.seq_num = 1;
        self.response_queues = SinkTable::new();
        self.disconnect_reason = DisconnectReason::Error;
    }

    /// Handle one request while no connection is up: registrations are
    /// served, setters and getters are cancelled with `NotConnected`, the
    /// configuration requests take effect, and a connect request (or an
    /// allowed reconnect trigger) tells the loop to open a socket.
    pub fn handle_disconnected_request(&mut self, event: SocketThreadRequest) -> (r:
        DisconnectedAction)
        requires
            old(self).wf(),
        ensures
            final(self).wf(),
            final(self).session_id() == old(self).session_id(),
            final(self).seq_num() == old(self).seq_num(),
            final(self).response_queues() == old(self).response_queues(),
            (event matches SocketThreadRequest::Terminate ==> r is Terminate && same_tables(
                final(self),
                old(self),
            ) && same_lifecycle(final(self), old(self))),
            (event matches SocketThreadRequest::SetTimeout(t) ==> r is Continue && final(self).timeout_ms() == t && same_tables(final(self), old(self))),
            (event matches SocketThreadRequest::SetAutoReconnect(b) ==> r is Continue && final(self).auto_reconnect_enabled() == b && same_tables(final(self), old(self))),
            (event matches SocketThreadRequest::Connect(host, port, done) ==> (r matches
                DisconnectedAction::StartConnect {
                host: h,
                port: p,
                done: d,
            } && h == host && p == port && d == Some(done)) && !final(self).is_auto_reconnect()
                && same_tables(final(self), old(self))),
            (event matches SocketThreadRequest::TriggerAutoReconnect(host, port) ==> ((old(self).auto_reconnect_allowed() ==> (r matches DisconnectedAction::StartConnect {
                host: h,
                port: p,
                done: d,
            } && h == host && p == port && d is None) && final(self).is_auto_reconnect()) && (!old(self).auto_reconnect_allowed() ==> r is Continue && same_lifecycle(final(self), old(self)))
                && same_tables(final(self), old(self)))),
            (event matches SocketThreadRequest::Disconnect(done) ==> r is Continue && same_tables(
                final(self),
                old(self),
            ) && (old(self).is_auto_reconnect() ==> !final(self).auto_reconnect_allowed()) && (!old(self).is_auto_reconnect() ==> same_lifecycle(final(self), old(self)))),
            (event matches SocketThreadRequest::SocketWasClosed(sid, graceful) ==> r is Continue
                && same_tables(final(self), old(self)) && same_lifecycle(final(self), old(self))),
            (event matches SocketThreadRequest::Response(h, b) ==> r is Continue && same_tables(
                final(self),
                old(self),
            ) && same_lifecycle(final(self), old(self))),
            (event matches SocketThreadRequest::Request(req, ack) ==> r is Continue
                && same_lifecycle(final(self), old(self)) && final(self).connect_subscribers()
                == (if req is RegisterConnectCallback {
                old(self).connect_subscribers().push(req->RegisterConnectCallback_0)
            } else {
                old(self).connect_subscribers()
            }) && final(self).disconnect_subscribers() == (if req is RegisterDisconnectCallback {
                old(self).disconnect_subscribers().push(req->RegisterDisconnectCallback_0)
            } else {
                old(self).disconnect_subscribers()
            }) && final(self).enumerate_subscribers() == (if req is RegisterEnumerateCallback {
                old(self).enumerate_subscribers().push(req->RegisterEnumerateCallback_0)
            } else {
                old(self).enumerate_subscribers()
            }) && (!(req is RegisterCallback) ==> final(self).callbacks() == old(self).callbacks())),
            (event matches SocketThreadRequest::Request(req, ack) ==> (req matches
                Request::RegisterCallback { uid, function_id, response_sender } ==> final(self).callbacks() == old(self).callbacks().insert(
                spec_callback_key(uid, function_id),
                if old(self).callbacks().contains_key(spec_callback_key(uid, function_id)) {
                    old(self).callbacks()[spec_callback_key(uid, function_id)].push(
                        response_sender,
                    )
                } else {
                    seq![response_sender]
                },
            ))),
    {
        match event {
            SocketThreadRequest::Request(req, sent_tx) => {
                match req {
                    Request::RegisterCallback { uid, function_id, response_sender } => {
                        register_callback(
                            uid,
                            function_id,
                            response_sender,
                            &mut self.registered_callbacks,
                        );
                    },
                    Request::RegisterConnectCallback(tx) => {
                        self.connect_callbacks.push(tx);
                    },
                    Request::RegisterDisconnectCallback(tx) => {
                        self.disconnect_callbacks.push(tx);
                    },
                    Request::RegisterEnumerateCallback(tx) => {
                        self.enumerate_callbacks.push(tx);
                    },
                    wire_request => {
                        crate::ip_connection::cancel_request(wire_request);
                    },
                }
                let _ = crate::channel::channel_send(&sent_tx, self.timeout_ms);
                DisconnectedAction::Continue
            },
            SocketThreadRequest::Terminate => DisconnectedAction::Terminate,
            SocketThreadRequest::Connect(host, port, done) => {
                self.is_auto_reconnect = false;
                DisconnectedAction::StartConnect { host, port, done: Some(done) }
            },
            SocketThreadRequest::Disconnect(done) => {
                if !self.is_auto_reconnect {
                    let _ = crate::channel::channel_send(
                        &done,
                        Err::<(), DisconnectErrorNotConnected>(DisconnectErrorNotConnected),
                    );
                } else {
                    self.auto_reconnect_allowed = false;
                }
                DisconnectedAction::Continue
            },
            SocketThreadRequest::SocketWasClosed(_, _) => DisconnectedAction::Continue,
            SocketThreadRequest::Response(_, _) => DisconnectedAction::Continue,
            SocketThreadRequest::SetTimeout(t) => {
                self.timeout_ms = t;
                DisconnectedAction::Continue
            },
            SocketThreadRequest::TriggerAutoReconnect(host, port) => {
                if !self.auto_reconnect_allowed {
                    DisconnectedAction::Continue
                } else {
                    self.is_auto_reconnect = true;
                    DisconnectedAction::StartConnect { host, port, done: None }
                }
            },
            SocketThreadRequest::SetAutoReconnect(enabled) => {
                self.auto_reconnect_enabled = enabled;
                DisconnectedAction::Continue
            },
        }
    }

    /// Note that a connection attempt starts: a fresh session id, and the
    /// pending state published to state readers.
    pub fn begin_connect(&mut self)
        requires
            old(self).wf(),
            old(self).session_id() < u64::MAX,
        ensures
            final(self).wf(),
            final(self).session_id() == old(self).session_id() + 1,
            same_tables(final(self), old(self)),
            final(self).timeout_ms() == old(self).timeout_ms(),
            final(self).auto_reconnect_enabled() == old(self).auto_reconnect_enabled(),
            final(self).auto_reconnect_allowed() == old(self).auto_reconnect_allowed(),
            final(self).is_auto_reconnect() == old(self).is_auto_reconnect(),
            final(self).seq_num() == old(self).seq_num(),
            final(self).disconnect_reason() == old(self).disconnect_reason(),
    {
        self.session_id = self.session_id + 1;
        self.store_connection_state(2);
    }

    /// The session id the frame reader must stamp into its messages.
    pub fn current_session_id(&self) -> (r: u64)
        ensures
            r == self.session_id(),
    {
        self.session_id
    }

    /// The timeout to stamp into acknowledgements, in milliseconds.
    pub fn current_timeout_ms(&self) -> (r: u64)
        ensures
            r == self.timeout_ms(),
    {
        self.timeout_ms
    }

    /// Whether a lost connection is reopened.
    pub fn is_auto_reconnect_enabled(&self) -> (r: bool)
        ensures
            r == self.auto_reconnect_enabled(),
    {
        self.auto_reconnect_enabled
    }

    /// The connection is up: publish it and fan one connect event out to
    /// every connect subscriber, dropping subscribers whose channel closed.
    /// The event says whether this connection was an auto-reconnect.
    pub fn connect_succeeded(&mut self) -> (r: (ConnectReason, usize))
        requires
            old(self).wf(),
        ensures
            final(self).wf(),
            r.0 == (if old(self).is_auto_reconnect() {
                ConnectReason::AutoReconnect
            } else {
                ConnectReason::Request
            }),
            r.1 == old(self).connect_subscribers().len(),
            final(self).connect_subscribers().len() <= old(self).connect_subscribers().len(),
            spec_subsequence_of(
                final(self).connect_subscribers(),
                old(self).connect_subscribers(),
            ),
            final(self).callbacks() == old(self).callbacks(),
            final(self).response_queues() == old(self).response_queues(),
            final(self).disconnect_subscribers() == old(self).disconnect_subscribers(),
            final(self).enumerate_subscribers() == old(self).enumerate_subscribers(),
            same_lifecycle(final(self), old(self)),
    {
        self.store_connection_state(1);
        let reason = if self.is_auto_reconnect {
            ConnectReason::AutoReconnect
        } else {
            ConnectReason::Request
        };
        let mut list: Vec<Sender<ConnectReason>> = Vec::new();
        core::mem::swap(&mut list, &mut self.connect_callbacks);
        let total = list.len();
        self.connect_callbacks = fan_out(list, reason);
        (reason, total)
    }

    /// Handle one request while the connection is up. Registrations are
    /// served and acknowledged at once. A setter or getter gets the next
    /// sequence number, its response sink (if any) joins the queue under
    /// `(uid, function id, sequence number)`, and the framed bytes go back
    /// to the loop to be written; the acknowledgement waits for the write,
    /// and the keepalive has nobody to acknowledge.
    pub fn handle_connected_request(&mut self, request: Request, sent_tx: Sender<u64>) -> (r:
        ConnectedAction)
        requires
            old(self).wf(),
            request.spec_is_wire_request() ==> request.spec_payload().len() <= MAX_FRAME_SIZE
                - PACKET_HEADER_SIZE,
        ensures
            final(self).wf(),
            final(self).session_id() == old(self).session_id(),
            final(self).timeout_ms() == old(self).timeout_ms(),
            final(self).auto_reconnect_enabled() == old(self).auto_reconnect_enabled(),
            final(self).auto_reconnect_allowed() == old(self).auto_reconnect_allowed(),
            final(self).is_auto_reconnect() == old(self).is_auto_reconnect(),
            final(self).disconnect_reason() == old(self).disconnect_reason(),
            final(self).connect_subscribers() == (if request is RegisterConnectCallback {
                old(self).connect_subscribers().push(request->RegisterConnectCallback_0)
            } else {
                old(self).connect_subscribers()
            }),
            final(self).disconnect_subscribers() == (if request is RegisterDisconnectCallback {
                old(self).disconnect_subscribers().push(request->RegisterDisconnectCallback_0)
            } else {
                old(self).disconnect_subscribers()
            }),
            final(self).enumerate_subscribers() == (if request is RegisterEnumerateCallback {
                old(self).enumerate_subscribers().push(request->RegisterEnumerateCallback_0)
            } else {
                old(self).enumerate_subscribers()
            }),
            (!(request is RegisterCallback) ==> final(self).callbacks() == old(self).callbacks()),
            (request matches Request::RegisterCallback { uid, function_id, response_sender }
                ==> final(self).callbacks() == old(self).callbacks().insert(
                spec_callback_key(uid, function_id),
                if old(self).callbacks().contains_key(spec_callback_key(uid, function_id)) {
                    old(self).callbacks()[spec_callback_key(uid, function_id)].push(
                        response_sender,
                    )
                } else {
                    seq![response_sender]
                },
            )),
            (!request.spec_is_wire_request() ==> r is Done && final(self).seq_num() == old(self).seq_num() && final(self).response_queues() == old(self).response_queues()),
            (request.spec_is_wire_request() ==> ({
                let sent_seq = old(self).seq_num();
                let key = spec_response_key(
                    spec_request_uid(&request),
                    spec_request_function_id(&request),
                    sent_seq,
                );
                &&& final(self).seq_num() == spec_next_seq(sent_seq)
                &&& (r matches ConnectedAction::Write { frame, ack } && frame@
                    == spec_header_bytes(request.spec_header(sent_seq)) + request.spec_payload()
                    && ack == (if spec_is_keepalive(&request) {
                    Option::<Sender<u64>>::None
                } else {
                    Some(sent_tx)
                }))
                &&& final(self).response_queues() == (match spec_request_sink(&request) {
                    Some(sink) => old(self).response_queues().insert(
                        key,
                        if old(self).response_queues().contains_key(key) {
                            old(self).response_queues()[key].push(sink)
                        } else {
                            seq![sink]
                        },
                    ),
                    None => old(self).response_queues(),
                })
            })),
    {
        match request {
            Request::RegisterCallback { uid, function_id, response_sender } => {
                register_callback(uid, function_id, response_sender, &mut self.registered_callbacks);
                let _ = crate::channel::channel_send(&sent_tx, self.timeout_ms);
                ConnectedAction::Done
            },
            Request::RegisterConnectCallback(tx) => {
                self.connect_callbacks.push(tx);
                let _ = crate::channel::channel_send(&sent_tx, self.timeout_ms);
                ConnectedAction::Done
            },
            Request::RegisterDisconnectCallback(tx) => {
                self.disconnect_callbacks.push(tx);
                let _ = crate::channel::channel_send(&sent_tx, self.timeout_ms);
                ConnectedAction::Done
            },
            Request::RegisterEnumerateCallback(tx) => {
                self.enumerate_callbacks.push(tx);
                let _ = crate::channel::channel_send(&sent_tx, self.timeout_ms);
                ConnectedAction::Done
            },
            wire_request => {
                let keepalive = match &wire_request {
                    Request::Setter { uid: 0, function_id: 128, response_sender: None, .. } => true,
                    _ => false,
                };
                let header = wire_request.get_header(self.seq_num);
                let sent_seq = self.seq_num;
                self.seq_num = if self.seq_num >= 15 {
                    1
                } else {
                    self.seq_num + 1
                };
                let mut frame = crate::packet::PacketHeader::to_le_bytes(header);
                let (uid, function_id, payload, sink) = match wire_request {
                    Request::Setter { uid, function_id, payload, response_sender } => (
                        uid,
                        function_id,
                        payload,
                        response_sender,
                    ),
                    Request::Get { uid, function_id, payload, response_sender } => (
                        uid,
                        function_id,
                        payload,
                        Some(response_sender),
                    ),
                    _ => {
                        proof {
                            assert(false);
                        }
                        (0, 0, Vec::new(), None)
                    },
                };
                if let Some(sink) = sink {
                    let key = response_key(uid, function_id, sent_seq);
                    self.response_queues.push_to(key, sink);
                }
                let ghost pre_frame = frame@;
                let n = payload.len();
                let mut i: usize = 0;
                while i < n
                    invariant
                        i <= n,
                        n == payload@.len(),
                        frame@ =~= pre_frame + payload@.take(i as int),
                    decreases n - i,
                {
                    frame.push(payload[i]);
                    proof {
                        assert(frame@ =~= pre_frame + payload@.take(i as int + 1));
                    }
                    i += 1;
                }
                proof {
                    assert(frame@ =~= pre_frame + payload@);
                }
                ConnectedAction::Write {
                    frame,
                    ack: if keepalive {
                        None
                    } else {
                        Some(sent_tx)
                    },
                }
            },
        }
    }

    /// Note how a frame write went: a written request's acknowledgement gets
    /// the current timeout; a failed write breaks the connection, to be
    /// reopened exactly when auto-reconnect is enabled.
    pub fn after_request_write(&mut self, write_ok: bool, ack: Option<Sender<u64>>) -> (r:
        SocketClosedAction)
        requires
            old(self).wf(),
        ensures
            final(self).wf(),
            same_tables(final(self), old(self)),
            same_lifecycle(final(self), old(self)),
            (write_ok ==> r is Ignore),
            (!write_ok ==> (r matches SocketClosedAction::BreakConnection { trigger_reconnect }
                && trigger_reconnect == old(self).auto_reconnect_enabled())),
    {
        if write_ok {
            if let Some(ack_tx) = ack {
                let _ = crate::channel::channel_send(&ack_tx, self.timeout_ms);
            }
            SocketClosedAction::Ignore
        } else {
            SocketClosedAction::BreakConnection { trigger_reconnect: self.auto_reconnect_enabled }
        }
    }

    /// Route one decoded frame. An unsolicited frame (sequence number 0)
    /// fans out to the enumerate subscribers when it is the enumerate event,
    /// else to the sinks registered under its uid and function id; closed
    /// subscribers are dropped. A correlated reply pops the first sink
    /// waiting under its `(uid, function id, sequence number)` and hands it
    /// the payload, or the error its header's error code names.
    pub fn handle_response(&mut self, header: PacketHeader, payload: Vec<u8>) -> (nothing: ())
        requires
            old(self).wf(),
        ensures
            final(self).wf(),
            same_lifecycle(final(self), old(self)),
            final(self).connect_subscribers() == old(self).connect_subscribers(),
            final(self).disconnect_subscribers() == old(self).disconnect_subscribers(),
            (header.sequence_number != 0 ==> final(self).callbacks() == old(self).callbacks()
                && final(self).enumerate_subscribers() == old(self).enumerate_subscribers()
                && final(self).response_queues() == spec_pop_first(
                old(self).response_queues(),
                spec_response_key(header.uid, header.function_id, header.sequence_number),
            )),
            (header.sequence_number == 0 ==> final(self).response_queues() == old(self).response_queues()),
            (header.sequence_number == 0 && header.function_id == 253 ==> final(self).callbacks()
                == old(self).callbacks() && final(self).enumerate_subscribers().len() <= old(self).enumerate_subscribers().len() && spec_subsequence_of(
                final(self).enumerate_subscribers(),
                old(self).enumerate_subscribers(),
            )),
            (header.sequence_number == 0 && header.function_id != 253 ==> final(self).enumerate_subscribers() == old(self).enumerate_subscribers() && (forall|k: u64|
                k != spec_callback_key(header.uid, header.function_id) ==> final(self).callbacks().contains_key(k) == old(self).callbacks().contains_key(k) && (old(self).callbacks().contains_key(k) ==> final(self).callbacks()[k] == old(self).callbacks()[k])) && (!old(self).callbacks().contains_key(
                spec_callback_key(header.uid, header.function_id),
            ) ==> final(self).callbacks() == old(self).callbacks()) && (old(self).callbacks().contains_key(
                spec_callback_key(header.uid, header.function_id),
            ) && final(self).callbacks().contains_key(
                spec_callback_key(header.uid, header.function_id),
            ) ==> spec_subsequence_of(
                final(self).callbacks()[spec_callback_key(header.uid, header.function_id)],
                old(self).callbacks()[spec_callback_key(header.uid, header.function_id)],
            ))),
    {
        if header.sequence_number == 0 {
            if header.function_id == 253 {
                let mut list: Vec<Sender<Vec<u8>>> = Vec::new();
                core::mem::swap(&mut list, &mut self.enumerate_callbacks);
                self.enumerate_callbacks = fan_out(list, payload);
            } else {
                let key = callback_key(header.uid, header.function_id);
                match self.registered_callbacks.take(key) {
                    Some(queue) => {
                        let survivors = fan_out(queue, payload);
                        if survivors.len() > 0 {
                            self.registered_callbacks.put(key, survivors);
                        }
                    },
                    None => {},
                }
            }
        } else {
            let key = response_key(header.uid, header.function_id, header.sequence_number);
            match self.response_queues.take(key) {
                Some(mut queue) => {
                    let first = queue.remove(0);
                    let message = response_message(header, payload);
                    let _ = crate::channel::channel_send(&first, message);
                    if queue.len() > 0 {
                        proof {
                            assert(queue@ =~= old(self).response_queues()[key].drop_first());
                        }
                        self.response_queues.put(key, queue);
                    }
                },
                None => {},
            }
        }
    }

    /// Sort a socket-closed notice: one from the current session breaks the
    /// connection with the reason the notice names (`Shutdown` for a
    /// graceful close, else `Error`), reconnecting exactly when
    /// auto-reconnect is enabled; one from an older session is stale and
    /// ignored.
    pub fn handle_socket_closed(&mut self, session_id: u64, was_shutdown: bool) -> (r:
        SocketClosedAction)
        requires
            old(self).wf(),
        ensures
            final(self).wf(),
            same_tables(final(self), old(self)),
            final(self).session_id() == old(self).session_id(),
            final(self).timeout_ms() == old(self).timeout_ms(),
            final(self).auto_reconnect_enabled() == old(self).auto_reconnect_enabled(),
            final(self).auto_reconnect_allowed() == old(self).auto_reconnect_allowed(),
            final(self).is_auto_reconnect() == old(self).is_auto_reconnect(),
            final(self).seq_num() == old(self).seq_num(),
            (session_id != old(self).session_id() ==> r is Ignore && final(self).disconnect_reason() == old(self).disconnect_reason()),
            (session_id == old(self).session_id() ==> (r matches
                SocketClosedAction::BreakConnection { trigger_reconnect } && trigger_reconnect
                == old(self).auto_reconnect_enabled()) && final(self).disconnect_reason() == (
            if was_shutdown {
                DisconnectReason::Shutdown
            } else {
                DisconnectReason::Error
            })),
    {
        if session_id == self.session_id {
            self.disconnect_reason = if was_shutdown {
                DisconnectReason::Shutdown
            } else {
                DisconnectReason::Error
            };
            SocketClosedAction::BreakConnection { trigger_reconnect: self.auto_reconnect_enabled }
        } else {
            SocketClosedAction::Ignore
        }
    }

    /// Serve a disconnect request while connected: the requester learns it
    /// worked, and the coming disconnect event will say the user asked for
    /// it. The loop shuts the socket down.
    pub fn acknowledge_disconnect(
        &mut self,
        done: Sender<Result<(), DisconnectErrorNotConnected>>,
    ) -> (nothing: ())
        requires
            old(self).wf(),
        ensures
            final(self).wf(),
            same_tables(final(self), old(self)),
            final(self).disconnect_reason() == DisconnectReason::Request,
            final(self).session_id() == old(self).session_id(),
            final(self).timeout_ms() == old(self).timeout_ms(),
            final(self).auto_reconnect_enabled() == old(self).auto_reconnect_enabled(),
            final(self).auto_reconnect_allowed() == old(self).auto_reconnect_allowed(),
            final(self).is_auto_reconnect() == old(self).is_auto_reconnect(),
            final(self).seq_num() == old(self).seq_num(),
    {
        let _ = crate::channel::channel_send(&done, Ok::<(), DisconnectErrorNotConnected>(()));
        self.disconnect_reason = DisconnectReason::Request;
    }

    /// Refuse a connect request while connected: the requester must
    /// disconnect first. The worker's state does not change (the handler
    /// only borrows it).
    pub fn reject_connect(&self, done: Sender<Result<(), ConnectError>>) {
        let _ = crate::channel::channel_send(&done, already_connected_refusal());
    }

    /// The connection ended: fan one disconnect event, carrying the stored
    /// reason, out to every disconnect subscriber; closed subscribers are
    /// dropped.
    pub fn end_connection(&mut self) -> (r: (DisconnectReason, usize))
        requires
            old(self).wf(),
        ensures
            final(self).wf(),
            r.0 == old(self).disconnect_reason(),
            r.1 == old(self).disconnect_subscribers().len(),
            final(self).disconnect_subscribers().len() <= old(self).disconnect_subscribers().len(),
            spec_subsequence_of(
                final(self).disconnect_subscribers(),
                old(self).disconnect_subscribers(),
            ),
            final(self).callbacks() == old(self).callbacks(),
            final(self).response_queues() == old(self).response_queues(),
            final(self).connect_subscribers() == old(self).connect_subscribers(),
            final(self).enumerate_subscribers() == old(self).enumerate_subscribers(),
            same_lifecycle(final(self), old(self)),
    {
        let reason = self.disconnect_reason;
        let mut list: Vec<Sender<DisconnectReason>> = Vec::new();
        core::mem::swap(&mut list, &mut self.disconnect_callbacks);
        let total = list.len();
        self.disconnect_callbacks = fan_out(list, reason);
        (reason, total)
    }

    /// The worker leaves for good: state readers see `Disconnected`, and
    /// every disconnect subscriber hears a final user-requested disconnect.
    pub fn final_shutdown(&mut self)
        requires
            old(self).wf(),
        ensures
            final(self).wf(),
            final(self).disconnect_reason() == DisconnectReason::Request,
            final(self).disconnect_subscribers().len() <= old(self).disconnect_subscribers().len(),
            spec_subsequence_of(
                final(self).disconnect_subscribers(),
                old(self).disconnect_subscribers(),
            ),
            final(self).callbacks() == old(self).callbacks(),
            final(self).response_queues() == old(self).response_queues(),
            final(self).connect_subscribers() == old(self).connect_subscribers(),
            final(self).enumerate_subscribers() == old(self).enumerate_subscribers(),
            final(self).session_id() == old(self).session_id(),
            final(self).timeout_ms() == old(self).timeout_ms(),
            final(self).seq_num() == old(self).seq_num(),
    {
        self.store_connection_state(0);
        self.disconnect_reason = DisconnectReason::Request;
        let _ = self.end_connection();
    }
}

} // verus!
