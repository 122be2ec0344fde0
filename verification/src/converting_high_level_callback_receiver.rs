//! Reassembly of streamed (chunked) callbacks into one contiguous payload,
//! and the receiver wrapper that feeds it from a callback channel.

use vstd::prelude::*;

use crate::byte_converter::FromByteSlice;
use crate::converting_callback_receiver::{
    CallbackRecvError, CallbackRecvTimeoutError, CallbackTryRecvError,
    ConvertingCallbackReceiver,
};
use crate::low_level_traits::LowLevelRead;
use std::time::Duration;

verus! {

/// The stream buffer of the high-level layer: whether a stream is in
/// progress, its total length, the next expected chunk offset, and the
/// payload elements gathered so far.
pub struct StreamAssembler<PayloadT> {
    buf: Vec<PayloadT>,
    currently_receiving_stream: bool,
    message_length: usize,
    chunk_offset: usize,
    fill: PayloadT,
}

impl<PayloadT: Copy> StreamAssembler<PayloadT> {
    /// Whether a stream is currently being assembled.
    pub closed spec fn in_progress(&self) -> bool {
        self.currently_receiving_stream
    }

    /// The total length of the stream being assembled.
    pub closed spec fn total_len(&self) -> usize {
        self.message_length
    }

    /// The offset the next chunk must start at.
    pub closed spec fn next_offset(&self) -> usize {
        self.chunk_offset
    }

    /// The payload elements gathered so far.
    pub closed spec fn assembled(&self) -> Seq<PayloadT> {
        self.buf@.take(self.chunk_offset as int)
    }

    /// The element that seeds payload slots no chunk has written yet.
    pub closed spec fn spec_fill(&self) -> PayloadT {
        self.fill
    }

    /// The buffer is as long as the stream, filled no further than its end,
    /// and seeded with the fill element beyond what was gathered.
    pub closed spec fn wf(&self) -> bool {
        self.currently_receiving_stream ==> self.buf@.len() == self.message_length
            && self.chunk_offset <= self.message_length && (forall|j: int|
            self.chunk_offset <= j < self.buf@.len() ==> self.buf@[j] == self.fill)
    }

    /// Whether a stream is currently being assembled.
    pub fn is_assembling(&self) -> (r: bool)
        ensures
            r == self.in_progress(),
    {
        self.currently_receiving_stream
    }

    /// The offset the next chunk must start at.
    pub fn next_offset_now(&self) -> (r: usize)
        ensures
            r == self.next_offset(),
    {
        self.chunk_offset
    }

    /// A fresh assembler: idle, with nothing gathered. `fill` seeds the
    /// payload slots that no chunk has written yet.
    pub fn new(fill: PayloadT) -> (r: StreamAssembler<PayloadT>)
        ensures
            r.wf(),
            !r.in_progress(),
            r.spec_fill() == fill,
    {
        StreamAssembler {
            buf: Vec::new(),
            currently_receiving_stream: false,
            message_length: 0,
            chunk_offset: 0,
            fill,
        }
    }

    /// Feed one chunk into the assembler.
    ///
    /// A chunk that does not belong (a mid-stream offset while idle; a wrong
    /// offset or a changed total length while assembling) is out of sync:
    /// nothing is gathered and the assembler resets to idle. A chunk that
    /// belongs extends the gathered payload by as much of its data as the
    /// total length still admits; the chunk that reaches the total length
    /// yields the whole payload and leaves the assembler idle.
    pub fn recv_stream_chunk(
        &mut self,
        message_length: usize,
        chunk_offset: usize,
        chunk_data: &[PayloadT],
    ) -> (r: Option<Vec<PayloadT>>)
        requires
            old(self).wf(),
        ensures
            final(self).wf(),
            final(self).spec_fill() == old(self).spec_fill(),
            ({
                let started = old(self).in_progress();
                let out_of_sync = (!started && chunk_offset != 0) || (started && (chunk_offset
                    != old(self).next_offset() || message_length != old(self).total_len()));
                let total = if started {
                    old(self).total_len() as int
                } else {
                    message_length as int
                };
                let off = if started {
                    old(self).next_offset() as int
                } else {
                    0int
                };
                let k = if chunk_data@.len() <= total - off {
                    chunk_data@.len() as int
                } else {
                    total - off
                };
                let base = if started {
                    old(self).assembled()
                } else {
                    Seq::<PayloadT>::empty()
                };
                if out_of_sync {
                    r is None && !final(self).in_progress()
                } else if off + k >= total {
                    &&& r is Some
                    &&& r.unwrap()@.len() == total
                    &&& r.unwrap()@ == base + chunk_data@.take(k)
                    &&& !final(self).in_progress()
                } else {
                    &&& r is None
                    &&& final(self).in_progress()
                    &&& final(self).total_len() == total
                    &&& final(self).next_offset() == off + k
                    &&& final(self).assembled() == base + chunk_data@.take(k)
                }
            }),
    {
        if !self.currently_receiving_stream && chunk_offset != 0 {
            // Not receiving, and the chunk is not the start of a stream.
            return None;
        }
        if self.currently_receiving_stream && (chunk_offset != self.chunk_offset
            || message_length != self.message_length) {
            // Receiving, but the chunk is not the expected one, or a whole
            // stream was skipped: reset.
            self.currently_receiving_stream = false;
            return None;
        }
        if !self.currently_receiving_stream {
            self.currently_receiving_stream = true;
            self.message_length = message_length;
            self.chunk_offset = 0;
            let mut fresh: Vec<PayloadT> = Vec::new();
            while fresh.len() < message_length
                invariant
                    fresh@.len() <= message_length,
                    forall|j: int| 0 <= j < fresh@.len() ==> fresh@[j] == self.fill,
                decreases message_length - fresh@.len(),
            {
                fresh.push(self.fill);
            }
            self.buf = fresh;
        }
        let ghost off = self.chunk_offset as int;
        let ghost base = self.buf@.take(off);
        let ghost total_g: int = if old(self).in_progress() {
            old(self).total_len() as int
        } else {
            message_length as int
        };
        let remaining = self.message_length - self.chunk_offset;
        let read_length = if chunk_data.len() <= remaining {
            chunk_data.len()
        } else {
            remaining
        };
        proof {
            assert(total_g == self.message_length as int);
            assert(off == if old(self).in_progress() {
                old(self).next_offset() as int
            } else {
                0int
            });
            assert(read_length as int == if chunk_data@.len() <= total_g - off {
                chunk_data@.len() as int
            } else {
                total_g - off
            });
        }
        let mut j: usize = 0;
        while j < read_length
            invariant
                j <= read_length,
                read_length <= chunk_data@.len(),
                off == self.chunk_offset,
                off + read_length <= self.buf@.len(),
                self.buf@.len() == self.message_length,
                self.message_length as int == total_g,
                base == self.buf@.take(off),
                forall|p: int| off <= p < off + j ==> self.buf@[p] == chunk_data@[p - off],
                forall|p: int| off + j <= p < self.buf@.len() ==> self.buf@[p] == self.fill,
                self.currently_receiving_stream,
                self.fill == old(self).spec_fill(),
            decreases read_length - j,
        {
            let ghost prev = self.buf@;
            self.buf.set(self.chunk_offset + j, *vstd::slice::slice_index_get(chunk_data, j));
            proof {
                assert(self.buf@.take(off) =~= prev.take(off));
            }
            j += 1;
        }
        proof {
            assert(self.buf@.take(off + read_length as int) =~= base + chunk_data@.take(
                read_length as int,
            ));
            if !old(self).in_progress() {
                assert(base =~= Seq::<PayloadT>::empty());
            }
        }
        self.chunk_offset = self.chunk_offset + read_length;
        if self.chunk_offset >= self.message_length {
            // Stream complete.
            self.currently_receiving_stream = false;
            let mut out: Vec<PayloadT> = Vec::new();
            core::mem::swap(&mut out, &mut self.buf);
            proof {
                assert(out@ =~= out@.take(off + read_length as int));
            }
            return Some(out);
        }
        None
    }
}

/// The views of a vector of chunk vectors.
pub open spec fn chunk_views<PayloadT>(chunks: Seq<Vec<PayloadT>>) -> Seq<Seq<PayloadT>> {
    chunks.map_values(|c: Vec<PayloadT>| c@)
}

/// High-level streaming law: feeding an idle assembler a run of consecutive
/// chunks that together form one payload yields exactly that payload on the
/// last chunk, and leaves the assembler idle again.
///
/// The chunks are given as byte runs; their concatenation is the payload,
/// every prefix but the whole falls short of the total length, and each
/// chunk is fed at the offset where the previous chunks ended.
pub fn feed_whole_stream<PayloadT: Copy>(
    assembler: &mut StreamAssembler<PayloadT>,
    chunks: &Vec<Vec<PayloadT>>,
    message_length: usize,
) -> (r: Option<Vec<PayloadT>>)
    requires
        old(assembler).wf(),
        !old(assembler).in_progress(),
        chunks@.len() > 0,
        chunk_views(chunks@).flatten().len() == message_length,
        forall|i: int|
            0 <= i < chunks@.len() - 1 ==> #[trigger] chunk_views(chunks@).take(
                i + 1,
            ).flatten().len() < message_length,
    ensures
        final(assembler).wf(),
        !final(assembler).in_progress(),
        r is Some,
        r.unwrap()@ == chunk_views(chunks@).flatten(),
{
    let ghost cs = chunk_views(chunks@);
    let n = chunks.len();
    let mut offset: usize = 0;
    let mut i: usize = 0;
    proof {
        assert(cs.take(0int) =~= Seq::<Seq<PayloadT>>::empty());
        assert(Seq::<Seq<PayloadT>>::empty().flatten() =~= Seq::<PayloadT>::empty());
    }
    while i < n
        invariant
            old(assembler).wf(),
            !old(assembler).in_progress(),
            i <= n,
            n == chunks@.len(),
            cs == chunk_views(chunks@),
            cs.flatten().len() == message_length,
            forall|q: int|
                0 <= q < cs.len() - 1 ==> #[trigger] cs.take(q + 1).flatten().len()
                    < message_length,
            offset == cs.take(i as int).flatten().len(),
            assembler.wf(),
            i > 0 ==> assembler.in_progress() && assembler.total_len() == message_length
                && assembler.next_offset() == offset && assembler.assembled() == cs.take(
                i as int,
            ).flatten(),
            i == 0 ==> *assembler == *old(assembler),
            i == n ==> false,
        decreases n - i,
    {
        let chunk = &chunks[i];
        proof {
            if i == 0 {
                assert(cs.take(0int) =~= Seq::<Seq<PayloadT>>::empty());
                assert(Seq::<Seq<PayloadT>>::empty().flatten() =~= Seq::<PayloadT>::empty());
            }
            assert(cs.take(i as int).push(cs[i as int]) =~= cs.take(i as int + 1));
            cs.take(i as int).lemma_flatten_push(cs[i as int]);
            assert(cs[i as int] == chunk@);
            if i as int == cs.len() - 1 {
                assert(cs.take(cs.len() as int) =~= cs);
            }
        }
        let result = assembler.recv_stream_chunk(message_length, offset, chunk.as_slice());
        proof {
            assert(chunk@.take(chunk@.len() as int) =~= chunk@);
        }
        match result {
            Some(payload) => {
                proof {
                    assert(offset + chunk@.len() >= message_length);
                    assert(cs.take(i as int + 1).flatten().len() == offset + chunk@.len());
                    assert(i as int == cs.len() - 1);
                    assert(cs.take(i as int + 1) =~= cs);
                }
                return Some(payload);
            },
            None => {
                proof {
                    assert(offset + chunk@.len() < message_length);
                }
                offset = offset + chunk.len();
                i += 1;
            },
        }
    }
    proof {
        assert(false);
    }
    None
}

/// A wrapper for a callback receiver of chunked messages, which reassembles
/// the chunks into one contiguous payload.
///
/// Each call feeds at most one received chunk into the stream buffer; the
/// caller keeps calling until a whole payload comes back.
pub struct ConvertingHighLevelCallbackReceiver<
    PayloadT: Copy,
    ResultT,
    T: FromByteSlice + LowLevelRead<PayloadT, ResultT>,
> {
    receiver: ConvertingCallbackReceiver<T>,
    assembler: StreamAssembler<PayloadT>,
    phantom: core::marker::PhantomData<ResultT>,
}

impl<
    PayloadT: Copy,
    ResultT,
    T: FromByteSlice + LowLevelRead<PayloadT, ResultT>,
> ConvertingHighLevelCallbackReceiver<PayloadT, ResultT, T> {
    /// Creates a new converting high level callback receiver which wraps the
    /// given callback receiver. `fill` seeds the payload slots that no chunk
    /// has written yet.
    pub fn new(receiver: ConvertingCallbackReceiver<T>, fill: PayloadT) -> (r:
        ConvertingHighLevelCallbackReceiver<PayloadT, ResultT, T>)
        ensures
            r.wf(),
    {
        ConvertingHighLevelCallbackReceiver {
            receiver,
            assembler: StreamAssembler::new(fill),
            phantom: core::marker::PhantomData,
        }
    }

    /// The stream buffer is well formed.
    pub closed spec fn wf(&self) -> bool {
        self.assembler.wf()
    }

    /// Whether a stream is currently being assembled.
    pub closed spec fn assembling(&self) -> bool {
        self.assembler.in_progress()
    }

    /// Feed one already-received chunk into the stream buffer; a whole
    /// payload comes back with the chunk's tail result once the last chunk
    /// is in, and the buffer is idle again.
    fn feed(&mut self, chunk: &T) -> (r: Option<(Vec<PayloadT>, ResultT)>)
        requires
            old(self).wf(),
        ensures
            final(self).wf(),
            (r matches Some(out) ==> !final(self).assembling() && chunk.spec_result_is(out.1)),
    {
        let length = chunk.ll_message_length();
        let offset = chunk.ll_message_chunk_offset();
        let data = chunk.ll_message_chunk_data();
        match self.assembler.recv_stream_chunk(length, offset, data) {
            Some(payload) => Some((payload, chunk.get_result())),
            None => None,
        }
    }

    /// Attempts to return a pending value on this receiver without blocking,
    /// feeding at most one chunk into the stream buffer. `Ok(None)` means the
    /// chunk was taken but the stream is not complete yet: call again.
    pub fn try_recv(&mut self) -> (r: Result<
        Option<(Vec<PayloadT>, ResultT)>,
        CallbackTryRecvError,
    >)
        requires
            old(self).wf(),
        ensures
            final(self).wf(),
            (r matches Ok(opt) ==> (opt matches Some(out) ==> !final(self).assembling())),
    {
        match self.receiver.try_recv() {
            Ok(chunk) => Ok(self.feed(&chunk)),
            Err(e) => Err(e),
        }
    }

    /// Waits for one chunk with no deadline and feeds it into the stream
    /// buffer. `Ok(None)` means the chunk was taken but the stream is not
    /// complete yet: call again.
    pub fn recv_forever(&mut self) -> (r: Result<
        Option<(Vec<PayloadT>, ResultT)>,
        CallbackRecvError,
    >)
        requires
            old(self).wf(),
        ensures
            final(self).wf(),
            (r matches Ok(opt) ==> (opt matches Some(out) ==> !final(self).assembling())),
    {
        match self.receiver.recv_forever() {
            Ok(chunk) => Ok(self.feed(&chunk)),
            Err(e) => Err(e),
        }
    }

    /// Waits for one chunk for at most the given timeout and feeds it into
    /// the stream buffer. `Ok(None)` means the chunk was taken but the
    /// stream is not complete yet: call again.
    pub fn recv_timeout(&mut self, timeout: Duration) -> (r: Result<
        Option<(Vec<PayloadT>, ResultT)>,
        CallbackRecvTimeoutError,
    >)
        requires
            old(self).wf(),
        ensures
            final(self).wf(),
            (r matches Ok(opt) ==> (opt matches Some(out) ==> !final(self).assembling())),
    {
        match self.receiver.recv_timeout(timeout) {
            Ok(chunk) => Ok(self.feed(&chunk)),
            Err(e) => Err(e),
        }
    }
}

} // verus!
