//! Traits that the generated low-level getters and setters of streamed
//! device functions implement; the high-level layer reads chunk metadata
//! through them.
//!
//! The spec methods give each implementing type a mathematical view of its
//! chunk fields; the defaults say nothing, so a type declared outside the
//! library compiles without ghost code, and only the exec methods of types
//! verified against these contracts are held to them.

use vstd::prelude::*;

verus! {

/// One received chunk of a streamed (chunked) message.
pub trait LowLevelRead<DataT, ResultT>: Sized {
    /// The total length of the streamed message, as this reply states it.
    open spec fn spec_message_length(&self) -> usize {
        0
    }

    /// Where this chunk's data starts, as this reply states it.
    open spec fn spec_chunk_offset(&self) -> usize {
        0
    }

    /// This chunk's payload elements, as this reply carries them.
    open spec fn spec_chunk_data(&self) -> Seq<DataT> {
        Seq::empty()
    }

    /// Whether `r` is the tail result this reply carries.
    open spec fn spec_result_is(&self, r: ResultT) -> bool {
        true
    }

    /// The total length of the streamed message, in payload elements.
    fn ll_message_length(&self) -> (r: usize)
        ensures
            r == self.spec_message_length(),
    ;

    /// Where this chunk's data starts within the streamed message.
    fn ll_message_chunk_offset(&self) -> (r: usize)
        ensures
            r == self.spec_chunk_offset(),
    ;

    /// This chunk's payload elements.
    fn ll_message_chunk_data(&self) -> (r: &[DataT])
        ensures
            r@ == self.spec_chunk_data(),
    ;

    /// The fields of the reply that do not change between the chunks of one
    /// stream.
    fn get_result(&self) -> (r: ResultT)
        ensures
            self.spec_result_is(r),
    ;
}

/// One reply to a written chunk of a streamed (chunked) message.
pub trait LowLevelWrite<ResultT>: Sized {
    /// How many payload elements the device accepted, as this reply states
    /// it.
    open spec fn spec_written(&self) -> usize {
        0
    }

    /// Whether `r` is the tail result this reply carries.
    open spec fn spec_result_is(&self, r: ResultT) -> bool {
        true
    }

    /// How many payload elements the device accepted.
    fn ll_message_written(&self) -> (r: usize)
        ensures
            r == self.spec_written(),
    ;

    /// The fields of the reply that do not change between the chunks of one
    /// stream.
    fn get_result(&self) -> (r: ResultT)
        ensures
            self.spec_result_is(r),
    ;
}

} // verus!
