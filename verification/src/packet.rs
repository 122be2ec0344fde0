//! The 8-byte little-endian frame header of the wire protocol.

use vstd::prelude::*;

verus! {

/// The number of bytes of an encoded [`PacketHeader`].
pub const PACKET_HEADER_SIZE: usize = 8;

/// The largest total frame length the protocol allows: an 8-byte header and
/// up to 72 payload bytes.
pub const MAX_FRAME_SIZE: usize = 80;

/// The frame header: 4 bytes UID, 1 byte total length, 1 byte function id,
/// then `seq << 4 | response_expected << 3` and `error_code << 6`.
#[derive(Clone, Copy, Debug, PartialEq, Eq, Hash, Structural)]
pub struct PacketHeader {
    pub uid: u32,
    pub length: u8,
    pub function_id: u8,
    pub sequence_number: u8,
    pub response_expected: bool,
    pub error_code: u8,
}

impl PacketHeader {
    /// The fields that the four-bit and two-bit slots of bytes 6 and 7 can
    /// carry.
    pub open spec fn wf(self) -> bool {
        &&& self.sequence_number < 16
        &&& self.error_code < 4
    }

    /// Header of a frame that carries `payload_len` payload bytes after the
    /// 8 header bytes; the error code of a request is zero.
    pub fn with_payload(
        uid: u32,
        function_id: u8,
        sequence_number: u8,
        response_expected: bool,
        payload_len: u8,
    ) -> (r: PacketHeader)
        requires
            payload_len <= MAX_FRAME_SIZE - PACKET_HEADER_SIZE,
        ensures
            r == (PacketHeader {
                uid,
                length: (PACKET_HEADER_SIZE + payload_len) as u8,
                function_id,
                sequence_number,
                response_expected,
                error_code: 0,
            }),
    {
        PacketHeader {
            uid,
            length: 8 + payload_len,
            function_id,
            sequence_number,
            response_expected,
            error_code: 0,
        }
    }

    /// How many bytes an encoded header takes.
    pub fn bytes_expected() -> (r: usize)
        ensures
            r == PACKET_HEADER_SIZE,
    {
        8
    }

    /// Decode a header from the first 8 bytes of `bytes`. Any 8 bytes decode;
    /// validating length and error code is the caller's job.
    pub fn from_le_bytes(bytes: &[u8]) -> (r: PacketHeader)
        requires
            bytes@.len() >= PACKET_HEADER_SIZE,
        ensures
            r == spec_header_from_bytes(bytes@),
            r.wf(),
    {
        let uid = vstd::bytes::u32_from_le_bytes(vstd::slice::slice_subrange(bytes, 0, 4));
        proof {
            assert(bytes@.subrange(0, 4) =~= bytes@.subrange(0, 4));
        }
        let b6 = *vstd::slice::slice_index_get(bytes, 6);
        let b7 = *vstd::slice::slice_index_get(bytes, 7);
        let r = PacketHeader {
            uid,
            length: *vstd::slice::slice_index_get(bytes, 4),
            function_id: *vstd::slice::slice_index_get(bytes, 5),
            sequence_number: (b6 & 0xf0) >> 4,
            response_expected: (b6 & 0x08) != 0,
            error_code: (b7 & 0xc0) >> 6,
        };
        proof {
            assert((b6 & 0xf0) >> 4 < 16 && (b7 & 0xc0) >> 6 < 4) by (bit_vector);
        }
        r
    }

    /// Encode a header into its 8 bytes.
    pub fn to_le_bytes(header: PacketHeader) -> (r: Vec<u8>)
        requires
            header.wf(),
        ensures
            r@ == spec_header_bytes(header),
            r@.len() == PACKET_HEADER_SIZE,
    {
        let mut result = vstd::bytes::u32_to_le_bytes(header.uid);
        result.push(header.length);
        result.push(header.function_id);
        let re_bit: u8 = if header.response_expected {
            1
        } else {
            0
        };
        proof {
            let s = header.sequence_number;
            assert(s < 16 && re_bit < 2 ==> ((s << 4) | (re_bit << 3)) < 256) by (bit_vector);
        }
        result.push((header.sequence_number << 4) | (re_bit << 3));
        result.push(header.error_code << 6);
        proof {
            assert(result@ =~= spec_header_bytes(header));
        }
        result
    }
}

/// Byte 6 of an encoded header: the sequence number in the upper four bits,
/// the response-expected flag in bit 3.
pub open spec fn spec_byte6(sequence_number: u8, response_expected: bool) -> u8 {
    (sequence_number << 4) | ((if response_expected {
        1u8
    } else {
        0u8
    }) << 3)
}

/// The 8 bytes that encode `h`.
pub open spec fn spec_header_bytes(h: PacketHeader) -> Seq<u8> {
    vstd::bytes::spec_u32_to_le_bytes(h.uid) + seq![
        h.length,
        h.function_id,
        spec_byte6(h.sequence_number, h.response_expected),
        (h.error_code << 6) as u8,
    ]
}

/// The header that the first 8 bytes of `b` decode to.
pub open spec fn spec_header_from_bytes(b: Seq<u8>) -> PacketHeader
    recommends
        b.len() >= 8,
{
    PacketHeader {
        uid: vstd::bytes::spec_u32_from_le_bytes(b.subrange(0, 4)),
        length: b[4],
        function_id: b[5],
        sequence_number: (b[6] & 0xf0) >> 4,
        response_expected: (b[6] & 0x08) != 0,
        error_code: (b[7] & 0xc0) >> 6,
    }
}

/// Header round trip: decoding the encoding of any well-formed header gives
/// the header back, whatever its uid, length, function id, sequence number,
/// error code and response-expected flag.
pub proof fn lemma_header_round_trip(h: PacketHeader)
    requires
        h.wf(),
    ensures
        spec_header_from_bytes(spec_header_bytes(h)) == h,
{
    let b = spec_header_bytes(h);
    vstd::bytes::lemma_auto_spec_u32_to_from_le_bytes();
    assert(b.subrange(0, 4) =~= vstd::bytes::spec_u32_to_le_bytes(h.uid));
    let s = h.sequence_number;
    let e = h.error_code;
    let re: u8 = if h.response_expected {
        1
    } else {
        0
    };
    assert(s < 16 && re < 2 ==> ((((s << 4) | (re << 3)) & 0xf0) >> 4) == s) by (bit_vector);
    assert(re < 2 ==> ((((s << 4) | (re << 3)) & 0x08) != 0 <==> re == 1)) by (bit_vector);
    assert(e < 4 ==> (((e << 6) & 0xc0) >> 6) == e) by (bit_vector);
}

} // verus!
