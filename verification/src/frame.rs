//! The frame reader's buffer logic: move bytes from the rolling read buffer
//! into the packet buffer and cut whole frames out of the byte stream.
//!
//! The reader thread owns the read half of the TCP stream; what it does with
//! the bytes it has read is here, as functions on the two buffers.

use vstd::prelude::*;

use crate::packet::{spec_header_from_bytes, PacketHeader, PACKET_HEADER_SIZE};

verus! {

/// How long the frame a header announces is: its length byte, but never
/// shorter than the header itself.
pub open spec fn spec_frame_len(h: PacketHeader) -> int {
    if h.length < 8 {
        8
    } else {
        h.length as int
    }
}

/// The whole frames at the front of the byte stream `s`: each is cut at the
/// length its header announces, as long as the stream holds it entirely.
pub open spec fn spec_frames(s: Seq<u8>) -> Seq<(PacketHeader, Seq<u8>)>
    decreases s.len(),
{
    if s.len() < 8 {
        Seq::empty()
    } else {
        let h = spec_header_from_bytes(s);
        let flen = spec_frame_len(h);
        if s.len() >= flen {
            seq![(h, s.subrange(8, flen))] + spec_frames(s.skip(flen))
        } else {
            Seq::empty()
        }
    }
}

/// What remains of the byte stream `s` after the whole frames at its front
/// are cut out: a partial frame, or less than a header.
pub open spec fn spec_leftover(s: Seq<u8>) -> Seq<u8>
    decreases s.len(),
{
    if s.len() < 8 {
        s
    } else {
        let h = spec_header_from_bytes(s);
        let flen = spec_frame_len(h);
        if s.len() >= flen {
            spec_leftover(s.skip(flen))
        } else {
            s
        }
    }
}

/// The packet buffer between calls: empty, or a partial frame that starts
/// with its whole header.
pub open spec fn spec_packet_coherent(p: Seq<u8>) -> bool {
    p.len() == 0 || (p.len() >= 8 && p.len() < spec_frame_len(spec_header_from_bytes(p)))
}

/// The views of the cut frames.
pub open spec fn spec_frame_views(fs: Seq<(PacketHeader, Vec<u8>)>) -> Seq<(PacketHeader, Seq<u8>)> {
    fs.map_values(|f: (PacketHeader, Vec<u8>)| (f.0, f.1@))
}

/// Move the first `bytes_to_read` buffered bytes from the front of the read
/// buffer to the end of the packet buffer. The read buffer keeps its size:
/// the bytes that moved out make room at its end, and the level drops by as
/// many.
pub fn read_into_packet_buffer(
    read_buffer: &mut Vec<u8>,
    packet_buffer: &mut Vec<u8>,
    bytes_to_read: usize,
    read_buffer_level: &mut usize,
) -> (nothing: ())
    requires
        bytes_to_read <= *old(read_buffer_level),
        *old(read_buffer_level) <= old(read_buffer)@.len(),
    ensures
        final(packet_buffer)@ == old(packet_buffer)@ + old(read_buffer)@.take(
            bytes_to_read as int,
        ),
        final(read_buffer)@ == old(read_buffer)@.skip(bytes_to_read as int) + Seq::new(
            bytes_to_read as nat,
            |i: int| 0u8,
        ),
        final(read_buffer)@.len() == old(read_buffer)@.len(),
        *final(read_buffer_level) == *old(read_buffer_level) - bytes_to_read,
{
    let n = bytes_to_read;
    let len = read_buffer.len();
    let mut i: usize = 0;
    while i < n
        invariant
            i <= n,
            n <= len,
            len == read_buffer@.len(),
            read_buffer@ == old(read_buffer)@,
            packet_buffer@ =~= old(packet_buffer)@ + old(read_buffer)@.take(i as int),
        decreases n - i,
    {
        packet_buffer.push(read_buffer[i]);
        proof {
            assert(packet_buffer@ =~= old(packet_buffer)@ + old(read_buffer)@.take(i as int + 1));
        }
        i += 1;
    }
    let mut j: usize = 0;
    while j < len - n
        invariant
            j <= len - n,
            n <= len,
            len == read_buffer@.len(),
            forall|p: int| 0 <= p < j ==> read_buffer@[p] == old(read_buffer)@[p + n],
            forall|p: int| j <= p < len ==> read_buffer@[p] == old(read_buffer)@[p],
        decreases len - n - j,
    {
        let v = read_buffer[j + n];
        read_buffer.set(j, v);
        j += 1;
    }
    let mut k: usize = len - n;
    while k < len
        invariant
            len - n <= k <= len,
            n <= len,
            len == read_buffer@.len(),
            forall|p: int| 0 <= p < len - n ==> read_buffer@[p] == old(read_buffer)@[p + n],
            forall|p: int| len - n <= p < k ==> read_buffer@[p] == 0,
        decreases len - k,
    {
        read_buffer.set(k, 0);
        k += 1;
    }
    proof {
        assert(read_buffer@ =~= old(read_buffer)@.skip(bytes_to_read as int) + Seq::new(
            bytes_to_read as nat,
            |i: int| 0u8,
        ));
    }
    *read_buffer_level = *read_buffer_level - n;
}

/// Cut every whole frame out of the buffered bytes.
///
/// The byte stream is what the packet buffer held plus the buffered part of
/// the read buffer; the cut frames are exactly the whole frames at its
/// front, and what remains of the stream stays split between the packet
/// buffer (a partial frame) and the read buffer.
pub fn extract_frames(
    read_buffer: &mut Vec<u8>,
    read_buffer_level: &mut usize,
    packet_buffer: &mut Vec<u8>,
) -> (frames: Vec<(PacketHeader, Vec<u8>)>)
    requires
        *old(read_buffer_level) <= old(read_buffer)@.len(),
        spec_packet_coherent(old(packet_buffer)@),
    ensures
        final(read_buffer)@.len() == old(read_buffer)@.len(),
        *final(read_buffer_level) <= final(read_buffer)@.len(),
        spec_packet_coherent(final(packet_buffer)@),
        spec_frame_views(frames@) == spec_frames(
            old(packet_buffer)@ + old(read_buffer)@.take(*old(read_buffer_level) as int),
        ),
        final(packet_buffer)@ + final(read_buffer)@.take(*final(read_buffer_level) as int)
            == spec_leftover(
            old(packet_buffer)@ + old(read_buffer)@.take(*old(read_buffer_level) as int),
        ),
{
    let ghost s0 = old(packet_buffer)@ + old(read_buffer)@.take(*old(read_buffer_level) as int);
    let mut frames: Vec<(PacketHeader, Vec<u8>)> = Vec::new();
    loop
        invariant
            *read_buffer_level <= read_buffer@.len(),
            read_buffer@.len() == old(read_buffer)@.len(),
            spec_packet_coherent(packet_buffer@),
            spec_frame_views(frames@) + spec_frames(
                packet_buffer@ + read_buffer@.take(*read_buffer_level as int),
            ) == spec_frames(s0),
            spec_leftover(packet_buffer@ + read_buffer@.take(*read_buffer_level as int))
                == spec_leftover(s0),
        ensures
            *read_buffer_level <= read_buffer@.len(),
            read_buffer@.len() == old(read_buffer)@.len(),
            spec_packet_coherent(packet_buffer@),
            spec_frame_views(frames@) == spec_frames(s0),
            packet_buffer@ + read_buffer@.take(*read_buffer_level as int) == spec_leftover(s0),
        decreases *read_buffer_level,
    {
        let ghost cur = packet_buffer@ + read_buffer@.take(*read_buffer_level as int);
        // Don't have a complete header yet.
        if packet_buffer.is_empty() && *read_buffer_level < PACKET_HEADER_SIZE {
            proof {
                assert(cur.len() < 8);
                assert(spec_frames(cur) =~~= Seq::<(PacketHeader, Seq<u8>)>::empty());
                assert(spec_frame_views(frames@) =~~= spec_frame_views(frames@) + spec_frames(
                    cur,
                ));
            }
            break;
        }
        // Read the header.
        if packet_buffer.is_empty() {
            let ghost pre_packet = packet_buffer@;
            let ghost pre_read = read_buffer@;
            let ghost pre_level = *read_buffer_level as int;
            read_into_packet_buffer(read_buffer, packet_buffer, PACKET_HEADER_SIZE,
                read_buffer_level);
            proof {
                lemma_move_preserves_stream(pre_packet, pre_read, packet_buffer@, read_buffer@,
                    pre_level, 8);
            }
        }
        proof {
            assert(packet_buffer@ + read_buffer@.take(*read_buffer_level as int) == cur);
            assert(packet_buffer@.len() >= 8);
            assert(packet_buffer@ =~= cur.take(packet_buffer@.len() as int));
            lemma_header_of_prefix(packet_buffer@, cur);
        }
        let header = PacketHeader::from_le_bytes(packet_buffer.as_slice());
        let frame_len = if header.length < 8 {
            8usize
        } else {
            header.length as usize
        };
        // Read the payload, as far as the buffered bytes go.
        if packet_buffer.len() < frame_len && *read_buffer_level > 0 {
            let pending = frame_len - packet_buffer.len();
            let to_read = if pending <= *read_buffer_level {
                pending
            } else {
                *read_buffer_level
            };
            let ghost pre_packet = packet_buffer@;
            let ghost pre_read = read_buffer@;
            let ghost pre_level = *read_buffer_level as int;
            read_into_packet_buffer(read_buffer, packet_buffer, to_read, read_buffer_level);
            proof {
                lemma_move_preserves_stream(pre_packet, pre_read, packet_buffer@, read_buffer@,
                    pre_level, to_read as int);
            }
        }
        proof {
            assert(packet_buffer@ + read_buffer@.take(*read_buffer_level as int) == cur);
        }
        // The packet is complete: emit it.
        if packet_buffer.len() == frame_len {
            let mut payload: Vec<u8> = Vec::new();
            let mut p: usize = PACKET_HEADER_SIZE;
            while p < frame_len
                invariant
                    8 <= p <= frame_len,
                    frame_len == packet_buffer@.len(),
                    payload@ =~= packet_buffer@.subrange(8, p as int),
                decreases frame_len - p,
            {
                payload.push(packet_buffer[p]);
                proof {
                    assert(payload@ =~= packet_buffer@.subrange(8, p as int + 1));
                }
                p += 1;
            }
            proof {
                assert(cur.len() >= spec_frame_len(header));
                assert(packet_buffer@ =~= cur.take(frame_len as int));
                assert(payload@ =~= cur.subrange(8, spec_frame_len(header)));
                assert(read_buffer@.take(*read_buffer_level as int) =~= cur.skip(
                    frame_len as int,
                ));
            }
            let ghost pre_frames = frames@;
            frames.push((header, payload));
            packet_buffer.clear();
            proof {
                assert(spec_frame_views(frames@) =~~= spec_frame_views(pre_frames) + seq![
                    (header, cur.subrange(8, spec_frame_len(header))),
                ]);
                assert(packet_buffer@ + read_buffer@.take(*read_buffer_level as int) =~= cur.skip(
                    spec_frame_len(header),
                ));
                assert(spec_frame_views(frames@) + spec_frames(cur.skip(spec_frame_len(header)))
                    =~~= spec_frame_views(pre_frames) + spec_frames(cur));
            }
        } else {
            // Not enough bytes for the rest of the frame: the partial frame
            // waits in the packet buffer.
            proof {
                assert(packet_buffer@.len() < frame_len);
                assert(*read_buffer_level == 0);
                assert(read_buffer@.take(*read_buffer_level as int) =~= Seq::<u8>::empty());
                assert(cur =~= packet_buffer@);
                assert(spec_frames(cur) =~~= Seq::<(PacketHeader, Seq<u8>)>::empty());
                assert(spec_frame_views(frames@) =~~= spec_frame_views(frames@) + spec_frames(
                    cur,
                ));
            }
            break;
        }
    }
    frames
}

/// Moving bytes from the read buffer to the packet buffer leaves the byte
/// stream they hold together unchanged.
proof fn lemma_move_preserves_stream(
    packet0: Seq<u8>,
    read0: Seq<u8>,
    packet: Seq<u8>,
    read: Seq<u8>,
    old_level: int,
    moved: int,
)
    requires
        0 <= moved <= old_level,
        old_level <= read0.len(),
        packet == packet0 + read0.take(moved),
        read == read0.skip(moved) + Seq::new(moved as nat, |i: int| 0u8),
    ensures
        packet + read.take(old_level - moved) == packet0 + read0.take(old_level),
{
    assert(packet + read.take(old_level - moved) =~= packet0 + read0.take(old_level));
}

/// The header of a partial frame is the header of the stream it fronts.
proof fn lemma_header_of_prefix(p: Seq<u8>, s: Seq<u8>)
    requires
        p.len() >= 8,
        s.len() >= p.len(),
        p == s.take(p.len() as int),
    ensures
        spec_header_from_bytes(p) == spec_header_from_bytes(s),
{
    assert(p.subrange(0, 4) =~= s.subrange(0, 4));
    assert(p[4] == s[4] && p[5] == s[5] && p[6] == s[6] && p[7] == s[7]);
}

} // verus!
