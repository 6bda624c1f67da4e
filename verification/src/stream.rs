//! Framing packets on a stream: each packet travels as a little-endian `u32`
//! length followed by that many bytes of encoded packet. The reading and
//! writing of the stream itself is the caller's; this module builds the frames
//! that go out and decodes the bodies that come in.
use crate::buffer::{
    bytes_mut_clear, bytes_mut_extend_from_slice, bytes_mut_freeze, bytes_mut_len, bytes_mut_new,
    bytes_mut_overwrite_head, bytes_mut_seq, bytes_mut_split, bytes_seq, le_u32,
    lemma_le_u32_roundtrip, put_u32_le, u32_le_bytes,
};
use crate::encode::{Decode, Encode};
use crate::error::DecodeError;
use crate::packet::{lemma_packet_roundtrip, packet_encoding, spec_decode_packet, PacketBodyCodec};
use bytes::{Bytes, BytesMut};
use vstd::prelude::*;

verus! {

/// A stream together with the buffer in which its frames are assembled.
pub struct StreamConnection<S> {
    pub stream: S,
    reuse_buf: BytesMut,
}

/// The frame that goes out when `body` is encoded behind what the buffer
/// already held (`pending`, normally nothing): four placeholder bytes are
/// appended, then the body, and the first four bytes of the buffer are then
/// overwritten with the buffer's length less four, cut to 32 bits.
pub open spec fn frame_bytes(pending: Seq<u8>, body: Seq<u8>) -> Seq<u8> {
    let raw = pending + u32_le_bytes(0) + body;
    u32_le_bytes((raw.len() - 4) as u32) + raw.skip(4)
}

/// The four little-endian bytes of `v`, as `u32::to_le_bytes` gives them.
pub fn u32_to_le_bytes(v: u32) -> (b: [u8; 4])
    ensures
        b@ == u32_le_bytes(v),
{
    let b = [
        (v % 256) as u8,
        ((v / 256) % 256) as u8,
        ((v / 65536) % 256) as u8,
        ((v / 16777216) % 256) as u8,
    ];
    assert(b@ =~= u32_le_bytes(v));
    b
}

/// The length that a frame header announces, as `u32::from_le_bytes` reads it.
pub fn frame_length(header: [u8; 4]) -> (len: u32)
    ensures
        len == le_u32(header@),
{
    header[0] as u32 + 256 * header[1] as u32 + 65536 * header[2] as u32 + 16777216
        * header[3] as u32
}

impl<S> StreamConnection<S> {
    /// The bytes that the assembly buffer holds.
    pub closed spec fn pending(&self) -> Seq<u8> {
        bytes_mut_seq(self.reuse_buf)
    }

    /// The stream that the connection carries.
    pub closed spec fn spec_stream(&self) -> S {
        self.stream
    }

    /// A connection over `stream`, with an empty assembly buffer.
    pub fn new(stream: S) -> (conn: Self)
        ensures
            conn.spec_stream() == stream,
            conn.pending() == Seq::<u8>::empty(),
    {
        Self { stream, reuse_buf: bytes_mut_new() }
    }

    /// The number of bytes that the assembly buffer holds.
    pub fn buffered_len(&self) -> (n: usize)
        ensures
            n == self.pending().len(),
    {
        bytes_mut_len(&self.reuse_buf)
    }

    /// Assembles the frame of `packet` in the connection's buffer and takes it
    /// out, leaving the buffer empty. The caller writes the frame to the stream.
    pub fn frame_packet<P: PacketBodyCodec>(&mut self, packet: &P) -> (frame: Bytes)
        requires
            old(self).pending().len() + 4 + packet_encoding(*packet).len() <= isize::MAX,
        ensures
            bytes_seq(frame) == frame_bytes(old(self).pending(), packet_encoding(*packet)),
            final(self).pending() == Seq::<u8>::empty(),
            final(self).spec_stream() == old(self).spec_stream(),
    {
        let bytes = &mut self.reuse_buf;
        put_u32_le(bytes, 0u32);
        packet.encode(bytes);

        let packet_len = (bytes_mut_len(bytes) - 4) as u32;
        bytes_mut_overwrite_head(bytes, u32_to_le_bytes(packet_len));

        bytes_mut_freeze(bytes_mut_split(bytes))
    }

    /// Decodes a packet from the frame body `body` that the caller read from
    /// the stream, passing it through the connection's buffer, which is left empty.
    pub fn receive_packet<P: PacketBodyCodec>(&mut self, body: &[u8]) -> (res: Result<P, DecodeError>)
        requires
            body@.len() <= isize::MAX,
        ensures
            res == spec_decode_packet::<P>(body@).0,
            final(self).pending() == Seq::<u8>::empty(),
            final(self).spec_stream() == old(self).spec_stream(),
    {
        bytes_mut_clear(&mut self.reuse_buf);
        bytes_mut_extend_from_slice(&mut self.reuse_buf, body);
        proof {
            assert(bytes_mut_seq(self.reuse_buf) =~= body@);
        }

        let mut frozen = bytes_mut_freeze(bytes_mut_split(&mut self.reuse_buf));
        P::decode(&mut frozen)
    }
}

/// On a connection whose buffer holds nothing, the frame of a packet whose
/// encoding is shorter than 2^32 bytes announces the length of the rest of the
/// frame, and that rest decodes to the packet.
pub proof fn lemma_frame_roundtrip<P: PacketBodyCodec>(p: P)
    requires
        packet_encoding(p).len() < 0x1_0000_0000,
    ensures
        ({
            let f = frame_bytes(Seq::empty(), packet_encoding(p));
            &&& f.len() == packet_encoding(p).len() + 4
            &&& le_u32(f) == f.len() - 4
            &&& f.skip(4) == packet_encoding(p)
            &&& spec_decode_packet::<P>(f.skip(4)) == (Ok::<P, DecodeError>(p), Seq::<u8>::empty())
        }),
{
    let enc = packet_encoding(p);
    let raw = Seq::<u8>::empty() + u32_le_bytes(0) + enc;
    assert(raw.skip(4) =~= enc);
    lemma_le_u32_roundtrip(enc.len() as u32, enc);
    lemma_packet_roundtrip(p);
}

} // verus!
