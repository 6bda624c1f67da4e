//! The packets that client and daemon exchange: each is a little-endian `u32`
//! opcode followed by a body whose layout the opcode selects.
use crate::buffer::{
    buf_copy_to_bytes, buf_remaining, bytes_mut_seq, bytes_seq, le_u32, lemma_le_u32_roundtrip,
    u32_le_bytes,
};
use crate::encode::{
    spec_decode_bool, spec_decode_u32, spec_decode_version, version_encoding, Decode, Encode,
};
use crate::error::DecodeError;
use crate::version::ProtocolVersion;
use bytes::{Bytes, BytesMut};
use vstd::prelude::*;

verus! {

/// A kind of packet: an opcode for each variant, and a body layout for each opcode.
pub trait PacketBodyCodec: Sized {
    /// Decoding the body of a packet with `opcode` from `input`: the packet,
    /// and what is left unread.
    spec fn spec_decode_body(input: Seq<u8>, opcode: u32) -> (Result<Self, DecodeError>, Seq<u8>);

    /// The opcode of the packet.
    spec fn spec_opcode(&self) -> u32;

    /// The bytes of the packet's body.
    spec fn body_encoding(&self) -> Seq<u8>;

    /// Reads the body of a packet with `opcode` from the front of `buf`.
    fn decode_body(buf: &mut Bytes, opcode: u32) -> (res: Result<Self, DecodeError>)
        ensures
            (res, bytes_seq(*final(buf))) == Self::spec_decode_body(bytes_seq(*old(buf)), opcode),
    ;

    /// Appends the body of the packet to `buf`.
    fn encode_body(&self, buf: &mut BytesMut)
        requires
            bytes_mut_seq(*old(buf)).len() + self.body_encoding().len() <= isize::MAX,
        ensures
            bytes_mut_seq(*final(buf)) == bytes_mut_seq(*old(buf)) + self.body_encoding(),
    ;

    /// The opcode of the packet.
    fn opcode(&self) -> (op: u32)
        ensures
            op == self.spec_opcode(),
    ;

    /// The body decoder, given the packet's opcode, reads back the body that
    /// the encoder wrote and leaves what follows it unread.
    proof fn lemma_body_roundtrip(&self, rest: Seq<u8>)
        ensures
            Self::spec_decode_body(self.body_encoding() + rest, self.spec_opcode()) == (
            Ok::<Self, DecodeError>(*self), rest),
    ;
}

/// Decoding a packet: the opcode, then the body from everything that is left.
/// All of the input is consumed once the opcode is read, also when the body fails.
pub open spec fn spec_decode_packet<P: PacketBodyCodec>(input: Seq<u8>) -> (Result<P, DecodeError>, Seq<u8>) {
    if input.len() < 4 {
        (Err(DecodeError::MalformedLength), input)
    } else {
        (P::spec_decode_body(input.skip(4), le_u32(input)).0, Seq::empty())
    }
}

/// The bytes of a packet: its opcode, then its body.
pub open spec fn packet_encoding<P: PacketBodyCodec>(p: P) -> Seq<u8> {
    u32_le_bytes(p.spec_opcode()) + p.body_encoding()
}

impl<D: PacketBodyCodec> Decode for D {
    type Error = DecodeError;

    open spec fn decodes(input: Seq<u8>, res: Result<D, DecodeError>, rest: Seq<u8>) -> bool {
        (res, rest) == spec_decode_packet::<D>(input)
    }

    fn decode(data: &mut Bytes) -> (res: Result<D, DecodeError>) {
        let ghost input = bytes_seq(*data);
        let opcode = u32::decode(data)?;
        let remaining = buf_remaining(data);
        let mut bytes = buf_copy_to_bytes(data, remaining);
        proof {
            assert(bytes_seq(*data) =~= Seq::<u8>::empty());
            assert(bytes_seq(bytes) =~= input.skip(4));
        }

        let packet = D::decode_body(&mut bytes, opcode)?;

        Ok(packet)
    }
}

impl<D: PacketBodyCodec> Encode for D {
    open spec fn encoding(&self) -> Seq<u8> {
        packet_encoding(*self)
    }

    fn encode(&self, buf: &mut BytesMut) {
        self.opcode().encode(buf);
        self.encode_body(buf);
        proof {
            assert(bytes_mut_seq(*buf) =~= bytes_mut_seq(*old(buf)) + packet_encoding(*self));
        }
    }
}

/// A packet that the client sends to the daemon.
#[derive(Debug, PartialEq, Eq, Structural)]
pub enum ClientPacket {
    // The handshake packet: its layout stays the same across protocol versions.
    Ping(ProtocolVersion),
    ReqVault,
    Disconnect,
}

impl PacketBodyCodec for ClientPacket {
    open spec fn spec_decode_body(input: Seq<u8>, opcode: u32) -> (Result<ClientPacket, DecodeError>, Seq<u8>) {
        if opcode == 0 {
            let (v, rest) = spec_decode_version(input);
            match v {
                Ok(version) => (Ok(ClientPacket::Ping(version)), rest),
                Err(e) => (Err(e), rest),
            }
        } else if opcode == 1 {
            (Ok(ClientPacket::ReqVault), input)
        } else if opcode == 2 {
            (Ok(ClientPacket::Disconnect), input)
        } else {
            (Err(DecodeError::UnrecognizedOpcode), input)
        }
    }

    open spec fn spec_opcode(&self) -> u32 {
        match self {
            ClientPacket::Ping(_) => 0,
            ClientPacket::ReqVault => 1,
            ClientPacket::Disconnect => 2,
        }
    }

    open spec fn body_encoding(&self) -> Seq<u8> {
        match self {
            ClientPacket::Ping(v) => version_encoding(*v),
            _ => Seq::empty(),
        }
    }

    fn decode_body(buf: &mut Bytes, opcode: u32) -> (res: Result<ClientPacket, DecodeError>) {
        match opcode {
            0 => { Ok(Self::Ping(ProtocolVersion::decode(buf)?)) },
            1 => { Ok(Self::ReqVault) },
            2 => { Ok(Self::Disconnect) },
            _ => Err(DecodeError::UnrecognizedOpcode),
        }
    }

    fn encode_body(&self, buf: &mut BytesMut) {
        match self {
            Self::Ping(p) => p.encode(buf),
            Self::Disconnect | Self::ReqVault => {
                assert(bytes_mut_seq(*buf) =~= bytes_mut_seq(*old(buf)) + self.body_encoding());
            },
        }
    }

    fn opcode(&self) -> (op: u32) {
        match self {
            ClientPacket::Ping(_) => 0,
            ClientPacket::ReqVault => 1,
            ClientPacket::Disconnect => 2,
        }
    }

    proof fn lemma_body_roundtrip(&self, rest: Seq<u8>) {
        match self {
            ClientPacket::Ping(v) => lemma_version_roundtrip(*v, rest),
            _ => {
                assert(self.body_encoding() + rest =~= rest);
            },
        }
    }
}

/// A packet that the daemon sends to the client.
#[derive(Debug, PartialEq, Eq, Structural)]
pub enum ServerPacket {
    // The handshake reply: its layout stays the same across protocol versions.
    Pong { incompatible: bool, version: ProtocolVersion },
    DropConnection,
}

impl PacketBodyCodec for ServerPacket {
    open spec fn spec_decode_body(input: Seq<u8>, opcode: u32) -> (Result<ServerPacket, DecodeError>, Seq<u8>) {
        if opcode == 0 {
            let (b, rest1) = spec_decode_bool(input);
            match b {
                Err(e) => (Err(e), rest1),
                Ok(incompatible) => {
                    let (v, rest2) = spec_decode_version(rest1);
                    match v {
                        Ok(version) => (Ok(ServerPacket::Pong { incompatible, version }), rest2),
                        Err(e) => (Err(e), rest2),
                    }
                },
            }
        } else if opcode == 1 {
            (Ok(ServerPacket::DropConnection), input)
        } else {
            (Err(DecodeError::UnrecognizedOpcode), input)
        }
    }

    open spec fn spec_opcode(&self) -> u32 {
        match self {
            ServerPacket::Pong { .. } => 0,
            ServerPacket::DropConnection => 1,
        }
    }

    open spec fn body_encoding(&self) -> Seq<u8> {
        match self {
            ServerPacket::Pong { incompatible, version } => seq![
                if *incompatible {
                    1u8
                } else {
                    0u8
                },
            ] + version_encoding(*version),
            ServerPacket::DropConnection => Seq::empty(),
        }
    }

    fn decode_body(buf: &mut Bytes, opcode: u32) -> (res: Result<ServerPacket, DecodeError>) {
        match opcode {
            0 => {
                let incompatible = bool::decode(buf)?;
                let version = ProtocolVersion::decode(buf)?;

                Ok(Self::Pong { incompatible, version })
            },
            1 => Ok(Self::DropConnection),
            _ => Err(DecodeError::UnrecognizedOpcode),
        }
    }

    fn encode_body(&self, buf: &mut BytesMut) {
        match self {
            ServerPacket::Pong { incompatible: outdated, version } => {
                outdated.encode(buf);
                version.encode(buf);
                assert(bytes_mut_seq(*buf) =~= bytes_mut_seq(*old(buf)) + self.body_encoding());
            },
            ServerPacket::DropConnection => {
                assert(bytes_mut_seq(*buf) =~= bytes_mut_seq(*old(buf)) + self.body_encoding());
            },
        }
    }

    fn opcode(&self) -> (op: u32) {
        match self {
            ServerPacket::Pong { .. } => 0,
            ServerPacket::DropConnection => 1,
        }
    }

    proof fn lemma_body_roundtrip(&self, rest: Seq<u8>) {
        match self {
            ServerPacket::Pong { incompatible, version } => {
                let b: u8 = if *incompatible { 1 } else { 0 };
                let tail = version_encoding(*version) + rest;
                assert(self.body_encoding() + rest =~= seq![b] + tail);
                assert((seq![b] + tail).skip(1) =~= tail);
                lemma_version_roundtrip(*version, rest);
            },
            ServerPacket::DropConnection => {
                assert(self.body_encoding() + rest =~= rest);
            },
        }
    }
}

/// Decoding the encoding of a version gives the version back, and leaves what
/// follows the encoding unread.
pub proof fn lemma_version_roundtrip(v: ProtocolVersion, rest: Seq<u8>)
    ensures
        spec_decode_version(version_encoding(v) + rest) == (Ok::<ProtocolVersion, DecodeError>(v), rest),
{
    let s = version_encoding(v) + rest;
    let r2 = u32_le_bytes(v.patch) + rest;
    let r1 = u32_le_bytes(v.minor) + r2;
    assert(s =~= u32_le_bytes(v.major) + r1);
    lemma_le_u32_roundtrip(v.major, r1);
    lemma_le_u32_roundtrip(v.minor, r2);
    lemma_le_u32_roundtrip(v.patch, rest);
    assert(s.skip(4) =~= r1);
    assert(s.skip(8) =~= r2);
    assert(s.skip(12) =~= rest);
}

/// Decoding the encoding of a packet gives the packet back. The decoder takes
/// the whole input, so nothing is left unread.
pub proof fn lemma_packet_roundtrip<P: PacketBodyCodec>(p: P)
    ensures
        spec_decode_packet::<P>(packet_encoding(p)) == (Ok::<P, DecodeError>(p), Seq::<u8>::empty()),
{
    let body = p.body_encoding();
    lemma_le_u32_roundtrip(p.spec_opcode(), body);
    p.lemma_body_roundtrip(Seq::empty());
    assert(body + Seq::<u8>::empty() =~= body);
}

} // verus!
