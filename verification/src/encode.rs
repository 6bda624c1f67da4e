//! The encoding of the protocol's field types, and the traits that encoders
//! and decoders share.
use crate::buffer::{
    lemma_le_u32_roundtrip,
    buf_copy_to_bytes, buf_get_u32_le, buf_get_u8, buf_remaining, bytes_as_slice, bytes_mut_seq,
    bytes_seq, le_u32, put_slice, put_u32_le, put_u8, u32_le_bytes,
};
use crate::error::DecodeError;
use crate::version::ProtocolVersion;
use bytes::{Bytes, BytesMut};
use vstd::prelude::*;
use vstd::string::StringSliceAdditionalSpecFns;
use vstd::utf8::{decode_utf8, encode_utf8, encode_utf8_decode_utf8, encode_utf8_valid_utf8, valid_utf8};

verus! {

/// A value that can be written to a buffer.
pub trait Encode {
    /// The bytes that encoding the value appends.
    spec fn encoding(&self) -> Seq<u8>;

    /// Appends the encoding of the value to `buf`.
    fn encode(&self, buf: &mut BytesMut)
        requires
            bytes_mut_seq(*old(buf)).len() + self.encoding().len() <= isize::MAX,
        ensures
            bytes_mut_seq(*final(buf)) == bytes_mut_seq(*old(buf)) + self.encoding(),
    ;
}

/// A value that can be read from a buffer.
pub trait Decode: Sized {
    type Error;

    /// Whether decoding from the bytes `input` gives `res` and leaves `rest` unread.
    spec fn decodes(input: Seq<u8>, res: Result<Self, Self::Error>, rest: Seq<u8>) -> bool;

    /// Reads a value from the front of `data`.
    fn decode(data: &mut Bytes) -> (res: Result<Self, Self::Error>)
        ensures
            Self::decodes(bytes_seq(*old(data)), res, bytes_seq(*final(data))),
    ;
}

/// A decoder over any buffer. It carries no state.
pub struct GenericBufDecoder;

/// The text that `String::from_utf8_lossy` makes of `bytes`.
pub uninterp spec fn utf8_lossy(bytes: Seq<u8>) -> Seq<char>;

/// `String::from_utf8_lossy`, made owned with `Cow::into_owned`: the text of
/// `bytes`, with each invalid sequence replaced by U+FFFD. Stated: the result
/// is the name [`utf8_lossy`] of the bytes, and on valid UTF-8 it is the text
/// that the bytes encode. Not stated: what replaces invalid sequences.
#[verifier::external_body]
fn string_from_utf8_lossy(bytes: &[u8]) -> (s: String)
    ensures
        s@ == utf8_lossy(bytes@),
        valid_utf8(bytes@) ==> s@ == decode_utf8(bytes@),
{
    String::from_utf8_lossy(bytes).into_owned()
}

/// Fails with [`DecodeError::MalformedLength`] when fewer than `bytes` bytes are left in `buf`.
#[inline]
pub fn check_len(buf: &Bytes, bytes: usize) -> (r: Result<(), DecodeError>)
    ensures
        r == (if bytes_seq(*buf).len() < bytes {
            Err::<(), DecodeError>(DecodeError::MalformedLength)
        } else {
            Ok(())
        }),
{
    if buf_remaining(buf) < bytes {
        Err(DecodeError::MalformedLength)
    } else {
        Ok(())
    }
}

// ---------------------------------------------------------------------------
// u32: four bytes, little-endian
// ---------------------------------------------------------------------------

/// Decoding a `u32`: the value, and what is left unread.
pub open spec fn spec_decode_u32(input: Seq<u8>) -> (Result<u32, DecodeError>, Seq<u8>) {
    if input.len() < 4 {
        (Err(DecodeError::MalformedLength), input)
    } else {
        (Ok(le_u32(input)), input.skip(4))
    }
}

impl Decode for u32 {
    type Error = DecodeError;

    open spec fn decodes(input: Seq<u8>, res: Result<u32, DecodeError>, rest: Seq<u8>) -> bool {
        (res, rest) == spec_decode_u32(input)
    }

    fn decode(data: &mut Bytes) -> (res: Result<u32, DecodeError>) {
        check_len(data, 4)?;

        Ok(buf_get_u32_le(data))
    }
}

impl Encode for u32 {
    open spec fn encoding(&self) -> Seq<u8> {
        u32_le_bytes(*self)
    }

    fn encode(&self, buf: &mut BytesMut) {
        put_u32_le(buf, *self);
    }
}

// ---------------------------------------------------------------------------
// bool: one byte, 1 for true
// ---------------------------------------------------------------------------

/// Decoding a `bool`: the byte 1 is true, any other byte false.
pub open spec fn spec_decode_bool(input: Seq<u8>) -> (Result<bool, DecodeError>, Seq<u8>) {
    if input.len() < 1 {
        (Err(DecodeError::MalformedLength), input)
    } else {
        (Ok(input[0] == 1), input.skip(1))
    }
}

impl Decode for bool {
    type Error = DecodeError;

    open spec fn decodes(input: Seq<u8>, res: Result<bool, DecodeError>, rest: Seq<u8>) -> bool {
        (res, rest) == spec_decode_bool(input)
    }

    fn decode(data: &mut Bytes) -> (res: Result<bool, DecodeError>) {
        check_len(data, 1)?;

        Ok(buf_get_u8(data) == 1)
    }
}

impl Encode for bool {
    open spec fn encoding(&self) -> Seq<u8> {
        seq![if *self { 1u8 } else { 0u8 }]
    }

    fn encode(&self, buf: &mut BytesMut) {
        put_u8(buf, if *self { 1u8 } else { 0u8 });
    }
}

// ---------------------------------------------------------------------------
// String: a u32 byte length, then the UTF-8 bytes
// ---------------------------------------------------------------------------

/// Decoding a `String`: a little-endian `u32` length, then that many bytes,
/// read as UTF-8 with invalid sequences replaced.
pub open spec fn string_decodes(input: Seq<u8>, res: Result<String, DecodeError>, rest: Seq<u8>) -> bool {
    if input.len() < 4 {
        res == Err::<String, DecodeError>(DecodeError::MalformedLength) && rest == input
    } else if input.len() - 4 < le_u32(input) {
        res == Err::<String, DecodeError>(DecodeError::MalformedLength) && rest == input.skip(4)
    } else {
        let n = le_u32(input) as int;
        &&& rest == input.skip(4 + n)
        &&& match res {
            Ok(s) => {
                &&& s@ == utf8_lossy(input.subrange(4, 4 + n))
                &&& valid_utf8(input.subrange(4, 4 + n)) ==> s@ == decode_utf8(input.subrange(4, 4 + n))
            },
            Err(_) => false,
        }
    }
}

/// The bytes that encode the text `chars`: the length of its UTF-8 encoding,
/// cut to 32 bits, then the encoding.
pub open spec fn string_encoding(chars: Seq<char>) -> Seq<u8> {
    u32_le_bytes(encode_utf8(chars).len() as u32) + encode_utf8(chars)
}

impl Decode for String {
    type Error = DecodeError;

    open spec fn decodes(input: Seq<u8>, res: Result<String, DecodeError>, rest: Seq<u8>) -> bool {
        string_decodes(input, res, rest)
    }

    fn decode(data: &mut Bytes) -> (res: Result<String, DecodeError>) {
        check_len(data, 4)?;

        let ghost input = bytes_seq(*data);
        let buf_length = buf_get_u32_le(data);
        check_len(data, buf_length as usize)?;

        let bytes = buf_copy_to_bytes(data, buf_length as usize);
        proof {
            let n = buf_length as int;
            assert(input.skip(4).skip(n) =~= input.skip(4 + n));
            assert(input.skip(4).take(n) =~= input.subrange(4, 4 + n));
        }

        Ok(string_from_utf8_lossy(bytes_as_slice(&bytes)))
    }
}

impl Encode for String {
    open spec fn encoding(&self) -> Seq<u8> {
        string_encoding(self@)
    }

    fn encode(&self, buf: &mut BytesMut) {
        let bytes = self.as_str().as_bytes();
        put_u32_le(buf, bytes.len() as u32);
        put_slice(buf, bytes);
    }
}

// ---------------------------------------------------------------------------
// ProtocolVersion: major, minor, patch, each a u32
// ---------------------------------------------------------------------------

/// Decoding a [`ProtocolVersion`]: three `u32`s in turn; when one is missing,
/// the ones before it are consumed.
pub open spec fn spec_decode_version(input: Seq<u8>) -> (Result<ProtocolVersion, DecodeError>, Seq<u8>) {
    if input.len() < 4 {
        (Err(DecodeError::MalformedLength), input)
    } else if input.len() < 8 {
        (Err(DecodeError::MalformedLength), input.skip(4))
    } else if input.len() < 12 {
        (Err(DecodeError::MalformedLength), input.skip(8))
    } else {
        (
            Ok(
                ProtocolVersion {
                    major: le_u32(input),
                    minor: le_u32(input.skip(4)),
                    patch: le_u32(input.skip(8)),
                },
            ),
            input.skip(12),
        )
    }
}

/// The twelve bytes that encode a version.
pub open spec fn version_encoding(v: ProtocolVersion) -> Seq<u8> {
    u32_le_bytes(v.major) + u32_le_bytes(v.minor) + u32_le_bytes(v.patch)
}

impl Decode for ProtocolVersion {
    type Error = DecodeError;

    open spec fn decodes(input: Seq<u8>, res: Result<ProtocolVersion, DecodeError>, rest: Seq<u8>) -> bool {
        (res, rest) == spec_decode_version(input)
    }

    fn decode(data: &mut Bytes) -> (res: Result<ProtocolVersion, DecodeError>) {
        let ghost input = bytes_seq(*data);
        proof {
            if input.len() >= 8 { assert(input.skip(4).skip(4) =~= input.skip(8)); }
            if input.len() >= 12 { assert(input.skip(8).skip(4) =~= input.skip(12)); }
        }
        let major = u32::decode(data)?;
        let minor = u32::decode(data)?;
        let patch = u32::decode(data)?;

        Ok(ProtocolVersion { major, minor, patch })
    }
}

impl Encode for ProtocolVersion {
    open spec fn encoding(&self) -> Seq<u8> {
        version_encoding(*self)
    }

    fn encode(&self, buf: &mut BytesMut) {
        self.major.encode(buf);
        self.minor.encode(buf);
        self.patch.encode(buf);
        proof {
            assert(bytes_mut_seq(*buf) =~= bytes_mut_seq(*old(buf)) + version_encoding(*self));
        }
    }
}

// ---------------------------------------------------------------------------
// Reading back what was written
// ---------------------------------------------------------------------------

/// Decoding the encoding of a `u32` gives it back and leaves what follows unread.
pub proof fn lemma_u32_roundtrip(v: u32, rest: Seq<u8>)
    ensures
        spec_decode_u32(v.encoding() + rest) == (Ok::<u32, DecodeError>(v), rest),
{
    lemma_le_u32_roundtrip(v, rest);
}

/// Decoding the encoding of a `bool` gives it back and leaves what follows unread.
pub proof fn lemma_bool_roundtrip(b: bool, rest: Seq<u8>)
    ensures
        spec_decode_bool(b.encoding() + rest) == (Ok::<bool, DecodeError>(b), rest),
{
    assert((b.encoding() + rest).skip(1) =~= rest);
}

/// Decoding the encoding of a text whose UTF-8 form is shorter than 2^32 bytes
/// gives the same text back and leaves what follows unread.
pub proof fn lemma_string_roundtrip(
    chars: Seq<char>,
    rest: Seq<u8>,
    res: Result<String, DecodeError>,
    left: Seq<u8>,
)
    requires
        encode_utf8(chars).len() < 0x1_0000_0000,
        string_decodes(string_encoding(chars) + rest, res, left),
    ensures
        res is Ok,
        res->Ok_0@ == chars,
        left == rest,
{
    let bytes = encode_utf8(chars);
    let n = bytes.len();
    let input = string_encoding(chars) + rest;
    assert(input =~= u32_le_bytes(n as u32) + (bytes + rest));
    lemma_le_u32_roundtrip(n as u32, bytes + rest);
    assert(input.subrange(4, 4 + n as int) =~= bytes);
    assert(input.skip(4 + n as int) =~= rest);
    encode_utf8_valid_utf8(chars);
    encode_utf8_decode_utf8(chars);
}

} // verus!
