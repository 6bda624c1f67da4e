//! The byte buffers of the wire format: `bytes::Bytes` to read from and
//! `bytes::BytesMut` to write to, with the contents of each named as a
//! sequence of bytes, and the little-endian integer layout used on the wire.
use bytes::{Buf, BufMut, Bytes, BytesMut};
use vstd::prelude::*;

verus! {

#[verifier::external_type_specification]
#[verifier::external_body]
pub struct ExBytes(Bytes);

#[verifier::external_type_specification]
#[verifier::external_body]
pub struct ExBytesMut(BytesMut);

/// The bytes that a `Bytes` handle still has to give, from its read position on.
pub uninterp spec fn bytes_seq(b: Bytes) -> Seq<u8>;

/// The bytes written into a `BytesMut` so far.
pub uninterp spec fn bytes_mut_seq(b: BytesMut) -> Seq<u8>;

/// The unsigned number that four bytes give in little-endian order.
pub open spec fn le_u32(s: Seq<u8>) -> u32
    recommends
        s.len() >= 4,
{
    (s[0] as int + 256 * s[1] as int + 65536 * s[2] as int + 16777216 * s[3] as int) as u32
}

/// The four bytes of `v` in little-endian order.
pub open spec fn u32_le_bytes(v: u32) -> Seq<u8> {
    seq![
        (v % 256) as u8,
        ((v / 256) % 256) as u8,
        ((v / 65536) % 256) as u8,
        ((v / 16777216) % 256) as u8,
    ]
}

/// Reading back the little-endian bytes of a number gives the number, whatever follows them.
pub proof fn lemma_le_u32_roundtrip(v: u32, rest: Seq<u8>)
    ensures
        (u32_le_bytes(v) + rest).len() == rest.len() + 4,
        le_u32(u32_le_bytes(v) + rest) == v,
        (u32_le_bytes(v) + rest).skip(4) == rest,
{
    let s = u32_le_bytes(v) + rest;
    assert(s[0] == (v % 256) as u8);
    assert(s[1] == ((v / 256) % 256) as u8);
    assert(s[2] == ((v / 65536) % 256) as u8);
    assert(s[3] == ((v / 16777216) % 256) as u8);
    assert(s.skip(4) =~= rest);
}

// ---------------------------------------------------------------------------
// Reading from `Bytes`
// ---------------------------------------------------------------------------

/// `<Bytes as Buf>::remaining`: the number of bytes left to read.
#[verifier::external_body]
pub fn buf_remaining(b: &Bytes) -> (n: usize)
    ensures
        n == bytes_seq(*b).len(),
{
    b.remaining()
}

/// `<Bytes as Buf>::get_u8`: takes the next byte; panics when none is left.
#[verifier::external_body]
pub fn buf_get_u8(b: &mut Bytes) -> (v: u8)
    requires
        bytes_seq(*old(b)).len() >= 1,
    ensures
        v == bytes_seq(*old(b))[0],
        bytes_seq(*final(b)) == bytes_seq(*old(b)).skip(1),
{
    b.get_u8()
}

/// `<Bytes as Buf>::get_u32_le`: takes the next four bytes as a little-endian
/// number; panics when fewer than four are left.
#[verifier::external_body]
pub fn buf_get_u32_le(b: &mut Bytes) -> (v: u32)
    requires
        bytes_seq(*old(b)).len() >= 4,
    ensures
        v == le_u32(bytes_seq(*old(b))),
        bytes_seq(*final(b)) == bytes_seq(*old(b)).skip(4),
{
    b.get_u32_le()
}

/// `<Bytes as Buf>::copy_to_bytes`: takes the next `len` bytes as a new
/// handle; panics when fewer than `len` are left.
#[verifier::external_body]
pub fn buf_copy_to_bytes(b: &mut Bytes, len: usize) -> (taken: Bytes)
    requires
        len <= bytes_seq(*old(b)).len(),
    ensures
        bytes_seq(taken) == bytes_seq(*old(b)).take(len as int),
        bytes_seq(*final(b)) == bytes_seq(*old(b)).skip(len as int),
{
    b.copy_to_bytes(len)
}

/// `<Bytes as Deref>::deref`: the remaining bytes as a slice.
#[verifier::external_body]
pub fn bytes_as_slice(b: &Bytes) -> (s: &[u8])
    ensures
        s@ == bytes_seq(*b),
{
    b.as_ref()
}

// ---------------------------------------------------------------------------
// Writing into `BytesMut`
// ---------------------------------------------------------------------------

/// `BytesMut::new`: an empty buffer.
#[verifier::external_body]
pub fn bytes_mut_new() -> (b: BytesMut)
    ensures
        bytes_mut_seq(b) == Seq::<u8>::empty(),
{
    BytesMut::new()
}

/// `BytesMut::len`: the number of bytes written.
#[verifier::external_body]
pub fn bytes_mut_len(b: &BytesMut) -> (n: usize)
    ensures
        n == bytes_mut_seq(*b).len(),
{
    b.len()
}

/// `BytesMut::clear`: drops everything written.
#[verifier::external_body]
pub fn bytes_mut_clear(b: &mut BytesMut)
    ensures
        bytes_mut_seq(*final(b)) == Seq::<u8>::empty(),
{
    b.clear()
}

/// `<BytesMut as BufMut>::put_u8`: appends one byte. The buffer cannot grow
/// beyond `isize::MAX` bytes (the allocation panics), which `requires` rules
/// out. Not stated: a growth that the allocator cannot serve, which aborts.
#[verifier::external_body]
pub fn put_u8(b: &mut BytesMut, v: u8)
    requires
        bytes_mut_seq(*old(b)).len() + 1 <= isize::MAX,
    ensures
        bytes_mut_seq(*final(b)) == bytes_mut_seq(*old(b)).push(v),
{
    b.put_u8(v)
}

/// `<BytesMut as BufMut>::put_u32_le`: appends the four little-endian bytes of `v`.
#[verifier::external_body]
pub fn put_u32_le(b: &mut BytesMut, v: u32)
    requires
        bytes_mut_seq(*old(b)).len() + 4 <= isize::MAX,
    ensures
        bytes_mut_seq(*final(b)) == bytes_mut_seq(*old(b)) + u32_le_bytes(v),
{
    b.put_u32_le(v)
}

/// `<BytesMut as BufMut>::put_slice`: appends the bytes of `src`.
#[verifier::external_body]
pub fn put_slice(b: &mut BytesMut, src: &[u8])
    requires
        bytes_mut_seq(*old(b)).len() + src@.len() <= isize::MAX,
    ensures
        bytes_mut_seq(*final(b)) == bytes_mut_seq(*old(b)) + src@,
{
    b.put_slice(src)
}

/// `BytesMut::extend_from_slice`: appends the bytes of `src`.
#[verifier::external_body]
pub fn bytes_mut_extend_from_slice(b: &mut BytesMut, src: &[u8])
    requires
        bytes_mut_seq(*old(b)).len() + src@.len() <= isize::MAX,
    ensures
        bytes_mut_seq(*final(b)) == bytes_mut_seq(*old(b)) + src@,
{
    b.extend_from_slice(src)
}

/// `BytesMut::split`: takes everything written, leaving the buffer empty.
#[verifier::external_body]
pub fn bytes_mut_split(b: &mut BytesMut) -> (taken: BytesMut)
    ensures
        bytes_mut_seq(taken) == bytes_mut_seq(*old(b)),
        bytes_mut_seq(*final(b)) == Seq::<u8>::empty(),
{
    b.split()
}

/// `BytesMut::freeze`: turns the written bytes into a `Bytes` to read from.
#[verifier::external_body]
pub fn bytes_mut_freeze(b: BytesMut) -> (frozen: Bytes)
    ensures
        bytes_seq(frozen) == bytes_mut_seq(b),
{
    b.freeze()
}

/// `<BytesMut as DerefMut>::deref_mut` with `[u8]::copy_from_slice` on the
/// first four bytes: overwrites them with `head`; the slice index panics when
/// fewer than four bytes were written, which `requires` rules out.
#[verifier::external_body]
pub fn bytes_mut_overwrite_head(b: &mut BytesMut, head: [u8; 4])
    requires
        bytes_mut_seq(*old(b)).len() >= 4,
    ensures
        bytes_mut_seq(*final(b)) == head@ + bytes_mut_seq(*old(b)).skip(4),
{
    b[0..4].copy_from_slice(&head)
}

} // verus!
