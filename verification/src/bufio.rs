//! The byte-buffer operations of the `bytes` crate (and of std) that the codec
//! uses, each behind a small trusted item whose contract says what the crate's
//! documentation and source show of it.
use vstd::prelude::*;
use vstd::utf8::valid_utf8;
use vstd::string::StringSliceAdditionalSpecFns;
use bytes::{Buf, BufMut, BytesMut};
use crate::endian::{be16, be32, be64, from_be16, from_be32, from_be64};

verus! {

/// `bytes::BytesMut`, the growable byte buffer that an encoded frame is written into.
#[verifier::external_type_specification]
#[verifier::external_body]
pub struct ExBytesMut(BytesMut);

/// The bytes that a `BytesMut` holds, in order (what `Deref<Target = [u8]>` shows).
pub uninterp spec fn bytes_mut_contents(buf: BytesMut) -> Seq<u8>;

/// `BytesMut::with_capacity`: a new, empty buffer; the capacity is a hint only.
#[verifier::external_body]
pub(crate) fn bytes_mut_with_capacity(capacity: usize) -> (buf: BytesMut)
    ensures
        bytes_mut_contents(buf) == Seq::<u8>::empty(),
{
    BytesMut::with_capacity(capacity)
}

/// `<BytesMut as BufMut>::put_slice`: appends `src` (through `extend_from_slice`).
/// Growing past `isize::MAX` bytes panics ("capacity overflow"), which
/// `requires` rules out.
#[verifier::external_body]
pub(crate) fn bytes_mut_put_slice(buf: &mut BytesMut, src: &[u8])
    requires
        bytes_mut_contents(*old(buf)).len() + src@.len() <= isize::MAX,
    ensures
        bytes_mut_contents(*final(buf)) == bytes_mut_contents(*old(buf)) + src@,
{
    buf.put_slice(src)
}

/// `<BytesMut as BufMut>::put_u8`: appends the one byte `n` (through `put_slice`).
#[verifier::external_body]
pub(crate) fn bytes_mut_put_u8(buf: &mut BytesMut, n: u8)
    requires
        bytes_mut_contents(*old(buf)).len() + 1 <= isize::MAX,
    ensures
        bytes_mut_contents(*final(buf)) == bytes_mut_contents(*old(buf)).push(n),
{
    buf.put_u8(n)
}

/// `<BytesMut as BufMut>::put_u16`: appends `n` in big-endian byte order
/// (through `put_slice`).
#[verifier::external_body]
pub(crate) fn bytes_mut_put_u16(buf: &mut BytesMut, n: u16)
    requires
        bytes_mut_contents(*old(buf)).len() + 2 <= isize::MAX,
    ensures
        bytes_mut_contents(*final(buf)) == bytes_mut_contents(*old(buf)) + be16(n),
{
    buf.put_u16(n)
}

/// `<Vec<u8> as BufMut>::put_u8`: pushes the one byte `n`. As for every
/// `Vec<u8>` write below, growing past `isize::MAX` bytes panics ("capacity
/// overflow"), which `requires` rules out.
#[verifier::external_body]
pub(crate) fn vec_put_u8(buf: &mut Vec<u8>, n: u8)
    requires
        old(buf)@.len() + 1 <= isize::MAX,
    ensures
        final(buf)@ == old(buf)@.push(n),
{
    buf.put_u8(n)
}

/// `<Vec<u8> as BufMut>::put_u16`: appends `n` in big-endian byte order.
#[verifier::external_body]
pub(crate) fn vec_put_u16(buf: &mut Vec<u8>, n: u16)
    requires
        old(buf)@.len() + 2 <= isize::MAX,
    ensures
        final(buf)@ == old(buf)@ + be16(n),
{
    buf.put_u16(n)
}

/// `<Vec<u8> as BufMut>::put_u32`: appends `n` in big-endian byte order.
#[verifier::external_body]
pub(crate) fn vec_put_u32(buf: &mut Vec<u8>, n: u32)
    requires
        old(buf)@.len() + 4 <= isize::MAX,
    ensures
        final(buf)@ == old(buf)@ + be32(n),
{
    buf.put_u32(n)
}

/// `<Vec<u8> as BufMut>::put_u64`: appends `n` in big-endian byte order.
#[verifier::external_body]
pub(crate) fn vec_put_u64(buf: &mut Vec<u8>, n: u64)
    requires
        old(buf)@.len() + 8 <= isize::MAX,
    ensures
        final(buf)@ == old(buf)@ + be64(n),
{
    buf.put_u64(n)
}

/// `<&[u8] as Buf>::get_u8`: the first byte; the cursor moves past it.
/// It panics on an empty slice, which `requires` rules out.
#[verifier::external_body]
pub(crate) fn get_u8(cursor: &mut &[u8]) -> (n: u8)
    requires
        old(cursor)@.len() >= 1,
    ensures
        n == old(cursor)@[0],
        final(cursor)@ == old(cursor)@.skip(1),
{
    cursor.get_u8()
}

/// `<&[u8] as Buf>::get_u16`: the big-endian `u16` in the first two bytes; the
/// cursor moves past them. It panics on fewer bytes, which `requires` rules out.
#[verifier::external_body]
pub(crate) fn get_u16(cursor: &mut &[u8]) -> (n: u16)
    requires
        old(cursor)@.len() >= 2,
    ensures
        n == from_be16(old(cursor)@),
        final(cursor)@ == old(cursor)@.skip(2),
{
    cursor.get_u16()
}

/// `<&[u8] as Buf>::get_u32`: the big-endian `u32` in the first four bytes; the
/// cursor moves past them. It panics on fewer bytes, which `requires` rules out.
#[verifier::external_body]
pub(crate) fn get_u32(cursor: &mut &[u8]) -> (n: u32)
    requires
        old(cursor)@.len() >= 4,
    ensures
        n == from_be32(old(cursor)@),
        final(cursor)@ == old(cursor)@.skip(4),
{
    cursor.get_u32()
}

/// `<&[u8] as Buf>::get_u64`: the big-endian `u64` in the first eight bytes; the
/// cursor moves past them. It panics on fewer bytes, which `requires` rules out.
#[verifier::external_body]
pub(crate) fn get_u64(cursor: &mut &[u8]) -> (n: u64)
    requires
        old(cursor)@.len() >= 8,
    ensures
        n == from_be64(old(cursor)@),
        final(cursor)@ == old(cursor)@.skip(8),
{
    cursor.get_u64()
}

/// `<&[u8] as Buf>::copy_to_slice` into a four-byte array: the first four bytes
/// are copied and the cursor moves past them. It panics on fewer bytes, which
/// `requires` rules out.
#[verifier::external_body]
pub(crate) fn copy_to_array4(cursor: &mut &[u8], dst: &mut [u8; 4])
    requires
        old(cursor)@.len() >= 4,
    ensures
        final(dst)@ == old(cursor)@.take(4),
        final(cursor)@ == old(cursor)@.skip(4),
{
    cursor.copy_to_slice(dst)
}

/// `<&[u8] as Buf>::advance`: the cursor moves past `count` bytes. It panics
/// when fewer remain, which `requires` rules out.
#[verifier::external_body]
pub(crate) fn advance(cursor: &mut &[u8], count: usize)
    requires
        old(cursor)@.len() >= count,
    ensures
        final(cursor)@ == old(cursor)@.skip(count as int),
{
    cursor.advance(count)
}

/// `std::str::from_utf8`: succeeds exactly when `bytes` are valid UTF-8, and
/// then gives the string whose UTF-8 bytes they are.
#[verifier::external_body]
pub(crate) fn str_from_utf8(bytes: &[u8]) -> (res: Option<&str>)
    ensures
        res is Some <==> valid_utf8(bytes@),
        res matches Some(s) ==> s.spec_bytes() == bytes@,
{
    std::str::from_utf8(bytes).ok()
}

} // verus!
