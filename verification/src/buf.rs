//! Byte buffers of the `bytes` crate: what their operations do to the bytes that they hold.
//!
//! Everything in this module that touches a buffer is taken on trust from that crate.
use bytes::{Buf, BufMut, Bytes, BytesMut};
use vstd::prelude::*;

verus! {

/// `bytes::Bytes`: a shared run of bytes that is read from the front.
#[verifier::external_type_specification]
#[verifier::external_body]
pub struct ExBytes(Bytes);

/// `bytes::BytesMut`: a run of bytes that grows at its end.
#[verifier::external_type_specification]
#[verifier::external_body]
pub struct ExBytesMut(BytesMut);

/// The bytes that are still to be read from a buffer.
pub uninterp spec fn unread(buf: Bytes) -> Seq<u8>;

/// The bytes that were written to a buffer.
pub uninterp spec fn written(buf: BytesMut) -> Seq<u8>;

/// The number that a run of bytes stands for, most significant byte first.
pub open spec fn be_value(s: Seq<u8>) -> nat
    decreases s.len(),
{
    if s.len() == 0 {
        0
    } else {
        be_value(s.drop_last()) * 256 + s.last() as nat
    }
}

/// The number between `-bound` and `bound` that differs from `n` by nothing or by twice `bound`:
/// what two's complement makes of an unsigned number below twice `bound`.
pub open spec fn signed(n: nat, bound: nat) -> int {
    if n < bound {
        n as int
    } else {
        n - 2 * bound
    }
}

/// `bytes::Buf::remaining` of `Bytes`: the number of unread bytes.
#[verifier::external_body]
pub(crate) fn remaining(buf: &Bytes) -> (n: usize)
    ensures
        n == unread(*buf).len(),
{
    buf.remaining()
}

/// `bytes::Buf::has_remaining` of `Bytes`: whether any byte is unread.
#[verifier::external_body]
pub(crate) fn has_remaining(buf: &Bytes) -> (b: bool)
    ensures
        b == (unread(*buf).len() > 0),
{
    buf.has_remaining()
}

/// `bytes::Buf::get_u8` of `Bytes`: takes the first unread byte. It panics where there is none.
#[verifier::external_body]
pub(crate) fn get_u8(buf: &mut Bytes) -> (v: u8)
    requires
        unread(*old(buf)).len() >= 1,
    ensures
        v == unread(*old(buf))[0],
        unread(*final(buf)) == unread(*old(buf)).skip(1),
{
    buf.get_u8()
}

/// `bytes::Buf::get_u16` of `Bytes`: takes two bytes as a big-endian number. It panics where
/// there are fewer.
#[verifier::external_body]
pub(crate) fn get_u16(buf: &mut Bytes) -> (v: u16)
    requires
        unread(*old(buf)).len() >= 2,
    ensures
        v == be_value(unread(*old(buf)).take(2)),
        unread(*final(buf)) == unread(*old(buf)).skip(2),
{
    buf.get_u16()
}

/// `bytes::Buf::get_u32` of `Bytes`: takes four bytes as a big-endian number. It panics where
/// there are fewer.
#[verifier::external_body]
pub(crate) fn get_u32(buf: &mut Bytes) -> (v: u32)
    requires
        unread(*old(buf)).len() >= 4,
    ensures
        v == be_value(unread(*old(buf)).take(4)),
        unread(*final(buf)) == unread(*old(buf)).skip(4),
{
    buf.get_u32()
}

/// `bytes::Buf::get_u64` of `Bytes`: takes eight bytes as a big-endian number. It panics where
/// there are fewer.
#[verifier::external_body]
pub(crate) fn get_u64(buf: &mut Bytes) -> (v: u64)
    requires
        unread(*old(buf)).len() >= 8,
    ensures
        v == be_value(unread(*old(buf)).take(8)),
        unread(*final(buf)) == unread(*old(buf)).skip(8),
{
    buf.get_u64()
}

/// `bytes::Buf::get_i16` of `Bytes`: takes two bytes as a big-endian number in two's complement.
/// It panics where there are fewer.
#[verifier::external_body]
pub(crate) fn get_i16(buf: &mut Bytes) -> (v: i16)
    requires
        unread(*old(buf)).len() >= 2,
    ensures
        v == signed(be_value(unread(*old(buf)).take(2)), 0x8000),
        unread(*final(buf)) == unread(*old(buf)).skip(2),
{
    buf.get_i16()
}

/// `bytes::Buf::get_i32` of `Bytes`: takes four bytes as a big-endian number in two's complement.
/// It panics where there are fewer.
#[verifier::external_body]
pub(crate) fn get_i32(buf: &mut Bytes) -> (v: i32)
    requires
        unread(*old(buf)).len() >= 4,
    ensures
        v == signed(be_value(unread(*old(buf)).take(4)), 0x8000_0000),
        unread(*final(buf)) == unread(*old(buf)).skip(4),
{
    buf.get_i32()
}

/// `bytes::Bytes::split_to`: takes the first `at` unread bytes into a buffer of their own. It
/// panics where there are fewer.
#[verifier::external_body]
pub(crate) fn split_to(buf: &mut Bytes, at: usize) -> (head: Bytes)
    requires
        at <= unread(*old(buf)).len(),
    ensures
        unread(head) == unread(*old(buf)).take(at as int),
        unread(*final(buf)) == unread(*old(buf)).skip(at as int),
{
    buf.split_to(at)
}

/// `<bytes::Bytes as Clone>::clone`: another buffer with the same unread bytes.
#[verifier::external_body]
pub(crate) fn clone(buf: &Bytes) -> (copy: Bytes)
    ensures
        unread(copy) == unread(*buf),
{
    buf.clone()
}

/// `bytes::Bytes::from` of a vector: a buffer in which all the bytes are unread.
#[verifier::external_body]
pub(crate) fn from_vec(data: Vec<u8>) -> (buf: Bytes)
    ensures
        unread(buf) == data@,
{
    Bytes::from(data)
}

/// `bytes::Bytes::to_vec`, through the slice that a buffer dereferences to: the unread bytes.
#[verifier::external_body]
pub(crate) fn to_vec(buf: &Bytes) -> (data: Vec<u8>)
    ensures
        data@ == unread(*buf),
{
    buf.to_vec()
}

/// `bytes::BytesMut::new`: a buffer to which nothing was written.
#[verifier::external_body]
pub(crate) fn empty() -> (buf: BytesMut)
    ensures
        written(buf) == Seq::<u8>::empty(),
{
    BytesMut::new()
}

/// `bytes::BufMut::put_u8` of `BytesMut`: writes one byte. The buffer panics where it would
/// outgrow the largest allocation.
#[verifier::external_body]
pub(crate) fn put_u8(buf: &mut BytesMut, n: u8)
    requires
        written(*old(buf)).len() < isize::MAX,
    ensures
        written(*final(buf)) == written(*old(buf)).push(n),
{
    buf.put_u8(n)
}

/// `bytes::BufMut::put_slice` of `BytesMut`: writes a run of bytes. The buffer panics where it
/// would outgrow the largest allocation.
#[verifier::external_body]
pub(crate) fn put_slice(buf: &mut BytesMut, src: &[u8])
    requires
        written(*old(buf)).len() + src@.len() <= isize::MAX,
    ensures
        written(*final(buf)) == written(*old(buf)) + src@,
{
    buf.put_slice(src)
}

/// `bytes::BytesMut::freeze`: the written bytes, to be read.
#[verifier::external_body]
pub(crate) fn freeze(buf: BytesMut) -> (data: Bytes)
    ensures
        unread(data) == written(buf),
{
    buf.freeze()
}

} // verus!
