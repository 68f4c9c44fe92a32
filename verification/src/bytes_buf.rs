//! Growable byte buffers (`bytes::BytesMut`) used by the wire codecs.
use vstd::prelude::*;

verus! {

#[verifier::external_type_specification]
#[verifier::external_body]
pub struct ExBytesMut(bytes::BytesMut);

/// The bytes a `BytesMut` holds, in order.
pub uninterp spec fn bytes_contents(b: bytes::BytesMut) -> Seq<u8>;

/// `BytesMut::new`: an empty buffer.
#[verifier::external_body]
pub(crate) fn bytes_new() -> (b: bytes::BytesMut)
    ensures
        bytes_contents(b) == Seq::<u8>::empty(),
{
    bytes::BytesMut::new()
}

/// `BytesMut::len`: the number of bytes held.
#[verifier::external_body]
pub(crate) fn bytes_len(b: &bytes::BytesMut) -> (n: usize)
    ensures
        n == bytes_contents(*b).len(),
{
    b.len()
}

/// Indexing a `BytesMut` (through its slice): the byte at `i`.
#[verifier::external_body]
pub(crate) fn bytes_at(b: &bytes::BytesMut, i: usize) -> (v: u8)
    requires
        i < bytes_contents(*b).len(),
    ensures
        v == bytes_contents(*b)[i as int],
{
    b[i]
}

/// `Buf::advance` on a `BytesMut`: drops the first `n` bytes (it panics when `n`
/// exceeds the length, which `requires` rules out).
#[verifier::external_body]
pub(crate) fn bytes_advance(b: &mut bytes::BytesMut, n: usize)
    requires
        n <= bytes_contents(*old(b)).len(),
    ensures
        bytes_contents(*final(b)) == bytes_contents(*old(b)).skip(n as int),
{
    bytes::Buf::advance(b, n)
}

/// `BytesMut::split_to`: removes the first `n` bytes and returns them (it panics
/// when `n` exceeds the length, which `requires` rules out).
#[verifier::external_body]
pub(crate) fn bytes_split_to(b: &mut bytes::BytesMut, n: usize) -> (head: bytes::BytesMut)
    requires
        n <= bytes_contents(*old(b)).len(),
    ensures
        bytes_contents(head) == bytes_contents(*old(b)).take(n as int),
        bytes_contents(*final(b)) == bytes_contents(*old(b)).skip(n as int),
{
    b.split_to(n)
}

/// `BytesMut::reserve`: makes room for more bytes; the contents stay as they are.
/// It panics when the length plus `additional` overflows `usize`, which `requires`
/// rules out; an overflow of its internal offset, which only a buffer near
/// `usize::MAX` bytes could cause, is not stated.
#[verifier::external_body]
pub(crate) fn bytes_reserve(b: &mut bytes::BytesMut, additional: usize)
    requires
        bytes_contents(*old(b)).len() + additional <= usize::MAX,
    ensures
        bytes_contents(*final(b)) == bytes_contents(*old(b)),
{
    b.reserve(additional)
}

/// `BufMut::put_slice` on a `BytesMut`: appends `s`.
#[verifier::external_body]
pub(crate) fn bytes_put_slice(b: &mut bytes::BytesMut, s: &[u8])
    requires
        bytes_contents(*old(b)).len() + s@.len() <= usize::MAX,
    ensures
        bytes_contents(*final(b)) == bytes_contents(*old(b)) + s@,
{
    bytes::BufMut::put_slice(b, s)
}

/// `<[u8]>::to_vec` on the bytes of a `BytesMut`.
#[verifier::external_body]
pub(crate) fn bytes_to_vec(b: &bytes::BytesMut) -> (v: Vec<u8>)
    ensures
        v@ == bytes_contents(*b),
{
    b.to_vec()
}

} // verus!
