//! The byte buffers of the `bytes` crate, and what is relied on of them.

use bytes::{Bytes, BytesMut};
use vstd::prelude::*;

verus! {

/// `bytes::Bytes`: shared bytes that do not change.
#[verifier::external_type_specification]
#[verifier::external_body]
pub struct ExBytes(bytes::Bytes);

/// `bytes::BytesMut`: a buffer that grows.
#[verifier::external_type_specification]
#[verifier::external_body]
pub struct ExBytesMut(bytes::BytesMut);

/// The bytes that a `Bytes` holds.
pub uninterp spec fn contents(b: Bytes) -> Seq<u8>;

/// The bytes that a `BytesMut` holds.
pub uninterp spec fn buffer_contents(b: BytesMut) -> Seq<u8>;

/// How many bytes a buffer may be made to hold. Growing one may set aside twice
/// what is asked for, and no more than `isize::MAX` bytes can be set aside.
pub open spec fn buffer_limit() -> int {
    isize::MAX as int / 2
}

/// `BytesMut::zeroed`: a buffer of `len` zero bytes.
#[verifier::external_body]
pub(crate) fn zeroed(len: usize) -> (r: BytesMut)
    requires
        len <= buffer_limit(),
    ensures
        buffer_contents(r) == Seq::new(len as nat, |i: int| 0u8),
{
    BytesMut::zeroed(len)
}

/// `BytesMut::len`: how many bytes a buffer holds.
#[verifier::external_body]
pub(crate) fn buffer_len(buffer: &BytesMut) -> (r: usize)
    ensures
        r == buffer_contents(*buffer).len(),
{
    buffer.len()
}

/// `BytesMut::resize` to a larger size: the bytes stay, and zero bytes follow.
#[verifier::external_body]
pub(crate) fn grow(buffer: &mut BytesMut, new_len: usize)
    requires
        buffer_contents(*old(buffer)).len() <= new_len <= buffer_limit(),
    ensures
        buffer_contents(*final(buffer)) == buffer_contents(*old(buffer)) + Seq::new(
            (new_len - buffer_contents(*old(buffer)).len()) as nat,
            |i: int| 0u8,
        ),
{
    buffer.resize(new_len, 0)
}

/// `BytesMut` as a mutable slice (its `DerefMut`): what is written to the slice
/// is written to the buffer.
#[verifier::external_body]
pub(crate) fn buffer_slice_mut(buffer: &mut BytesMut) -> (r: &mut [u8])
    ensures
        r@ == buffer_contents(*old(buffer)),
        buffer_contents(*final(buffer)) == final(r)@,
{
    buffer
}

/// `BytesMut` as a slice (its `Deref`): the bytes that it holds.
#[verifier::external_body]
pub(crate) fn buffer_slice(buffer: &BytesMut) -> (r: &[u8])
    ensures
        r@ == buffer_contents(*buffer),
{
    buffer
}

/// `Bytes::copy_from_slice`: the bytes of a slice, copied.
#[verifier::external_body]
pub(crate) fn copy_bytes(data: &[u8]) -> (r: Bytes)
    ensures
        contents(r) == data@,
{
    Bytes::copy_from_slice(data)
}

/// `Bytes::from(Vec<u8>)`: the bytes of a list.
#[verifier::external_body]
pub(crate) fn bytes_from_vec(data: Vec<u8>) -> (r: Bytes)
    ensures
        contents(r) == data@,
{
    Bytes::from(data)
}

/// `Bytes` as a slice (its `Deref`): the bytes that it holds.
#[verifier::external_body]
pub(crate) fn as_slice(bytes: &Bytes) -> (r: &[u8])
    ensures
        r@ == contents(*bytes),
{
    bytes
}

/// `Bytes::slice`: the bytes from `start` up to `end`.
#[verifier::external_body]
pub(crate) fn slice(bytes: &Bytes, start: usize, end: usize) -> (r: Bytes)
    requires
        start <= end <= contents(*bytes).len(),
    ensures
        contents(r) == contents(*bytes).subrange(start as int, end as int),
{
    bytes.slice(start..end)
}

/// `Bytes::clone`: another handle on the same bytes.
#[verifier::external_body]
pub(crate) fn clone_bytes(bytes: &Bytes) -> (r: Bytes)
    ensures
        contents(r) == contents(*bytes),
{
    bytes.clone()
}

} // verus!
