//! Trusted view of the byte buffers of the `bytes` crate.
//!
//! The engines keep their accumulation buffers as `bytes::BytesMut` and hand
//! records out as `bytes::Bytes`, exactly as the store's byte streams do.
//! Verus sees both types as opaque, so this module declares them, names the
//! byte sequence each one holds, and wraps the handful of operations the
//! engines call. Every contract below states what the `bytes` source shows
//! of the wrapped call.

use vstd::prelude::*;

verus! {

#[verifier::external_type_specification]
#[verifier::external_body]
pub struct ExBytes(bytes::Bytes);

#[verifier::external_type_specification]
#[verifier::external_body]
pub struct ExBytesMut(bytes::BytesMut);

/// The bytes held by a frozen buffer, in order.
pub uninterp spec fn bytes_view(b: bytes::Bytes) -> Seq<u8>;

/// The bytes held by a mutable buffer, in order.
pub uninterp spec fn bytes_mut_view(b: bytes::BytesMut) -> Seq<u8>;

/// Relies on bytes::BytesMut::new: a freshly created buffer holds no bytes.
#[verifier::external_body]
pub fn bytes_mut_new() -> (r: bytes::BytesMut)
    ensures
        bytes_mut_view(r) == Seq::<u8>::empty(),
{
    bytes::BytesMut::new()
}

/// Relies on bytes::BytesMut::len: the number of bytes the buffer holds.
#[verifier::external_body]
pub fn bytes_mut_len(b: &bytes::BytesMut) -> (r: usize)
    ensures
        r == bytes_mut_view(*b).len(),
{
    b.len()
}

/// Relies on bytes::BytesMut::extend_from_slice: the given bytes are appended
/// at the end of the buffer, in order.
#[verifier::external_body]
pub fn bytes_mut_extend(b: &mut bytes::BytesMut, data: &bytes::Bytes)
    requires
        bytes_mut_view(*old(b)).len() + bytes_view(*data).len() <= usize::MAX,
    ensures
        bytes_mut_view(*final(b)) == bytes_mut_view(*old(b)) + bytes_view(*data),
{
    b.extend_from_slice(data.as_ref())
}

/// Relies on bytes::BytesMut::split_to: afterwards the buffer holds the bytes
/// from `at` on, and the returned buffer holds the first `at` bytes. The call
/// panics when `at` exceeds the length, so that case is excluded here.
#[verifier::external_body]
pub fn bytes_mut_split_to(b: &mut bytes::BytesMut, at: usize) -> (r: bytes::BytesMut)
    requires
        at <= bytes_mut_view(*old(b)).len(),
    ensures
        bytes_mut_view(r) == bytes_mut_view(*old(b)).subrange(0, at as int),
        bytes_mut_view(*final(b)) == bytes_mut_view(*old(b)).subrange(
            at as int,
            bytes_mut_view(*old(b)).len() as int,
        ),
{
    b.split_to(at)
}

/// Relies on bytes::BytesMut::freeze: the frozen buffer holds exactly the
/// bytes the mutable buffer held.
#[verifier::external_body]
pub fn bytes_mut_freeze(b: bytes::BytesMut) -> (r: bytes::Bytes)
    ensures
        bytes_view(r) == bytes_mut_view(b),
{
    b.freeze()
}

/// Relies on bytes::Bytes::len: the number of bytes the buffer holds.
#[verifier::external_body]
pub fn bytes_len(b: &bytes::Bytes) -> (r: usize)
    ensures
        r == bytes_view(*b).len(),
{
    b.len()
}

/// Relies on bytes::Bytes::as_ref (the full byte slice of the buffer); the
/// slice is copied into a fresh vector.
#[verifier::external_body]
pub fn bytes_to_vec(b: &bytes::Bytes) -> (r: Vec<u8>)
    ensures
        r@ == bytes_view(*b),
{
    b.as_ref().to_vec()
}

} // verus!
