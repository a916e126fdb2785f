//! Byte buffers of the `bytes` crate: what they hold, and what the calls made here do to it.
use bytes::{Bytes, BytesMut};
use vstd::prelude::*;

verus! {

/// The shared, immutable byte string of the `bytes` crate.
#[verifier::external_type_specification]
#[verifier::external_body]
pub struct ExBytes(bytes::Bytes);

/// The growable byte buffer of the `bytes` crate.
#[verifier::external_type_specification]
#[verifier::external_body]
pub struct ExBytesMut(bytes::BytesMut);

/// The bytes that a `Bytes` holds.
pub uninterp spec fn bytes_of(b: bytes::Bytes) -> Seq<u8>;

/// The bytes that a `BytesMut` holds.
pub uninterp spec fn buffer_of(b: bytes::BytesMut) -> Seq<u8>;

/// The longest buffer that is grown here. Growing may double the capacity, which must not pass
/// `isize::MAX` bytes. No buffer here is ever split or advanced, so that its capacity counts from
/// its first byte.
pub open spec fn buffer_limit() -> int {
    isize::MAX as int / 2
}

/// A buffer is grown to half of the longest allocation at most.
pub proof fn buffer_limit_is_half_of_memory()
    ensures
        buffer_limit() == isize::MAX as int / 2,
{
}

/// `BytesMut::with_capacity` gives an empty buffer.
pub assume_specification[ bytes::BytesMut::with_capacity ](capacity: usize) -> (r: BytesMut)
    requires
        capacity <= buffer_limit(),
    ensures
        buffer_of(r) == Seq::<u8>::empty(),
;

/// `BytesMut::clear` empties the buffer.
pub assume_specification[ bytes::BytesMut::clear ](b: &mut BytesMut)
    ensures
        buffer_of(*final(b)) == Seq::<u8>::empty(),
;

/// `BytesMut::resize` cuts the buffer to the new length, or fills it up to there with `value`.
pub assume_specification[ bytes::BytesMut::resize ](b: &mut BytesMut, new_len: usize, value: u8)
    requires
        new_len <= buffer_limit(),
    ensures
        new_len <= buffer_of(*old(b)).len() ==> buffer_of(*final(b)) == buffer_of(*old(b)).take(
            new_len as int,
        ),
        new_len > buffer_of(*old(b)).len() ==> buffer_of(*final(b)) == buffer_of(*old(b))
            + Seq::new((new_len - buffer_of(*old(b)).len()) as nat, |i: int| value),
;

/// `BytesMut::extend_from_slice` appends the bytes of the slice.
pub assume_specification[ bytes::BytesMut::extend_from_slice ](b: &mut BytesMut, extend: &[u8])
    requires
        buffer_of(*old(b)).len() + extend@.len() <= buffer_limit(),
    ensures
        buffer_of(*final(b)) == buffer_of(*old(b)) + extend@,
;

/// `BytesMut::freeze` hands over what the buffer holds.
pub assume_specification[ bytes::BytesMut::freeze ](b: BytesMut) -> (r: Bytes)
    ensures
        bytes_of(r) == buffer_of(b),
;

/// `BytesMut::clone` copies what the buffer holds.
pub assume_specification[ <bytes::BytesMut as Clone>::clone ](b: &BytesMut) -> (r: BytesMut)
    ensures
        buffer_of(r) == buffer_of(*b),
;

/// `BytesMut::deref_mut` lends what the buffer holds as a slice: what is written to the slice
/// is written to the buffer, and leaves the length as it is.
#[verifier::external_body]
pub(crate) fn contents_mut(b: &mut BytesMut) -> (r: &mut [u8])
    ensures
        r@ == buffer_of(*old(b)),
        buffer_of(*final(b)) == final(r)@,
        final(r)@.len() == r@.len(),
{
    std::ops::DerefMut::deref_mut(b)
}

/// `Bytes::deref` shows what the byte string holds as a slice.
pub assume_specification[ <bytes::Bytes as core::ops::Deref>::deref ](b: &Bytes) -> (r: &[u8])
    ensures
        r@ == bytes_of(*b),
;

/// `Bytes::clone` gives a second handle on the same bytes.
pub assume_specification[ <bytes::Bytes as Clone>::clone ](b: &Bytes) -> (r: Bytes)
    ensures
        bytes_of(r) == bytes_of(*b),
;

/// `Bytes::copy_from_slice` copies the bytes of the slice.
pub assume_specification[ bytes::Bytes::copy_from_slice ](data: &[u8]) -> (r: Bytes)
    ensures
        bytes_of(r) == data@,
;

/// `Bytes::from_static` holds the bytes of the slice.
pub assume_specification[ bytes::Bytes::from_static ](bytes: &'static [u8]) -> (r: Bytes)
    ensures
        bytes_of(r) == bytes@,
;

} // verus!
