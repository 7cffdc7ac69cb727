//! The byte buffers of the `bytes` crate, seen as sequences of bytes.

use bytes::{Bytes, BytesMut};
use vstd::prelude::*;

verus! {

/// `bytes::Bytes`: a shared byte buffer that is no longer written to.
#[verifier::external_type_specification]
#[verifier::external_body]
pub struct ExBytes(bytes::Bytes);

/// `bytes::BytesMut`: a byte buffer that is still being filled.
#[verifier::external_type_specification]
#[verifier::external_body]
pub struct ExBytesMut(bytes::BytesMut);

/// The bytes that a `Bytes` holds.
pub uninterp spec fn bytes_contents(b: Bytes) -> Seq<u8>;

/// The bytes that a `BytesMut` holds.
pub uninterp spec fn buffer_contents(b: BytesMut) -> Seq<u8>;

/// `BytesMut::zeroed` makes a buffer of `len` zero bytes. It allocates them as a
/// vector, which panics where `len` is greater than `isize::MAX`.
pub assume_specification[ BytesMut::zeroed ](len: usize) -> (b: BytesMut)
    requires
        len <= isize::MAX,
    ensures
        buffer_contents(b) == Seq::new(len as nat, |i: int| 0u8),
;

/// `BytesMut::freeze` hands over the bytes of the buffer as they are.
pub assume_specification[ BytesMut::freeze ](b: BytesMut) -> (frozen: Bytes)
    ensures
        bytes_contents(frozen) == buffer_contents(b),
;

/// `Bytes::deref` gives the bytes of the buffer as a slice.
#[verifier::external_body]
pub(crate) fn as_slice(b: &Bytes) -> (s: &[u8])
    ensures
        s@ == bytes_contents(*b),
{
    &b[..]
}

/// `Bytes::slice` gives the bytes from `begin` up to `end`, without `end`. It
/// panics unless `begin <= end` and `end` is at most the length of the buffer.
#[verifier::external_body]
pub(crate) fn slice(b: &Bytes, begin: usize, end: usize) -> (part: Bytes)
    requires
        begin <= end <= bytes_contents(*b).len(),
    ensures
        bytes_contents(part) == bytes_contents(*b).subrange(begin as int, end as int),
{
    b.slice(begin..end)
}

} // verus!
