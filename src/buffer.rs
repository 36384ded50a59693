use vstd::prelude::*;

use bytes::BytesMut;

verus! {

#[verifier::external_type_specification]
#[verifier::external_body]
pub struct ExBytesMut(BytesMut);

/// The bytes that a `BytesMut` holds, first to last.
pub uninterp spec fn bytes_of(b: BytesMut) -> Seq<u8>;

/// Relies on `<BytesMut as AsRef<[u8]>>::as_ref`: a slice over the bytes held.
#[verifier::external_body]
pub(crate) fn contents(b: &BytesMut) -> (r: &[u8])
    ensures
        r@ == bytes_of(*b),
{
    b.as_ref()
}

/// Relies on `BytesMut::advance`: drops the first `n` bytes (it panics when
/// `n` is past the end).
#[verifier::external_body]
pub(crate) fn consume(b: &mut BytesMut, n: usize)
    requires
        n <= bytes_of(*old(b)).len(),
    ensures
        bytes_of(*final(b)) == bytes_of(*old(b)).skip(n as int),
{
    b.advance(n)
}

/// Relies on `<BytesMut as BufMut>::remaining_mut`: the room left before the
/// buffer's capacity, which the allocator decides.
#[verifier::external_body]
pub(crate) fn room(b: &BytesMut) -> (r: usize) {
    bytes::BufMut::remaining_mut(b)
}

/// Relies on `BytesMut::extend_from_slice`: appends the bytes, growing the
/// buffer where needed.
#[verifier::external_body]
pub(crate) fn append(b: &mut BytesMut, s: &[u8])
    ensures
        bytes_of(*final(b)) == bytes_of(*old(b)) + s@,
{
    b.extend_from_slice(s)
}

} // verus!
