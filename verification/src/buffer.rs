//! The receive and send queues are `bytes::BytesMut` buffers. Verus does not
//! read that crate, so this module names what a buffer holds and states what
//! the few operations used here do to it.

use bytes::Buf;
use bytes::BytesMut;
use vstd::prelude::*;

verus! {

/// `bytes::BytesMut`, taken as it is: nothing inside a buffer is visible
/// here but what `buffered` names.
#[verifier::external_type_specification]
#[verifier::external_body]
pub struct ExBytesMut(BytesMut);

/// The bytes that a buffer holds, front first.
pub uninterp spec fn buffered(buf: BytesMut) -> Seq<u8>;

/// `BytesMut::as_ref`: the buffer's bytes as a slice, all of them and in
/// order.
#[verifier::external_body]
pub(crate) fn buffer_bytes(buf: &BytesMut) -> (bytes: &[u8])
    ensures
        bytes@ == buffered(*buf),
{
    buf.as_ref()
}

/// `Buf::advance` on a `BytesMut`: drops the first `count` bytes and keeps
/// the rest. The crate panics when `count` exceeds what is buffered, so that
/// is ruled out.
#[verifier::external_body]
pub(crate) fn buffer_advance(buf: &mut BytesMut, count: usize)
    requires
        count <= buffered(*old(buf)).len(),
    ensures
        buffered(*final(buf)) == buffered(*old(buf)).skip(count as int),
{
    buf.advance(count)
}

/// `BytesMut::extend_from_slice`: appends the given bytes behind those
/// already buffered.
#[verifier::external_body]
pub(crate) fn buffer_extend(buf: &mut BytesMut, bytes: &[u8])
    ensures
        buffered(*final(buf)) == buffered(*old(buf)) + bytes@,
{
    buf.extend_from_slice(bytes)
}

} // verus!
