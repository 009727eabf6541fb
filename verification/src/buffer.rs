//! Byte buffers of the `bytes` crate, with the contracts that the rest of the
//! crate relies on.
//!
//! `BytesMut` is the growable buffer that a session accumulates bytes in and
//! `Bytes` is the immutable chunk that travels between the gateway's parts.
//! Both are opaque to the verifier: what they hold is named by
//! [`buffer_bytes`] and [`chunk_bytes`], and every function below states what
//! the corresponding method of the `bytes` crate does to those contents. None
//! of these contracts is proved.
//!
//! A buffer keeps its bytes in a `Vec`, which panics when asked for more than
//! `isize::MAX` bytes. The preconditions keep every length at or below that.

use bytes::{Bytes, BytesMut};
use vstd::prelude::*;

verus! {

#[verifier::external_type_specification]
#[verifier::external_body]
pub struct ExBytes(bytes::Bytes);

#[verifier::external_type_specification]
#[verifier::external_body]
pub struct ExBytesMut(bytes::BytesMut);

/// The bytes that a `Bytes` chunk holds, first to last.
pub uninterp spec fn chunk_bytes(chunk: Bytes) -> Seq<u8>;

/// The bytes that a `BytesMut` buffer holds, first to last.
pub uninterp spec fn buffer_bytes(buffer: BytesMut) -> Seq<u8>;

/// `BytesMut::with_capacity`: the new buffer holds no bytes, whatever the
/// capacity asked for. The method allocates a `Vec` of that capacity, which
/// panics beyond `isize::MAX`; the precondition rules that out.
#[verifier::external_body]
pub(crate) fn buffer_with_capacity(capacity: usize) -> (buffer: BytesMut)
    requires
        capacity <= isize::MAX,
    ensures
        buffer_bytes(buffer) == Seq::<u8>::empty(),
{
    BytesMut::with_capacity(capacity)
}

/// `BytesMut::len`: the number of bytes held.
#[verifier::external_body]
pub(crate) fn buffer_len(buffer: &BytesMut) -> (len: usize)
    ensures
        len == buffer_bytes(*buffer).len(),
{
    buffer.len()
}

/// `BytesMut::extend_from_slice`: every byte of the slice is appended in
/// order. The method reserves room first, which panics when the new length
/// is more than a `Vec` can hold; the precondition rules that out.
#[verifier::external_body]
pub(crate) fn buffer_extend(buffer: &mut BytesMut, data: &[u8])
    requires
        buffer_bytes(*old(buffer)).len() + data@.len() <= isize::MAX,
    ensures
        buffer_bytes(*final(buffer)) == buffer_bytes(*old(buffer)) + data@,
{
    buffer.extend_from_slice(data)
}

/// `BytesMut::take`: hands out everything the buffer holds and leaves the
/// buffer empty.
#[verifier::external_body]
pub(crate) fn buffer_take(buffer: &mut BytesMut) -> (taken: BytesMut)
    ensures
        buffer_bytes(taken) == buffer_bytes(*old(buffer)),
        buffer_bytes(*final(buffer)) == Seq::<u8>::empty(),
{
    buffer.take()
}

/// `BytesMut::freeze`: the immutable chunk holds the bytes the buffer held.
#[verifier::external_body]
pub(crate) fn buffer_freeze(buffer: BytesMut) -> (chunk: Bytes)
    ensures
        chunk_bytes(chunk) == buffer_bytes(buffer),
{
    buffer.freeze()
}

/// `AsRef::as_ref` of `Bytes`: the bytes held, as a slice.
#[verifier::external_body]
pub(crate) fn chunk_slice(chunk: &Bytes) -> (slice: &[u8])
    ensures
        slice@ == chunk_bytes(*chunk),
{
    chunk.as_ref()
}

/// `Bytes::len`: the number of bytes held.
#[verifier::external_body]
pub(crate) fn chunk_len(chunk: &Bytes) -> (len: usize)
    ensures
        len == chunk_bytes(*chunk).len(),
{
    chunk.len()
}

/// `Bytes::split_to`: returns the first `at` bytes and keeps the rest. The
/// method panics when `at` exceeds the length, which the precondition rules
/// out.
#[verifier::external_body]
pub(crate) fn chunk_split_to(chunk: &mut Bytes, at: usize) -> (head: Bytes)
    requires
        at <= chunk_bytes(*old(chunk)).len(),
    ensures
        chunk_bytes(head) == chunk_bytes(*old(chunk)).subrange(0, at as int),
        chunk_bytes(*final(chunk)) == chunk_bytes(*old(chunk)).subrange(
            at as int,
            chunk_bytes(*old(chunk)).len() as int,
        ),
{
    chunk.split_to(at)
}

} // verus!
