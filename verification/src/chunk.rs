//! Reference-counted byte buffers, backed by `bytes::Bytes`.
//!
//! A compressed chunk or a PCM buffer is produced once and then shared by
//! every consumer without copying.  The crate keeps the outside type and
//! reasons about it through `chunk_bytes`, the sequence of bytes a buffer
//! holds.

use vstd::prelude::*;

verus! {

#[verifier::external_type_specification]
#[verifier::external_body]
pub struct ExBytes(bytes::Bytes);

/// The bytes a `bytes::Bytes` buffer holds, in order.
pub uninterp spec fn chunk_bytes(b: bytes::Bytes) -> Seq<u8>;

/// Relies on `bytes::Bytes::copy_from_slice`: the new buffer holds a copy
/// of the slice.
#[verifier::external_body]
pub fn chunk_from_vec(data: &Vec<u8>) -> (b: bytes::Bytes)
    ensures
        chunk_bytes(b) == data@,
{
    bytes::Bytes::copy_from_slice(data.as_slice())
}

/// Relies on `bytes::Bytes::len`: the length of the buffer's contents.
#[verifier::external_body]
pub fn chunk_len(b: &bytes::Bytes) -> (n: usize)
    ensures
        n == chunk_bytes(*b).len(),
{
    b.len()
}

} // verus!
