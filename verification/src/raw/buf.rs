//! Chunks of bytes as `bytes::Bytes`, with the few facts about them that the
//! adapters rest on.

use vstd::prelude::*;

verus! {

/// `bytes::Bytes`: a chunk of bytes that is cheap to hand on. Nothing is
/// known of a chunk but what the items below say.
#[verifier::external_type_specification]
#[verifier::external_body]
pub struct ExBytes(bytes::Bytes);

/// The bytes that a chunk holds, in order.
pub uninterp spec fn bytes_contents(b: bytes::Bytes) -> Seq<u8>;

/// The number of bytes in a chunk. Wraps `Bytes::len`, which returns the
/// length of the slice that the chunk stands for.
#[verifier::external_body]
pub(crate) fn bytes_len(b: &bytes::Bytes) -> (n: usize)
    ensures
        n == bytes_contents(*b).len(),
{
    b.len()
}

/// A chunk that holds the bytes of `v`. Wraps `Bytes::from` for `Vec<u8>`,
/// which takes the vector's buffer over without changing a byte.
#[verifier::external_body]
pub(crate) fn bytes_from_vec(v: Vec<u8>) -> (b: bytes::Bytes)
    ensures
        bytes_contents(b) == v@,
{
    bytes::Bytes::from(v)
}

} // verus!
