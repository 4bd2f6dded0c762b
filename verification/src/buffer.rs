//! Byte buffers of the `bytes` crate, as the codecs see them.
//!
//! `BytesMut` is an outside type: Verus cannot look inside it, so what a
//! buffer holds is named by `bytes_of`, and each method the codecs call has a
//! small trusted wrapper whose contract says, over that name, what the method
//! does to the bytes.

use vstd::prelude::*;
use bytes::BytesMut;

verus! {

#[verifier::external_type_specification]
#[verifier::external_body]
pub struct ExBytesMut(BytesMut);

/// The bytes a `BytesMut` holds, first to last.
pub uninterp spec fn bytes_of(b: BytesMut) -> Seq<u8>;

/// `<BytesMut as Clone>::clone`: a new buffer holding a copy of the bytes.
pub assume_specification[ <BytesMut as Clone>::clone ](b: &BytesMut) -> (r: BytesMut)
    ensures
        bytes_of(r) == bytes_of(*b),
;

/// `BytesMut::new`: an empty buffer.
#[verifier::external_body]
pub(crate) fn new_bytes() -> (r: BytesMut)
    ensures
        bytes_of(r) == Seq::<u8>::empty(),
{
    BytesMut::new()
}

/// `BytesMut::len`: the number of bytes held.
#[verifier::external_body]
pub(crate) fn bytes_len(b: &BytesMut) -> (r: usize)
    ensures
        r == bytes_of(*b).len(),
{
    b.len()
}

/// Indexing a `BytesMut` (through its `Deref` to `[u8]`): the byte at `i`.
#[verifier::external_body]
pub(crate) fn byte_at(b: &BytesMut, i: usize) -> (r: u8)
    requires
        i < bytes_of(*b).len(),
    ensures
        r == bytes_of(*b)[i as int],
{
    b[i]
}

/// `BytesMut::split_to`: the first `at` bytes are handed out, the rest stay.
#[verifier::external_body]
pub(crate) fn split_bytes_to(b: &mut BytesMut, at: usize) -> (r: BytesMut)
    requires
        at <= bytes_of(*old(b)).len(),
    ensures
        bytes_of(r) == bytes_of(*old(b)).take(at as int),
        bytes_of(*final(b)) == bytes_of(*old(b)).skip(at as int),
{
    b.split_to(at)
}

/// `BytesMut::extend_from_slice`: the slice is appended.
#[verifier::external_body]
pub(crate) fn extend_bytes(b: &mut BytesMut, s: &[u8])
    ensures
        bytes_of(*final(b)) == bytes_of(*old(b)) + s@,
{
    b.extend_from_slice(s)
}

/// `BytesMut::from(&[u8])`: a buffer holding a copy of the slice.
#[verifier::external_body]
pub(crate) fn bytes_from_slice(s: &[u8]) -> (r: BytesMut)
    ensures
        bytes_of(r) == s@,
{
    BytesMut::from(s)
}

/// Dereferencing a `BytesMut` to the slice of its bytes.
#[verifier::external_body]
pub(crate) fn bytes_as_slice(b: &BytesMut) -> (r: &[u8])
    ensures
        r@ == bytes_of(*b),
{
    &b[..]
}

/// `Vec::<u8>::from(BytesMut)`: the bytes, as a vector.
#[verifier::external_body]
pub(crate) fn bytes_into_vec(b: BytesMut) -> (r: Vec<u8>)
    ensures
        r@ == bytes_of(b),
{
    Vec::from(b)
}

} // verus!
