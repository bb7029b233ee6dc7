//! Trusted boundary to the `bytes` crate.
//!
//! Wire data enters and leaves the engine in `bytes::Bytes` and
//! `bytes::BytesMut` buffers, as the carriers hand them over. The two types
//! are opaque to the verifier; `bytes_view` and `bytes_mut_view` name the
//! byte sequence a buffer holds, and every wrapper below states what the
//! called method does to that sequence.

use vstd::prelude::*;

verus! {

#[verifier::external_type_specification]
#[verifier::external_body]
pub struct ExBytes(bytes::Bytes);

#[verifier::external_type_specification]
#[verifier::external_body]
pub struct ExBytesMut(bytes::BytesMut);

/// The byte sequence a `bytes::Bytes` buffer holds.
pub uninterp spec fn bytes_view(b: bytes::Bytes) -> Seq<u8>;

/// The byte sequence a `bytes::BytesMut` buffer holds.
pub uninterp spec fn bytes_mut_view(b: bytes::BytesMut) -> Seq<u8>;

/// Relies on `Bytes::len`: the number of bytes the buffer holds.
#[verifier::external_body]
pub fn bytes_len(b: &bytes::Bytes) -> (r: usize)
    ensures
        r == bytes_view(*b).len(),
{
    b.len()
}

/// Relies on `<Bytes as Deref>::deref` and `[u8]::to_vec`: a copy of the
/// bytes the buffer holds.
#[verifier::external_body]
pub fn bytes_to_vec(b: &bytes::Bytes) -> (r: Vec<u8>)
    ensures
        r@ == bytes_view(*b),
{
    b.to_vec()
}

/// Relies on `<Bytes as Buf>::advance`: drops the first `n` bytes of the
/// buffer. The method panics when `n` exceeds the length, so that is
/// excluded here.
#[verifier::external_body]
pub fn bytes_advance(b: &mut bytes::Bytes, n: usize)
    requires
        n <= bytes_view(*old(b)).len(),
    ensures
        bytes_view(*final(b)) == bytes_view(*old(b)).skip(n as int),
{
    bytes::Buf::advance(b, n)
}

/// Relies on `<Bytes as From<Vec<u8>>>::from`: the buffer holds exactly the
/// bytes of the vector.
#[verifier::external_body]
pub fn bytes_from_vec(v: Vec<u8>) -> (r: bytes::Bytes)
    ensures
        bytes_view(r) == v@,
{
    bytes::Bytes::from(v)
}

/// Relies on `BytesMut::new`: a fresh buffer holds no bytes.
#[verifier::external_body]
pub fn bytes_mut_new() -> (r: bytes::BytesMut)
    ensures
        bytes_mut_view(r) == Seq::<u8>::empty(),
{
    bytes::BytesMut::new()
}

/// Relies on `BytesMut::extend_from_slice`: appends the slice's bytes to
/// the end of the buffer.
#[verifier::external_body]
pub fn bytes_mut_extend(b: &mut bytes::BytesMut, v: &Vec<u8>)
    ensures
        bytes_mut_view(*final(b)) == bytes_mut_view(*old(b)) + v@,
{
    b.extend_from_slice(v.as_slice())
}

/// Relies on `<BytesMut as Deref>::deref` and `[u8]::to_vec`: a copy of the
/// bytes the buffer holds.
#[verifier::external_body]
pub fn bytes_mut_to_vec(b: &bytes::BytesMut) -> (r: Vec<u8>)
    ensures
        r@ == bytes_mut_view(*b),
{
    b.to_vec()
}

} // verus!
