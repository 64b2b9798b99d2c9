//! Fixed-capacity byte buffers of the `heapless_bytes` crate, as the library sees them.
use vstd::prelude::*;

verus! {

/// A buffer of at most `N` bytes.
#[verifier::external_type_specification]
#[verifier::external_body]
pub struct ExBytes<const N: usize>(heapless_bytes::Bytes<N>);

/// The bytes that a 32-byte buffer holds, in order.
pub uninterp spec fn content32(b: heapless_bytes::Bytes<32>) -> Seq<u8>;

/// Relies on `heapless_bytes::Bytes::from_slice`: it copies the slice when it
/// fits in the capacity, and fails otherwise.
#[verifier::external_body]
pub(crate) fn bytes32_from_slice(s: &[u8]) -> (r: Result<heapless_bytes::Bytes<32>, ()>)
    ensures
        r is Ok <==> s@.len() <= 32,
        r is Ok ==> content32(r->Ok_0) == s@,
{
    heapless_bytes::Bytes::<32>::from_slice(s)
}

/// Relies on `heapless_bytes::Bytes::as_slice`: the bytes held, at most the capacity.
#[verifier::external_body]
pub(crate) fn bytes32_as_slice(b: &heapless_bytes::Bytes<32>) -> (r: &[u8])
    ensures
        r@ == content32(*b),
        r@.len() <= 32,
{
    b.as_slice()
}

/// The bytes that a 1312-byte buffer holds, in order.
pub uninterp spec fn content1312(b: heapless_bytes::Bytes<1312>) -> Seq<u8>;

/// Relies on `heapless_bytes::Bytes::from_slice`: it copies the slice when it
/// fits in the capacity, and fails otherwise.
#[verifier::external_body]
pub(crate) fn bytes1312_from_slice(s: &[u8]) -> (r: Result<heapless_bytes::Bytes<1312>, ()>)
    ensures
        r is Ok <==> s@.len() <= 1312,
        r is Ok ==> content1312(r->Ok_0) == s@,
{
    heapless_bytes::Bytes::<1312>::from_slice(s)
}

/// Relies on `heapless_bytes::Bytes::as_slice`: the bytes held, at most the capacity.
#[verifier::external_body]
pub(crate) fn bytes1312_as_slice(b: &heapless_bytes::Bytes<1312>) -> (r: &[u8])
    ensures
        r@ == content1312(*b),
        r@.len() <= 1312,
{
    b.as_slice()
}

/// The bytes that a 1952-byte buffer holds, in order.
pub uninterp spec fn content1952(b: heapless_bytes::Bytes<1952>) -> Seq<u8>;

/// Relies on `heapless_bytes::Bytes::from_slice`: it copies the slice when it
/// fits in the capacity, and fails otherwise.
#[verifier::external_body]
pub(crate) fn bytes1952_from_slice(s: &[u8]) -> (r: Result<heapless_bytes::Bytes<1952>, ()>)
    ensures
        r is Ok <==> s@.len() <= 1952,
        r is Ok ==> content1952(r->Ok_0) == s@,
{
    heapless_bytes::Bytes::<1952>::from_slice(s)
}

/// Relies on `heapless_bytes::Bytes::as_slice`: the bytes held, at most the capacity.
#[verifier::external_body]
pub(crate) fn bytes1952_as_slice(b: &heapless_bytes::Bytes<1952>) -> (r: &[u8])
    ensures
        r@ == content1952(*b),
        r@.len() <= 1952,
{
    b.as_slice()
}

/// The bytes that a 2592-byte buffer holds, in order.
pub uninterp spec fn content2592(b: heapless_bytes::Bytes<2592>) -> Seq<u8>;

/// Relies on `heapless_bytes::Bytes::from_slice`: it copies the slice when it
/// fits in the capacity, and fails otherwise.
#[verifier::external_body]
pub(crate) fn bytes2592_from_slice(s: &[u8]) -> (r: Result<heapless_bytes::Bytes<2592>, ()>)
    ensures
        r is Ok <==> s@.len() <= 2592,
        r is Ok ==> content2592(r->Ok_0) == s@,
{
    heapless_bytes::Bytes::<2592>::from_slice(s)
}

/// Relies on `heapless_bytes::Bytes::as_slice`: the bytes held, at most the capacity.
#[verifier::external_body]
pub(crate) fn bytes2592_as_slice(b: &heapless_bytes::Bytes<2592>) -> (r: &[u8])
    ensures
        r@ == content2592(*b),
        r@.len() <= 2592,
{
    b.as_slice()
}

/// Relies on the `Clone` of `heapless_bytes::Bytes`, which the derived
/// `Clone` of the key types calls; nothing is assumed of the copy.
pub assume_specification<const N: usize>[ <heapless_bytes::Bytes<N> as core::clone::Clone>::clone ](
    b: &heapless_bytes::Bytes<N>,
) -> heapless_bytes::Bytes<N>;

/// A second buffer with the same bytes.
pub fn copy32(b: &heapless_bytes::Bytes<32>) -> (r: heapless_bytes::Bytes<32>)
    ensures
        content32(r) == content32(*b),
{
    bytes32_from_slice(bytes32_as_slice(b)).unwrap()
}

} // verus!
