//! Byte buffers of the `bytes` crate, as verified code sees them.
use bytes::Bytes;
use vstd::prelude::*;

verus! {

/// `bytes::Bytes`: a shared, immutable run of bytes.
#[verifier::external_type_specification]
#[verifier::external_body]
pub struct ExBytes(bytes::Bytes);

/// The bytes that a buffer holds, in order.
pub uninterp spec fn bytes_view(b: &Bytes) -> Seq<u8>;

/// `Clone::clone` of `Bytes`: another handle on the same bytes.
pub assume_specification[ <Bytes as Clone>::clone ](b: &Bytes) -> (r: Bytes)
    ensures
        bytes_view(&r) == bytes_view(b),
;

/// `Bytes::len`: the number of bytes that the buffer holds.
#[verifier::external_body]
pub(crate) fn bytes_len(b: &Bytes) -> (n: usize)
    ensures
        n == bytes_view(b).len(),
{
    b.len()
}

/// The slice that `Bytes` dereferences to, copied by `to_vec`: the bytes
/// that the buffer holds.
#[verifier::external_body]
pub(crate) fn bytes_to_vec(b: &Bytes) -> (v: Vec<u8>)
    ensures
        v@ == bytes_view(b),
{
    b.to_vec()
}

/// `Bytes::from` a vector: a buffer that holds the vector's bytes.
#[verifier::external_body]
pub(crate) fn bytes_from_vec(v: Vec<u8>) -> (b: Bytes)
    ensures
        bytes_view(&b) == v@,
{
    Bytes::from(v)
}

/// The bytes of `v` from position `start` on.
pub fn tail_from(v: &Vec<u8>, start: usize) -> (r: Vec<u8>)
    requires
        start <= v@.len(),
    ensures
        r@ == v@.skip(start as int),
{
    let mut r: Vec<u8> = Vec::new();
    let mut i: usize = start;
    while i < v.len()
        invariant
            start <= i <= v.len(),
            r@ == v@.subrange(start as int, i as int),
        decreases v.len() - i,
    {
        r.push(v[i]);
        i = i + 1;
        assert(r@ =~= v@.subrange(start as int, i as int));
    }
    assert(v@.subrange(start as int, v@.len() as int) =~= v@.skip(start as int));
    r
}

} // verus!
