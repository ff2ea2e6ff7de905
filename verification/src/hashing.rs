use vstd::prelude::*;

use ripemd::{Digest, Ripemd160};

verus! {

/// What RIPEMD-160 digests a byte sequence to: 20 bytes, a function of the
/// input alone.
pub uninterp spec fn ripemd160_of(data: Seq<u8>) -> Seq<u8>;

/// Relies on ripemd::Ripemd160 through Digest::digest: the 160-bit digest
/// depends on the input bytes alone.
#[verifier::external_body]
fn ripemd160_digest(data: &[u8]) -> (r: Vec<u8>)
    ensures
        r@ == ripemd160_of(data@),
        r@.len() == 20,
{
    Ripemd160::digest(data).to_vec()
}

/// The RIPEMD-160 hash of a byte slice: always a 20-byte digest.
pub fn ripemd160_hash(data: &[u8]) -> (r: Result<Vec<u8>, String>)
    ensures
        r is Ok,
        r->Ok_0@ == ripemd160_of(data@),
        r->Ok_0@.len() == 20,
{
    Ok(ripemd160_digest(data))
}

/// RIPEMD-160 applied twice: the digest of the digest.
pub fn double_ripemd160_hash(data: &[u8]) -> (r: Result<Vec<u8>, String>)
    ensures
        r is Ok,
        r->Ok_0@ == ripemd160_of(ripemd160_of(data@)),
        r->Ok_0@.len() == 20,
{
    let first = match ripemd160_hash(data) {
        Ok(v) => v,
        Err(e) => {
            return Err(e);
        },
    };
    ripemd160_hash(first.as_slice())
}

} // verus!
