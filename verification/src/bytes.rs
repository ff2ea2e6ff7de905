use vstd::prelude::*;

verus! {

/// The bytewise XOR of two equal-length byte sequences.
pub open spec fn xor_seq(a: Seq<u8>, b: Seq<u8>) -> Seq<u8>
    recommends
        a.len() == b.len(),
{
    Seq::new(a.len(), |i: int| a[i] ^ b[i])
}

/// XORing with the same sequence twice gives the original sequence back.
pub proof fn lemma_xor_involution(a: Seq<u8>, b: Seq<u8>)
    requires
        a.len() == b.len(),
    ensures
        xor_seq(xor_seq(a, b), b) == a,
{
    assert forall|i: int| 0 <= i < a.len() implies xor_seq(xor_seq(a, b), b)[i] == a[i] by {
        let x = a[i];
        let y = b[i];
        assert((x ^ y) ^ y == x) by (bit_vector);
    }
    assert(xor_seq(xor_seq(a, b), b) =~= a);
}

/// XOR two byte buffers of the same length, byte by byte.
pub fn xor_bufs(buf1: &[u8], buf2: &[u8]) -> (r: Vec<u8>)
    requires
        buf1@.len() == buf2@.len(),
    ensures
        r@ == xor_seq(buf1@, buf2@),
{
    let mut out: Vec<u8> = Vec::new();
    let mut i: usize = 0;
    while i < buf1.len()
        invariant
            buf1@.len() == buf2@.len(),
            i <= buf1@.len(),
            out@ == xor_seq(buf1@, buf2@).take(i as int),
        decreases buf1@.len() - i,
    {
        out.push(buf1[i] ^ buf2[i]);
        i = i + 1;
        assert(out@ =~= xor_seq(buf1@, buf2@).take(i as int));
    }
    assert(out@ =~= xor_seq(buf1@, buf2@));
    out
}

} // verus!
