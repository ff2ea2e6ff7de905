use vstd::prelude::*;

use crate::errors::AesCbcError;

verus! {

/// `buf` followed by `bs - len(buf)` pad bytes, each holding the pad count,
/// as PKCS#7 prescribes for a buffer shorter than the block size.
pub open spec fn pad_seq(buf: Seq<u8>, bs: int) -> Seq<u8>
    recommends
        buf.len() < bs,
{
    buf + Seq::new((bs - buf.len()) as nat, |_i: int| (bs - buf.len()) as u8)
}

/// Well-formed PKCS#7 padding for 16-byte blocks: the buffer is non-empty,
/// block-aligned, its final byte `p` is in 1..=len, and the last `p` bytes
/// all equal `p`.
pub open spec fn unpad_ok(buf: Seq<u8>) -> bool {
    &&& buf.len() > 0
    &&& buf.len() % 16 == 0
    &&& 1 <= buf.last() as int <= buf.len()
    &&& forall|j: int| buf.len() - buf.last() as int <= j < buf.len() ==> buf[j] == buf.last()
}

/// The buffer with its trailing pad bytes removed.
pub open spec fn unpad_seq(buf: Seq<u8>) -> Seq<u8>
    recommends
        unpad_ok(buf),
{
    buf.take(buf.len() - buf.last() as int)
}

/// Padding a short buffer to one block always yields well-formed padding,
/// and unpadding gives the original buffer back.
pub proof fn lemma_pad_round_trip(buf: Seq<u8>)
    requires
        buf.len() < 16,
    ensures
        pad_seq(buf, 16).len() == 16,
        unpad_ok(pad_seq(buf, 16)),
        unpad_seq(pad_seq(buf, 16)) == buf,
{
    let p = pad_seq(buf, 16);
    let n = buf.len() as int;
    assert(p.len() == 16);
    assert(p.last() == (16 - n) as u8);
    assert(forall|j: int| n <= j < 16 ==> p[j] == (16 - n) as u8);
    assert(unpad_seq(p) =~= buf);
}

/// Append PKCS#7 padding to a buffer shorter than one block, filling it out
/// to exactly one block of `block_size` (always 16) bytes.
pub fn pkcs7_pad(buf: &[u8], block_size: usize) -> (r: Vec<u8>)
    requires
        block_size == 16,
        buf@.len() < block_size,
    ensures
        r@ == pad_seq(buf@, block_size as int),
        r@.len() == block_size,
{
    let mut out = vstd::slice::slice_to_vec(buf);
    let pad_size = block_size - buf.len();
    let mut k: usize = 0;
    while k < pad_size
        invariant
            buf@.len() < 16,
            pad_size == 16 - buf@.len(),
            k <= pad_size,
            out@ == buf@ + Seq::new(k as nat, |_i: int| pad_size as u8),
        decreases pad_size - k,
    {
        out.push(pad_size as u8);
        k = k + 1;
        assert(out@ =~= buf@ + Seq::new(k as nat, |_i: int| pad_size as u8));
    }
    assert(out@ =~= pad_seq(buf@, block_size as int));
    out
}

/// Strip PKCS#7 padding. Returns `InvalidPadding` when the buffer is empty
/// or not block-aligned, when the final byte is 0 or larger than the buffer,
/// or when any of the trailing pad bytes disagrees with the final byte.
pub fn pkcs7_unpad(padded_buf: &[u8]) -> (r: Result<Vec<u8>, AesCbcError>)
    ensures
        unpad_ok(padded_buf@) ==> r is Ok && r->Ok_0@ == unpad_seq(padded_buf@),
        !unpad_ok(padded_buf@) ==> r == Err::<Vec<u8>, AesCbcError>(AesCbcError::InvalidPadding),
{
    let n = padded_buf.len();
    if n == 0 || n % 16 != 0 {
        return Err(AesCbcError::InvalidPadding);
    }
    let last = padded_buf[n - 1];
    let pad = last as usize;
    if pad == 0 || pad > n {
        return Err(AesCbcError::InvalidPadding);
    }
    let mut i: usize = n - pad;
    while i < n
        invariant
            n == padded_buf@.len(),
            0 < n,
            last == padded_buf@.last(),
            pad == last as usize,
            1 <= pad <= n,
            n - pad <= i <= n,
            forall|j: int| n - pad <= j < i ==> padded_buf@[j] == padded_buf@.last(),
        decreases n - i,
    {
        if padded_buf[i] != last {
            return Err(AesCbcError::InvalidPadding);
        }
        i = i + 1;
    }
    let out = vstd::slice::slice_to_vec(vstd::slice::slice_subrange(padded_buf, 0, n - pad));
    Ok(out)
}

} // verus!
