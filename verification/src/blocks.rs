use vstd::prelude::*;

use vstd::arithmetic::div_mod::{lemma_basic_div, lemma_div_minus_one};

use crate::errors::AesCbcError;
use crate::padding::{pad_seq, pkcs7_pad, pkcs7_unpad, unpad_ok, unpad_seq, lemma_pad_round_trip};

verus! {

/// The views of a sequence of byte vectors.
pub open spec fn views_of(blocks: Seq<Vec<u8>>) -> Seq<Seq<u8>> {
    Seq::new(blocks.len(), |i: int| blocks[i]@)
}

/// Every block has exactly 16 bytes.
pub open spec fn all_len16(blocks: Seq<Seq<u8>>) -> bool {
    forall|i: int| 0 <= i < blocks.len() ==> #[trigger] blocks[i].len() == 16
}

/// A buffer split into 16-byte blocks: full chunks pass through unchanged
/// and the final short chunk (empty when the buffer is block-aligned) is
/// filled out with PKCS#7 padding, so the result is never empty.
pub open spec fn blocks_of(buf: Seq<u8>) -> Seq<Seq<u8>>
    decreases buf.len(),
{
    if buf.len() < 16 {
        seq![pad_seq(buf, 16)]
    } else {
        seq![buf.take(16)] + blocks_of(buf.skip(16))
    }
}

/// A block-aligned buffer split into exact 16-byte chunks, no padding.
pub open spec fn chunks16(buf: Seq<u8>) -> Seq<Seq<u8>>
    recommends
        buf.len() % 16 == 0,
    decreases buf.len(),
{
    if buf.len() < 16 {
        Seq::empty()
    } else {
        seq![buf.take(16)] + chunks16(buf.skip(16))
    }
}

/// Rejoining a block list succeeds when it is non-empty and its final block
/// carries well-formed padding.
pub open spec fn join_ok(blocks: Seq<Seq<u8>>) -> bool {
    blocks.len() > 0 && unpad_ok(blocks.last())
}

/// All blocks but the last concatenated verbatim, then the last one with its
/// padding stripped.
pub open spec fn join_seq(blocks: Seq<Seq<u8>>) -> Seq<u8>
    recommends
        join_ok(blocks),
{
    blocks.drop_last().flatten() + unpad_seq(blocks.last())
}

/// Splitting yields `len / 16 + 1` blocks of exactly 16 bytes each.
pub proof fn lemma_blocks_of_shape(buf: Seq<u8>)
    ensures
        blocks_of(buf).len() == buf.len() as int / 16 + 1,
        all_len16(blocks_of(buf)),
    decreases buf.len(),
{
    if buf.len() < 16 {
        lemma_basic_div(buf.len() as int, 16);
        assert(pad_seq(buf, 16).len() == 16);
    } else {
        lemma_blocks_of_shape(buf.skip(16));
        lemma_div_minus_one(buf.len() as int, 16);
        assert forall|i: int| 0 <= i < blocks_of(buf).len() implies #[trigger] blocks_of(
            buf,
        )[i].len() == 16 by {
            if i > 0 {
                assert(blocks_of(buf)[i] == blocks_of(buf.skip(16))[i - 1]);
                assert(all_len16(blocks_of(buf.skip(16))));
            }
        }
    }
}

/// Splitting a buffer and rejoining the blocks gives the buffer back.
pub proof fn lemma_join_blocks_of(buf: Seq<u8>)
    ensures
        join_ok(blocks_of(buf)),
        join_seq(blocks_of(buf)) == buf,
    decreases buf.len(),
{
    let blocks = blocks_of(buf);
    if buf.len() < 16 {
        lemma_pad_round_trip(buf);
        assert(blocks.drop_last() =~= Seq::<Seq<u8>>::empty());
        assert(blocks.drop_last().flatten() == Seq::<u8>::empty());
        assert(join_seq(blocks) =~= buf);
    } else {
        let h = buf.take(16);
        let rest = blocks_of(buf.skip(16));
        lemma_join_blocks_of(buf.skip(16));
        assert(blocks.last() == rest.last());
        assert(blocks.drop_last() =~= seq![h] + rest.drop_last());
        assert((seq![h] + rest.drop_last()).drop_first() =~= rest.drop_last());
        assert((seq![h] + rest.drop_last()).flatten() == h + rest.drop_last().flatten());
        assert(join_seq(blocks) =~= h + join_seq(rest));
        assert(join_seq(blocks) =~= buf);
    }
}

/// A concatenation of 16-byte blocks has length `16 * count`, and cutting it
/// back into 16-byte chunks recovers exactly the original blocks.
pub proof fn lemma_chunks16_flatten(blocks: Seq<Seq<u8>>)
    requires
        all_len16(blocks),
    ensures
        blocks.flatten().len() == 16 * blocks.len(),
        chunks16(blocks.flatten()) == blocks,
    decreases blocks.len(),
{
    if blocks.len() == 0 {
        assert(chunks16(blocks.flatten()) =~= blocks);
    } else {
        let h = blocks.first();
        let t = blocks.drop_first();
        assert(h.len() == 16);
        assert forall|i: int| 0 <= i < t.len() implies #[trigger] t[i].len() == 16 by {
            assert(t[i] == blocks[i + 1]);
        }
        lemma_chunks16_flatten(t);
        let f = blocks.flatten();
        assert(f == h + t.flatten());
        assert(f.take(16) =~= h);
        assert(f.skip(16) =~= t.flatten());
        assert(chunks16(f) == seq![h] + chunks16(t.flatten()));
        assert(chunks16(f) =~= blocks);
    }
}

/// Append every byte of `piece` to `out`.
pub(crate) fn append_bytes(out: &mut Vec<u8>, piece: &[u8])
    ensures
        final(out)@ == old(out)@ + piece@,
{
    let mut k: usize = 0;
    while k < piece.len()
        invariant
            k <= piece@.len(),
            out@ == old(out)@ + piece@.take(k as int),
        decreases piece@.len() - k,
    {
        out.push(piece[k]);
        k = k + 1;
        assert(out@ =~= old(out)@ + piece@.take(k as int));
    }
    assert(out@ =~= old(out)@ + piece@);
}

/// Concatenate all blocks into one buffer.
pub(crate) fn concat_blocks(blocks: &Vec<Vec<u8>>) -> (r: Vec<u8>)
    ensures
        r@ == views_of(blocks@).flatten(),
{
    let mut out: Vec<u8> = Vec::new();
    let mut i: usize = 0;
    proof {
        assert(views_of(blocks@).take(0) =~= Seq::<Seq<u8>>::empty());
        assert(out@ =~= views_of(blocks@).take(0).flatten());
    }
    while i < blocks.len()
        invariant
            i <= blocks@.len(),
            out@ == views_of(blocks@).take(i as int).flatten(),
        decreases blocks@.len() - i,
    {
        append_bytes(&mut out, blocks[i].as_slice());
        proof {
            let vs = views_of(blocks@);
            assert(vs.take(i as int + 1) =~= vs.take(i as int).push(blocks@[i as int]@));
            vs.take(i as int).lemma_flatten_push(blocks@[i as int]@);
        }
        i = i + 1;
    }
    proof {
        assert(views_of(blocks@).take(blocks@.len() as int) =~= views_of(blocks@));
    }
    out
}

/// Split a buffer into blocks of `block_size` (always 16) bytes, PKCS#7
/// padding the final short chunk; a block-aligned buffer (the empty one
/// included) gains one extra all-padding block.
pub fn buf_to_blocks(buf: &[u8], block_size: usize) -> (r: Vec<Vec<u8>>)
    requires
        block_size == 16,
    ensures
        views_of(r@) == blocks_of(buf@),
        r@.len() == buf@.len() as int / 16 + 1,
        forall|i: int| 0 <= i < r@.len() ==> #[trigger] r@[i]@.len() == 16,
{
    let n = buf.len();
    let mut blocks: Vec<Vec<u8>> = Vec::new();
    let mut i: usize = 0;
    proof {
        assert(views_of(blocks@) =~= Seq::<Seq<u8>>::empty());
        assert(buf@.skip(0) =~= buf@);
        assert(views_of(blocks@) + blocks_of(buf@.skip(0)) =~= blocks_of(buf@));
    }
    while n - i >= 16
        invariant
            n == buf@.len(),
            i <= n,
            views_of(blocks@) + blocks_of(buf@.skip(i as int)) == blocks_of(buf@),
        decreases n - i,
    {
        let chunk = vstd::slice::slice_to_vec(vstd::slice::slice_subrange(buf, i, i + 16));
        proof {
            let pre = buf@.skip(i as int);
            assert(pre.take(16) =~= chunk@);
            assert(pre.skip(16) =~= buf@.skip(i as int + 16));
            assert(views_of(blocks@.push(chunk)) =~= views_of(blocks@) + seq![chunk@]);
            assert((views_of(blocks@) + seq![chunk@]) + blocks_of(buf@.skip(i as int + 16)) =~= views_of(
                blocks@,
            ) + (seq![pre.take(16)] + blocks_of(pre.skip(16))));
        }
        blocks.push(chunk);
        i = i + 16;
    }
    let tail = vstd::slice::slice_to_vec(vstd::slice::slice_subrange(buf, i, n));
    proof {
        assert(tail@ =~= buf@.skip(i as int));
    }
    let padded = pkcs7_pad(tail.as_slice(), block_size);
    proof {
        assert(blocks_of(buf@.skip(i as int)) =~= seq![padded@]);
        assert(views_of(blocks@.push(padded)) =~= views_of(blocks@) + seq![padded@]);
        assert(views_of(blocks@.push(padded)) =~= blocks_of(buf@));
        lemma_blocks_of_shape(buf@);
    }
    blocks.push(padded);
    assert forall|j: int| 0 <= j < blocks@.len() implies #[trigger] blocks@[j]@.len() == 16 by {
        assert(views_of(blocks@)[j] == blocks@[j]@);
        assert(all_len16(blocks_of(buf@)));
    }
    blocks
}

/// Rejoin blocks into one buffer: all but the last verbatim, the last one
/// through `pkcs7_unpad`, whose `InvalidPadding` failure is passed through.
pub fn blocks_to_buf(blocks: Vec<Vec<u8>>) -> (r: Result<Vec<u8>, AesCbcError>)
    ensures
        join_ok(views_of(blocks@)) ==> r is Ok && r->Ok_0@ == join_seq(views_of(blocks@)),
        !join_ok(views_of(blocks@)) ==> r == Err::<Vec<u8>, AesCbcError>(
            AesCbcError::InvalidPadding,
        ),
{
    let m = blocks.len();
    if m == 0 {
        return Err(AesCbcError::InvalidPadding);
    }
    let mut out: Vec<u8> = Vec::new();
    let mut i: usize = 0;
    while i < m - 1
        invariant
            m == blocks@.len(),
            0 < m,
            i <= m - 1,
            out@ == views_of(blocks@).take(i as int).flatten(),
        decreases m - i,
    {
        append_bytes(&mut out, blocks[i].as_slice());
        proof {
            let vs = views_of(blocks@);
            assert(vs.take(i as int + 1) =~= vs.take(i as int).push(blocks@[i as int]@));
            vs.take(i as int).lemma_flatten_push(blocks@[i as int]@);
        }
        i = i + 1;
    }
    match pkcs7_unpad(blocks[m - 1].as_slice()) {
        Ok(stripped) => {
            append_bytes(&mut out, stripped.as_slice());
            proof {
                let vs = views_of(blocks@);
                assert(vs.drop_last() =~= vs.take(m - 1));
                assert(vs.last() == blocks@[m - 1]@);
            }
            Ok(out)
        },
        Err(e) => Err(e),
    }
}

} // verus!
