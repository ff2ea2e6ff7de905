use vstd::prelude::*;

use vstd::arithmetic::div_mod::{
    lemma_fundamental_div_mod, lemma_mod_multiples_basic, lemma_mod_sub_multiples_vanish,
    lemma_small_mod,
};

use crate::blocks::{
    all_len16, blocks_of, blocks_to_buf, buf_to_blocks, chunks16, join_ok, join_seq,
    lemma_blocks_of_shape, lemma_chunks16_flatten, lemma_join_blocks_of, views_of,
};
use crate::bytes::{lemma_xor_involution, xor_bufs, xor_seq};
use crate::cipher::{decipher, decrypt_one_block, encipher, encrypt_one_block, valid_key_len};
use crate::errors::AesCbcError;

verus! {

/// The CBC chaining state once the given blocks have gone by: the last of
/// them, or the seed state while none have.
pub open spec fn last_or(st: Seq<u8>, blocks: Seq<Seq<u8>>) -> Seq<u8> {
    if blocks.len() == 0 {
        st
    } else {
        blocks.last()
    }
}

/// The CBC encryption recurrence: each plaintext block is XORed with the
/// running state (initially the IV) and then enciphered, and the ciphertext
/// block just produced becomes the next state.
pub open spec fn cbc_encrypt_chain(key: Seq<u8>, st: Seq<u8>, blocks: Seq<Seq<u8>>) -> Seq<Seq<u8>>
    decreases blocks.len(),
{
    if blocks.len() == 0 {
        Seq::empty()
    } else {
        let e = encipher(key, xor_seq(blocks.first(), st));
        seq![e] + cbc_encrypt_chain(key, e, blocks.drop_first())
    }
}

/// The CBC decryption recurrence: each ciphertext block is deciphered and
/// then XORed with the running state (initially the IV), and the raw
/// ciphertext block just consumed - not its decryption - becomes the next
/// state.
pub open spec fn cbc_decrypt_chain(key: Seq<u8>, st: Seq<u8>, cblocks: Seq<Seq<u8>>) -> Seq<Seq<u8>>
    decreases cblocks.len(),
{
    if cblocks.len() == 0 {
        Seq::empty()
    } else {
        let d = xor_seq(decipher(key, cblocks.first()), st);
        seq![d] + cbc_decrypt_chain(key, cblocks.first(), cblocks.drop_first())
    }
}

/// The encryption chain emits exactly one ciphertext block per input block.
pub proof fn lemma_encrypt_chain_len(key: Seq<u8>, st: Seq<u8>, blocks: Seq<Seq<u8>>)
    ensures
        cbc_encrypt_chain(key, st, blocks).len() == blocks.len(),
    decreases blocks.len(),
{
    if blocks.len() > 0 {
        let e = encipher(key, xor_seq(blocks.first(), st));
        lemma_encrypt_chain_len(key, e, blocks.drop_first());
    }
}

/// Extending the input of the encryption chain by one block appends one
/// ciphertext block, enciphered against the chain's final state.
pub proof fn lemma_encrypt_chain_push(key: Seq<u8>, st: Seq<u8>, blocks: Seq<Seq<u8>>, b: Seq<u8>)
    ensures
        cbc_encrypt_chain(key, st, blocks.push(b)) == cbc_encrypt_chain(key, st, blocks).push(
            encipher(key, xor_seq(b, last_or(st, cbc_encrypt_chain(key, st, blocks)))),
        ),
    decreases blocks.len(),
{
    if blocks.len() == 0 {
        let e = encipher(key, xor_seq(b, st));
        assert(blocks.push(b).first() == b);
        assert(blocks.push(b).drop_first() =~= Seq::<Seq<u8>>::empty());
        assert(cbc_encrypt_chain(key, e, blocks.push(b).drop_first()) =~= Seq::<Seq<u8>>::empty());
        assert(cbc_encrypt_chain(key, st, blocks.push(b)) =~= cbc_encrypt_chain(
            key,
            st,
            blocks,
        ).push(e));
    } else {
        let h = blocks.first();
        let e = encipher(key, xor_seq(h, st));
        let t = blocks.drop_first();
        assert(blocks.push(b).first() == h);
        assert(blocks.push(b).drop_first() =~= t.push(b));
        lemma_encrypt_chain_push(key, e, t, b);
        let inner = cbc_encrypt_chain(key, e, t);
        let q = encipher(key, xor_seq(b, last_or(e, inner)));
        assert(cbc_encrypt_chain(key, st, blocks.push(b)) == seq![e] + inner.push(q));
        assert(cbc_encrypt_chain(key, st, blocks) == seq![e] + inner);
        assert(last_or(st, seq![e] + inner) == last_or(e, inner));
        assert(seq![e] + inner.push(q) =~= (seq![e] + inner).push(q));
    }
}

/// Extending the input of the decryption chain by one block appends one
/// plaintext block, deciphered and XORed against the last raw input block.
pub proof fn lemma_decrypt_chain_push(key: Seq<u8>, st: Seq<u8>, cs: Seq<Seq<u8>>, c: Seq<u8>)
    ensures
        cbc_decrypt_chain(key, st, cs.push(c)) == cbc_decrypt_chain(key, st, cs).push(
            xor_seq(decipher(key, c), last_or(st, cs)),
        ),
    decreases cs.len(),
{
    if cs.len() == 0 {
        let d = xor_seq(decipher(key, c), st);
        assert(cs.push(c).first() == c);
        assert(cs.push(c).drop_first() =~= Seq::<Seq<u8>>::empty());
        assert(cbc_decrypt_chain(key, c, cs.push(c).drop_first()) =~= Seq::<Seq<u8>>::empty());
        assert(cbc_decrypt_chain(key, st, cs.push(c)) =~= cbc_decrypt_chain(key, st, cs).push(d));
    } else {
        let h = cs.first();
        let d = xor_seq(decipher(key, h), st);
        let t = cs.drop_first();
        assert(cs.push(c).first() == h);
        assert(cs.push(c).drop_first() =~= t.push(c));
        lemma_decrypt_chain_push(key, h, t, c);
        let inner = cbc_decrypt_chain(key, h, t);
        let q = xor_seq(decipher(key, c), last_or(h, t));
        assert(cbc_decrypt_chain(key, st, cs.push(c)) == seq![d] + inner.push(q));
        assert(cbc_decrypt_chain(key, st, cs) == seq![d] + inner);
        assert(last_or(h, t) == last_or(st, cs));
        assert(seq![d] + inner.push(q) =~= (seq![d] + inner).push(q));
    }
}

/// CBC round trip: when the cipher capability inverts the encryption chain
/// blockwise - which `encrypt_aescbc` guarantees of its own output - the
/// decryption chain over the emitted ciphertext recovers the padded blocks,
/// whose rejoining gives the plaintext back.
pub proof fn lemma_cbc_round_trip(p: Seq<u8>, key: Seq<u8>, iv: Seq<u8>)
    requires
        valid_key_len(key),
        iv.len() == 16,
        all_len16(cbc_encrypt_chain(key, iv, blocks_of(p))),
        cbc_decrypt_chain(key, iv, cbc_encrypt_chain(key, iv, blocks_of(p))) == blocks_of(p),
    ensures
        ({
            let c = cbc_encrypt_chain(key, iv, blocks_of(p)).flatten();
            let pb = cbc_decrypt_chain(key, iv, chunks16(c));
            &&& c.len() % 16 == 0
            &&& c.len() >= 16
            &&& c.len() == p.len() + 16 - p.len() % 16
            &&& join_ok(pb)
            &&& join_seq(pb) == p
        }),
{
    let chain = cbc_encrypt_chain(key, iv, blocks_of(p));
    let c = chain.flatten();
    lemma_blocks_of_shape(p);
    lemma_encrypt_chain_len(key, iv, blocks_of(p));
    lemma_chunks16_flatten(chain);
    assert(c.len() == 16 * (p.len() as int / 16 + 1));
    lemma_mod_multiples_basic(p.len() as int / 16 + 1, 16);
    lemma_fundamental_div_mod(p.len() as int, 16);
    assert(chunks16(c) == chain);
    lemma_join_blocks_of(p);
}

/// Encrypt a buffer with AES in CBC mode.
///
/// The key must be 16, 24 or 32 bytes and the IV exactly 16; anything else
/// is rejected as `InvalidParameters` before the cipher is ever invoked. On
/// success the ciphertext is the CBC encryption chain over the PKCS#7-padded
/// blocks of the plaintext, its length is the plaintext's rounded up to the
/// next multiple of 16 (one whole extra block when already aligned), and
/// running the decryption chain over it with the same key and IV provably
/// yields the plaintext again.
pub fn encrypt_aescbc(plaintext: &[u8], aes_key: &[u8], iv: &[u8]) -> (r: Result<
    Vec<u8>,
    AesCbcError,
>)
    ensures
        r is Ok <==> valid_key_len(aes_key@) && iv@.len() == 16,
        !(valid_key_len(aes_key@) && iv@.len() == 16) ==> r == Err::<Vec<u8>, AesCbcError>(
            AesCbcError::InvalidParameters,
        ),
        r is Ok ==> r->Ok_0@ == cbc_encrypt_chain(aes_key@, iv@, blocks_of(plaintext@)).flatten(),
        r is Ok ==> all_len16(cbc_encrypt_chain(aes_key@, iv@, blocks_of(plaintext@))),
        r is Ok ==> r->Ok_0@.len() == plaintext@.len() + 16 - plaintext@.len() % 16,
        r is Ok ==> r->Ok_0@.len() % 16 == 0 && r->Ok_0@.len() >= 16,
        r is Ok ==> ({
            let pb = cbc_decrypt_chain(aes_key@, iv@, chunks16(r->Ok_0@));
            &&& cbc_decrypt_chain(aes_key@, iv@, chunks16(r->Ok_0@)) == blocks_of(plaintext@)
            &&& join_ok(pb)
            &&& join_seq(pb) == plaintext@
        }),
{
    let block_size: usize = 16;
    if iv.len() != block_size || !(aes_key.len() == 16 || aes_key.len() == 24 || aes_key.len()
        == 32) {
        return Err(AesCbcError::InvalidParameters);
    }
    let blocks = buf_to_blocks(plaintext, block_size);
    let nb = blocks.len();
    let ghost pbs = blocks_of(plaintext@);
    let mut cblocks: Vec<Vec<u8>> = Vec::new();
    let mut prev = vstd::slice::slice_to_vec(iv);
    proof {
        assert(pbs.take(0) =~= Seq::<Seq<u8>>::empty());
        assert(views_of(cblocks@) =~= cbc_encrypt_chain(aes_key@, iv@, pbs.take(0)));
        assert(cbc_decrypt_chain(aes_key@, iv@, views_of(cblocks@)) =~= pbs.take(0));
    }
    let mut j: usize = 0;
    while j < nb
        invariant
            nb == blocks@.len(),
            views_of(blocks@) == pbs,
            forall|t: int| 0 <= t < blocks@.len() ==> #[trigger] blocks@[t]@.len() == 16,
            valid_key_len(aes_key@),
            iv@.len() == 16,
            j <= nb,
            views_of(cblocks@) == cbc_encrypt_chain(aes_key@, iv@, pbs.take(j as int)),
            cbc_decrypt_chain(aes_key@, iv@, views_of(cblocks@)) == pbs.take(j as int),
            prev@ == last_or(iv@, views_of(cblocks@)),
            prev@.len() == 16,
            all_len16(views_of(cblocks@)),
        decreases nb - j,
    {
        let x = xor_bufs(blocks[j].as_slice(), prev.as_slice());
        let e = encrypt_one_block(aes_key, x.as_slice());
        proof {
            let cs = views_of(cblocks@);
            let bj = pbs[j as int];
            assert(blocks@[j as int]@ == bj);
            lemma_encrypt_chain_push(aes_key@, iv@, pbs.take(j as int), bj);
            assert(pbs.take(j as int + 1) =~= pbs.take(j as int).push(bj));
            assert(views_of(cblocks@.push(e)) =~= cs.push(e@));
            lemma_decrypt_chain_push(aes_key@, iv@, cs, e@);
            lemma_xor_involution(bj, prev@);
            assert(all_len16(cs.push(e@)));
        }
        cblocks.push(vstd::slice::slice_to_vec(e.as_slice()));
        prev = e;
        j = j + 1;
        proof {
            assert(views_of(cblocks@) =~= cbc_encrypt_chain(aes_key@, iv@, pbs.take(j as int)));
        }
    }
    proof {
        assert(pbs.take(nb as int) =~= pbs);
        lemma_cbc_round_trip(plaintext@, aes_key@, iv@);
        lemma_chunks16_flatten(views_of(cblocks@));
    }
    let ciphertext = crate::blocks::concat_blocks(&cblocks);
    Ok(ciphertext)
}

/// Decrypt an AES-CBC ciphertext.
///
/// The key and IV are validated exactly as in `encrypt_aescbc`, failing with
/// `InvalidParameters`; then the ciphertext length must be a positive
/// multiple of 16, else `InvalidCiphertextLength` - all before the cipher is
/// ever invoked. The ciphertext is then cut into 16-byte blocks, run through
/// the CBC decryption chain, and rejoined, stripping the final block's
/// padding; malformed padding fails with `InvalidPadding`.
pub fn decrypt_aescbc(ciphertext: &[u8], aes_key: &[u8], iv: &[u8]) -> (r: Result<
    Vec<u8>,
    AesCbcError,
>)
    ensures
        !(valid_key_len(aes_key@) && iv@.len() == 16) ==> r == Err::<Vec<u8>, AesCbcError>(
            AesCbcError::InvalidParameters,
        ),
        valid_key_len(aes_key@) && iv@.len() == 16 && !(ciphertext@.len() >= 16 && ciphertext@.len()
            % 16 == 0) ==> r == Err::<Vec<u8>, AesCbcError>(AesCbcError::InvalidCiphertextLength),
        valid_key_len(aes_key@) && iv@.len() == 16 && ciphertext@.len() >= 16 && ciphertext@.len()
            % 16 == 0 ==> ({
            let pb = cbc_decrypt_chain(aes_key@, iv@, chunks16(ciphertext@));
            &&& join_ok(pb) ==> r is Ok && r->Ok_0@ == join_seq(pb)
            &&& !join_ok(pb) ==> r == Err::<Vec<u8>, AesCbcError>(AesCbcError::InvalidPadding)
        }),
{
    let block_size: usize = 16;
    if iv.len() != block_size || !(aes_key.len() == 16 || aes_key.len() == 24 || aes_key.len()
        == 32) {
        return Err(AesCbcError::InvalidParameters);
    }
    let n = ciphertext.len();
    if n == 0 || n % block_size != 0 {
        return Err(AesCbcError::InvalidCiphertextLength);
    }
    let mut cblocks: Vec<Vec<u8>> = Vec::new();
    let mut i: usize = 0;
    proof {
        assert(views_of(cblocks@) =~= Seq::<Seq<u8>>::empty());
        assert(views_of(cblocks@).flatten() =~= ciphertext@.take(0));
    }
    while i < n
        invariant
            n == ciphertext@.len(),
            n % 16 == 0,
            i <= n,
            (n - i) % 16 == 0,
            views_of(cblocks@).flatten() == ciphertext@.take(i as int),
            all_len16(views_of(cblocks@)),
        decreases n - i,
    {
        proof {
            if n - i < 16 {
                lemma_small_mod((n - i) as nat, 16);
                assert(false);
            }
        }
        let chunk = vstd::slice::slice_to_vec(vstd::slice::slice_subrange(ciphertext, i, i + 16));
        proof {
            let vs = views_of(cblocks@);
            assert(views_of(cblocks@.push(chunk)) =~= vs.push(chunk@));
            vs.lemma_flatten_push(chunk@);
            assert(ciphertext@.take(i as int) + chunk@ =~= ciphertext@.take(i as int + 16));
            lemma_mod_sub_multiples_vanish((n - i) as int, 16);
            assert(all_len16(vs.push(chunk@)));
        }
        cblocks.push(chunk);
        i = i + 16;
    }
    proof {
        assert(ciphertext@.take(n as int) =~= ciphertext@);
        lemma_chunks16_flatten(views_of(cblocks@));
        assert(chunks16(ciphertext@) == views_of(cblocks@));
    }
    let nb = cblocks.len();
    let ghost cs = views_of(cblocks@);
    let mut pblocks: Vec<Vec<u8>> = Vec::new();
    let mut prev = vstd::slice::slice_to_vec(iv);
    proof {
        assert(cs.take(0) =~= Seq::<Seq<u8>>::empty());
        assert(views_of(pblocks@) =~= cbc_decrypt_chain(aes_key@, iv@, cs.take(0)));
    }
    let mut j: usize = 0;
    while j < nb
        invariant
            nb == cblocks@.len(),
            views_of(cblocks@) == cs,
            all_len16(cs),
            valid_key_len(aes_key@),
            iv@.len() == 16,
            j <= nb,
            views_of(pblocks@) == cbc_decrypt_chain(aes_key@, iv@, cs.take(j as int)),
            prev@ == last_or(iv@, cs.take(j as int)),
            prev@.len() == 16,
        decreases nb - j,
    {
        proof {
            assert(cs[j as int].len() == 16);
            assert(cblocks@[j as int]@ == cs[j as int]);
        }
        let d = decrypt_one_block(aes_key, cblocks[j].as_slice());
        let p = xor_bufs(d.as_slice(), prev.as_slice());
        proof {
            let cj = cs[j as int];
            assert(cblocks@[j as int]@ == cj);
            lemma_decrypt_chain_push(aes_key@, iv@, cs.take(j as int), cj);
            assert(cs.take(j as int + 1) =~= cs.take(j as int).push(cj));
            assert(views_of(pblocks@.push(p)) =~= views_of(pblocks@).push(p@));
        }
        pblocks.push(p);
        prev = vstd::slice::slice_to_vec(cblocks[j].as_slice());
        j = j + 1;
    }
    proof {
        assert(cs.take(nb as int) =~= cs);
    }
    blocks_to_buf(pblocks)
}

} // verus!
