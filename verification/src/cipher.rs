use vstd::prelude::*;

use aes::cipher::{Array, BlockCipherDecrypt, BlockCipherEncrypt, KeyInit};
use aes::{Aes128, Aes192, Aes256};

verus! {

/// What AES-128 block encryption returns for a 16-byte key and block.
pub uninterp spec fn aes128_encipher(key: Seq<u8>, block: Seq<u8>) -> Seq<u8>;

/// What AES-128 block decryption returns for a 16-byte key and block.
pub uninterp spec fn aes128_decipher(key: Seq<u8>, block: Seq<u8>) -> Seq<u8>;

/// What AES-192 block encryption returns for a 24-byte key and 16-byte block.
pub uninterp spec fn aes192_encipher(key: Seq<u8>, block: Seq<u8>) -> Seq<u8>;

/// What AES-192 block decryption returns for a 24-byte key and 16-byte block.
pub uninterp spec fn aes192_decipher(key: Seq<u8>, block: Seq<u8>) -> Seq<u8>;

/// What AES-256 block encryption returns for a 32-byte key and 16-byte block.
pub uninterp spec fn aes256_encipher(key: Seq<u8>, block: Seq<u8>) -> Seq<u8>;

/// What AES-256 block decryption returns for a 32-byte key and 16-byte block.
pub uninterp spec fn aes256_decipher(key: Seq<u8>, block: Seq<u8>) -> Seq<u8>;

/// A key length the block cipher accepts: 16, 24 or 32 bytes.
pub open spec fn valid_key_len(key: Seq<u8>) -> bool {
    key.len() == 16 || key.len() == 24 || key.len() == 32
}

/// Block encryption of the cipher capability, dispatched on key length.
pub open spec fn encipher(key: Seq<u8>, block: Seq<u8>) -> Seq<u8>
    recommends
        valid_key_len(key),
        block.len() == 16,
{
    if key.len() == 16 {
        aes128_encipher(key, block)
    } else if key.len() == 24 {
        aes192_encipher(key, block)
    } else {
        aes256_encipher(key, block)
    }
}

/// Block decryption of the cipher capability, dispatched on key length.
pub open spec fn decipher(key: Seq<u8>, block: Seq<u8>) -> Seq<u8>
    recommends
        valid_key_len(key),
        block.len() == 16,
{
    if key.len() == 16 {
        aes128_decipher(key, block)
    } else if key.len() == 24 {
        aes192_decipher(key, block)
    } else {
        aes256_decipher(key, block)
    }
}

/// Relies on aes::Aes128 (FIPS-197): encrypt_block maps a 16-byte block to a
/// 16-byte block, depends only on key and block, and decrypt_block inverts it.
#[verifier::external_body]
fn aes128_encrypt_block(key: &[u8], block: &[u8]) -> (r: Vec<u8>)
    requires
        key@.len() == 16,
        block@.len() == 16,
    ensures
        r@.len() == 16,
        r@ == aes128_encipher(key@, block@),
        aes128_decipher(key@, r@) == block@,
{
    let cipher = Aes128::new(key.try_into().unwrap());
    let mut b = Array::try_from(block).unwrap();
    cipher.encrypt_block(&mut b);
    b.to_vec()
}

/// Relies on aes::Aes128 (FIPS-197): decrypt_block maps a 16-byte block to a
/// 16-byte block and depends only on key and block.
#[verifier::external_body]
fn aes128_decrypt_block(key: &[u8], block: &[u8]) -> (r: Vec<u8>)
    requires
        key@.len() == 16,
        block@.len() == 16,
    ensures
        r@.len() == 16,
        r@ == aes128_decipher(key@, block@),
{
    let cipher = Aes128::new(key.try_into().unwrap());
    let mut b = Array::try_from(block).unwrap();
    cipher.decrypt_block(&mut b);
    b.to_vec()
}

/// Relies on aes::Aes192 (FIPS-197): encrypt_block maps a 16-byte block to a
/// 16-byte block, depends only on key and block, and decrypt_block inverts it.
#[verifier::external_body]
fn aes192_encrypt_block(key: &[u8], block: &[u8]) -> (r: Vec<u8>)
    requires
        key@.len() == 24,
        block@.len() == 16,
    ensures
        r@.len() == 16,
        r@ == aes192_encipher(key@, block@),
        aes192_decipher(key@, r@) == block@,
{
    let cipher = Aes192::new(key.try_into().unwrap());
    let mut b = Array::try_from(block).unwrap();
    cipher.encrypt_block(&mut b);
    b.to_vec()
}

/// Relies on aes::Aes192 (FIPS-197): decrypt_block maps a 16-byte block to a
/// 16-byte block and depends only on key and block.
#[verifier::external_body]
fn aes192_decrypt_block(key: &[u8], block: &[u8]) -> (r: Vec<u8>)
    requires
        key@.len() == 24,
        block@.len() == 16,
    ensures
        r@.len() == 16,
        r@ == aes192_decipher(key@, block@),
{
    let cipher = Aes192::new(key.try_into().unwrap());
    let mut b = Array::try_from(block).unwrap();
    cipher.decrypt_block(&mut b);
    b.to_vec()
}

/// Relies on aes::Aes256 (FIPS-197): encrypt_block maps a 16-byte block to a
/// 16-byte block, depends only on key and block, and decrypt_block inverts it.
#[verifier::external_body]
fn aes256_encrypt_block(key: &[u8], block: &[u8]) -> (r: Vec<u8>)
    requires
        key@.len() == 32,
        block@.len() == 16,
    ensures
        r@.len() == 16,
        r@ == aes256_encipher(key@, block@),
        aes256_decipher(key@, r@) == block@,
{
    let cipher = Aes256::new(key.try_into().unwrap());
    let mut b = Array::try_from(block).unwrap();
    cipher.encrypt_block(&mut b);
    b.to_vec()
}

/// Relies on aes::Aes256 (FIPS-197): decrypt_block maps a 16-byte block to a
/// 16-byte block and depends only on key and block.
#[verifier::external_body]
fn aes256_decrypt_block(key: &[u8], block: &[u8]) -> (r: Vec<u8>)
    requires
        key@.len() == 32,
        block@.len() == 16,
    ensures
        r@.len() == 16,
        r@ == aes256_decipher(key@, block@),
{
    let cipher = Aes256::new(key.try_into().unwrap());
    let mut b = Array::try_from(block).unwrap();
    cipher.decrypt_block(&mut b);
    b.to_vec()
}

/// Encrypt one 16-byte block with the AES variant the key length selects.
pub(crate) fn encrypt_one_block(key: &[u8], block: &[u8]) -> (r: Vec<u8>)
    requires
        valid_key_len(key@),
        block@.len() == 16,
    ensures
        r@.len() == 16,
        r@ == encipher(key@, block@),
        decipher(key@, r@) == block@,
{
    if key.len() == 16 {
        aes128_encrypt_block(key, block)
    } else if key.len() == 24 {
        aes192_encrypt_block(key, block)
    } else {
        aes256_encrypt_block(key, block)
    }
}

/// Decrypt one 16-byte block with the AES variant the key length selects.
pub(crate) fn decrypt_one_block(key: &[u8], block: &[u8]) -> (r: Vec<u8>)
    requires
        valid_key_len(key@),
        block@.len() == 16,
    ensures
        r@.len() == 16,
        r@ == decipher(key@, block@),
{
    if key.len() == 16 {
        aes128_decrypt_block(key, block)
    } else if key.len() == 24 {
        aes192_decrypt_block(key, block)
    } else {
        aes256_decrypt_block(key, block)
    }
}

} // verus!
