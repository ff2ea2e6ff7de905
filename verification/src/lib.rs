//! CBC-mode encryption over a fixed 16-byte block cipher, with PKCS#7
//! padding, plus thin byte/text codecs (base64, hex) and RIPEMD-160 hashing.

mod aescbc;
mod blocks;
mod bytes;
mod cipher;
mod codec;
mod errors;
mod hashing;
mod padding;

pub use aescbc::{decrypt_aescbc, encrypt_aescbc};
pub use blocks::{blocks_to_buf, buf_to_blocks};
pub use bytes::xor_bufs;
pub use codec::{decode_base64, decode_hex, encode_base64, encode_hex};
pub use errors::AesCbcError;
pub use hashing::{double_ripemd160_hash, ripemd160_hash};
pub use padding::{pkcs7_pad, pkcs7_unpad};
