//! AES-256 in 8-bit cipher feedback mode, keyed the way the archive format
//! wants it: the cipher key is the first 32 bytes of a key string and the
//! initialization vector is the first 16 bytes of the same string.
use vstd::prelude::*;
use vstd::slice::slice_subrange;
use aes::Aes256;
use cfb8::cipher::{AsyncStreamCipher, KeyIvInit};

use crate::DecryptError;

verus! {

/// Bytes of an AES-256 key.
pub const KEY_LEN: usize = 32;

/// Bytes of the initialization vector (one AES block).
pub const IV_LEN: usize = 16;

/// What CFB-8 decryption with AES-256 under `key` and `iv` makes of `data`.
pub uninterp spec fn cfb8_decrypt_of(key: Seq<u8>, iv: Seq<u8>, data: Seq<u8>) -> Seq<u8>;

/// What CFB-8 encryption with AES-256 under `key` and `iv` makes of `data`.
pub uninterp spec fn cfb8_encrypt_of(key: Seq<u8>, iv: Seq<u8>, data: Seq<u8>) -> Seq<u8>;

/// The cipher key taken from a key string.
pub open spec fn cipher_key(k: Seq<u8>) -> Seq<u8> {
    k.subrange(0, KEY_LEN as int)
}

/// The initialization vector taken from a key string.
pub open spec fn cipher_iv(k: Seq<u8>) -> Seq<u8> {
    k.subrange(0, IV_LEN as int)
}

/// Whether a key string is long enough to key the cipher.
pub open spec fn key_usable(k: Seq<u8>) -> bool {
    k.len() >= KEY_LEN
}

/// `data` decrypted under the key string `k`.
pub open spec fn decrypted(k: Seq<u8>, data: Seq<u8>) -> Seq<u8> {
    cfb8_decrypt_of(cipher_key(k), cipher_iv(k), data)
}

/// `data` encrypted under the key string `k`.
pub open spec fn encrypted(k: Seq<u8>, data: Seq<u8>) -> Seq<u8> {
    cfb8_encrypt_of(cipher_key(k), cipher_iv(k), data)
}

/// Relies on `cfb8::Decryptor::<Aes256>::new_from_slices`, which accepts a
/// 32-byte key and a 16-byte IV, and on `AsyncStreamCipher::decrypt`, which
/// transforms the buffer in place byte for byte. CFB-8 encryption under the
/// same key and IV maps the plaintext back to the ciphertext.
#[verifier::external_body]
fn aes_cfb8_decrypt(key: &[u8], iv: &[u8], buf: &mut Vec<u8>)
    requires
        key@.len() == KEY_LEN,
        iv@.len() == IV_LEN,
    ensures
        final(buf)@ == cfb8_decrypt_of(key@, iv@, old(buf)@),
        final(buf)@.len() == old(buf)@.len(),
        cfb8_encrypt_of(key@, iv@, final(buf)@) == old(buf)@,
{
    cfb8::Decryptor::<Aes256>::new_from_slices(key, iv).unwrap().decrypt(buf.as_mut_slice());
}

/// Relies on `cfb8::Encryptor::<Aes256>::new_from_slices`, which accepts a
/// 32-byte key and a 16-byte IV, and on `AsyncStreamCipher::encrypt`, which
/// transforms the buffer in place byte for byte.
#[verifier::external_body]
fn aes_cfb8_encrypt(key: &[u8], iv: &[u8], buf: &mut Vec<u8>)
    requires
        key@.len() == KEY_LEN,
        iv@.len() == IV_LEN,
    ensures
        final(buf)@ == cfb8_encrypt_of(key@, iv@, old(buf)@),
        final(buf)@.len() == old(buf)@.len(),
{
    cfb8::Encryptor::<Aes256>::new_from_slices(key, iv).unwrap().encrypt(buf.as_mut_slice());
}

/// Decrypts `buf` in place under the key string `key`.
///
/// Fails, leaving `buf` as it was, when `key` is shorter than 32 bytes. On
/// success the length is kept, and encrypting the result under the same key
/// string gives back the original bytes.
pub fn decrypt_with(key: &[u8], buf: &mut Vec<u8>) -> (r: Result<(), DecryptError>)
    ensures
        r is Err <==> !key_usable(key@),
        r is Err ==> r == Err::<(), DecryptError>(DecryptError::KeyTooShort)
            && final(buf)@ == old(buf)@,
        r is Ok ==> final(buf)@ == decrypted(key@, old(buf)@),
        final(buf)@.len() == old(buf)@.len(),
        r is Ok ==> encrypted(key@, final(buf)@) == old(buf)@,
{
    if key.len() < KEY_LEN {
        return Err(DecryptError::KeyTooShort);
    }
    let k = slice_subrange(key, 0, KEY_LEN);
    let iv = slice_subrange(key, 0, IV_LEN);
    aes_cfb8_decrypt(k, iv, buf);
    Ok(())
}

/// Encrypts `buf` in place under the key string `key`: the inverse of
/// [`decrypt_with`].
///
/// Fails, leaving `buf` as it was, when `key` is shorter than 32 bytes.
pub fn encrypt_with(key: &[u8], buf: &mut Vec<u8>) -> (r: Result<(), DecryptError>)
    ensures
        r is Err <==> !key_usable(key@),
        r is Err ==> r == Err::<(), DecryptError>(DecryptError::KeyTooShort)
            && final(buf)@ == old(buf)@,
        r is Ok ==> final(buf)@ == encrypted(key@, old(buf)@),
        final(buf)@.len() == old(buf)@.len(),
{
    if key.len() < KEY_LEN {
        return Err(DecryptError::KeyTooShort);
    }
    let k = slice_subrange(key, 0, KEY_LEN);
    let iv = slice_subrange(key, 0, IV_LEN);
    aes_cfb8_encrypt(k, iv, buf);
    Ok(())
}

} // verus!
