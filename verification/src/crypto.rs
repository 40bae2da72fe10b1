//! The cryptographic primitives the providers rely on, each a call into an outside crate.

use vstd::prelude::*;
use hmac::Mac;
use aes_gcm::aead::{Aead, KeyInit};
use md4::Digest;

verus! {

/// The HMAC-MD5 tag of `msg` under `key`, as computed by the `hmac` and `md-5` crates.
pub uninterp spec fn hmac_md5_tag(key: Seq<u8>, msg: Seq<u8>) -> Seq<u8>;

/// Computes HMAC-MD5 with `hmac::Hmac<md5::Md5>`.
///
/// Trusted: the result is the 16-byte tag named by `hmac_md5_tag` on the key and the
/// message. `Hmac::new_from_slice` accepts keys of every length (its source returns `Ok`
/// unconditionally), so the result is always present.
#[verifier::external_body]
pub(crate) fn hmac_md5(key: &[u8], msg: &[u8]) -> (r: Option<[u8; 16]>)
    ensures
        r is Some,
        r.unwrap()@ == hmac_md5_tag(key@, msg@),
{
    match <hmac::Hmac<md5::Md5> as Mac>::new_from_slice(key) {
        Ok(mut mac) => {
            mac.update(msg);
            Some(mac.finalize().into_bytes().into())
        },
        Err(_) => None,
    }
}

/// The largest plaintext, in bytes, that AES-256-GCM encrypts (2^36).
pub open spec fn aes_gcm_max_plaintext() -> int {
    0x10_0000_0000
}

/// The ciphertext (tag appended) that `aes_gcm::Aes256Gcm` makes of `plaintext`.
pub uninterp spec fn aes256gcm_sealed(key: Seq<u8>, nonce: Seq<u8>, plaintext: Seq<u8>) -> Seq<u8>;

/// What `aes_gcm::Aes256Gcm` decrypts `ciphertext` to, `None` where the tag does not verify.
pub uninterp spec fn aes256gcm_opened(key: Seq<u8>, nonce: Seq<u8>, ciphertext: Seq<u8>) -> Option<Seq<u8>>;

/// Encrypts with `Aes256Gcm::encrypt` (no associated data).
///
/// Trusted: the source refuses plaintexts longer than 2^36 bytes and accepts all others;
/// the result is named by `aes256gcm_sealed`, is the plaintext's length plus the 16-byte
/// tag, and decrypts under the same key and nonce back to the plaintext.
#[verifier::external_body]
pub(crate) fn aes256gcm_encrypt(key: &[u8; 32], nonce: &[u8; 12], plaintext: &[u8]) -> (r: Option<Vec<u8>>)
    ensures
        r is Some <==> plaintext@.len() <= aes_gcm_max_plaintext(),
        r is Some ==> r.unwrap()@ == aes256gcm_sealed(key@, nonce@, plaintext@),
        r is Some ==> r.unwrap()@.len() == plaintext@.len() + 16,
        r is Some ==> aes256gcm_opened(key@, nonce@, r.unwrap()@) == Some(plaintext@),
{
    let cipher = aes_gcm::Aes256Gcm::new(key.into());
    cipher.encrypt(aes_gcm::Nonce::from_slice(nonce), plaintext).ok()
}

/// Decrypts with `Aes256Gcm::decrypt` (no associated data).
///
/// Trusted: the result is named by `aes256gcm_opened`; a ciphertext shorter than the
/// 16-byte tag is refused.
#[verifier::external_body]
pub(crate) fn aes256gcm_decrypt(key: &[u8; 32], nonce: &[u8; 12], ciphertext: &[u8]) -> (r: Option<Vec<u8>>)
    ensures
        match r {
            Some(p) => aes256gcm_opened(key@, nonce@, ciphertext@) == Some(p@),
            None => aes256gcm_opened(key@, nonce@, ciphertext@) is None,
        },
        ciphertext@.len() < 16 ==> r is None,
{
    let cipher = aes_gcm::Aes256Gcm::new(key.into());
    cipher.decrypt(aes_gcm::Nonce::from_slice(nonce), ciphertext).ok()
}

/// The MD4 digest of `data`, as computed by the `md4` crate.
pub uninterp spec fn md4_digest(data: Seq<u8>) -> Seq<u8>;

/// Hashes with `md4::Md4::digest`; the NT hash of a password is the MD4 digest of its
/// UTF-16LE bytes.
///
/// Trusted: the 16-byte result is named by `md4_digest`.
#[verifier::external_body]
pub(crate) fn md4(data: &[u8]) -> (r: [u8; 16])
    ensures
        r@ == md4_digest(data@),
{
    let mut out = [0u8; 16];
    out.copy_from_slice(&md4::Md4::digest(data));
    out
}

/// The lowercase hexadecimal digit of a value below 16.
pub open spec fn hex_digit_lower(v: int) -> char {
    if v < 10 {
        (('0' as int) + v) as char
    } else {
        (('a' as int) + v - 10) as char
    }
}

/// Two lowercase hexadecimal digits per byte, high half first.
pub open spec fn hex_lower(bytes: Seq<u8>) -> Seq<char> {
    Seq::new(
        (2 * bytes.len()) as nat,
        |i: int| if i % 2 == 0 {
            hex_digit_lower(bytes[i / 2] as int / 16)
        } else {
            hex_digit_lower(bytes[i / 2] as int % 16)
        },
    )
}

/// Encodes bytes with `hex::encode`.
///
/// Trusted: the crate documents the result as the lowercase hexadecimal form, two
/// digits per byte, high half first.
#[verifier::external_body]
pub(crate) fn hex_encode(bytes: &[u8]) -> (r: String)
    ensures
        r@ == hex_lower(bytes@),
{
    hex::encode(bytes)
}

/// Draws `n` bytes from the operating system's generator with `getrandom::getrandom`.
///
/// Trusted: when the generator delivers, exactly `n` bytes come back; nothing is said of
/// their values, nor of when the generator fails.
#[verifier::external_body]
pub(crate) fn random_bytes(n: usize) -> (r: Option<Vec<u8>>)
    ensures
        r is Some ==> r.unwrap()@.len() == n,
{
    let mut v = vec![0u8; n];
    match getrandom::getrandom(&mut v) {
        Ok(()) => Some(v),
        Err(_) => None,
    }
}

} // verus!
