//! The calls into the outside cryptographic crates. Each item here is trusted:
//! Verus believes its contract, which restates what the crate's source does.

use vstd::prelude::*;

use aes_gcm::aead::{Aead, KeyInit};
use aes_gcm::{Aes256Gcm, Nonce};
use argon2::Argon2;
use rand::rngs::OsRng;
use rand::RngCore;
use zeroize::Zeroize;

verus! {

/// `argon2::Error`, the reasons Argon2 refuses its inputs.
#[verifier::external_type_specification]
#[verifier::external_body]
pub struct ExArgon2Error(argon2::Error);

/// `aes_gcm::Error` (`aead::Error`), the opaque AEAD failure.
#[verifier::external_type_specification]
#[verifier::external_body]
pub struct ExAeadError(aes_gcm::Error);

/// The 32-byte tag that `Argon2::default()` (Argon2id, version 0x13,
/// m = 19456 KiB, t = 2, p = 1, no secret, no associated data) computes for
/// `password` and `salt`.
pub uninterp spec fn argon2_default_hash32(password: Seq<u8>, salt: Seq<u8>) -> Seq<u8>;

/// What `Aes256Gcm::encrypt` returns for `key`, `nonce` and `plaintext` with no
/// associated data: the ciphertext followed by its 16-byte tag.
pub uninterp spec fn aes256gcm_seal(key: Seq<u8>, nonce: Seq<u8>, plaintext: Seq<u8>) -> Seq<u8>;

/// What `Aes256Gcm::decrypt` returns for `key`, `nonce` and `ciphertext` with no
/// associated data: the plaintext where the tag verifies, `None` where it does not.
pub uninterp spec fn aes256gcm_open(key: Seq<u8>, nonce: Seq<u8>, ciphertext: Seq<u8>) -> Option<Seq<u8>>;

/// Calls `Argon2::default().hash_password_into(password, salt, out)`.
///
/// Claimed, as argon2 0.5's source shows for a 32-byte output: the call fails
/// exactly when the password is longer than `MAX_PWD_LEN` (2^32 - 1) or the salt
/// is shorter than `MIN_SALT_LEN` (8) or longer than `MAX_SALT_LEN` (2^32 - 1);
/// otherwise `out` holds the Argon2id tag, named `argon2_default_hash32`.
#[verifier::external_body]
pub(crate) fn argon2_hash_password_into(
    password: &[u8],
    salt: &[u8],
    out: &mut [u8; 32],
) -> (r: Result<(), argon2::Error>)
    ensures
        r is Ok <==> (password@.len() <= 0xffff_ffff && 8 <= salt@.len() <= 0xffff_ffff),
        r is Ok ==> final(out)@ == argon2_default_hash32(password@, salt@),
{
    Argon2::default().hash_password_into(password, salt, out)
}

/// Calls `Aes256Gcm::encrypt` (the `Aead` impl of aes-gcm 0.10) with no associated
/// data, on the cipher built by `KeyInit::new` from the 32-byte key, which
/// cannot fail for a key of that length.
///
/// Claimed, as the source shows: the call fails exactly when the plaintext is
/// longer than `P_MAX` (2^36 bytes); otherwise it returns `aes256gcm_seal` of its
/// arguments, which is 16 bytes longer than the plaintext, and which
/// `aes256gcm_open` under the same key and nonce turns back into the plaintext.
#[verifier::external_body]
pub(crate) fn aes256gcm_encrypt(
    key: &[u8; 32],
    nonce: &[u8],
    plaintext: &[u8],
) -> (r: Result<Vec<u8>, aes_gcm::Error>)
    requires
        nonce@.len() == 12,
    ensures
        r is Ok <==> plaintext@.len() <= 0x10_0000_0000,
        r matches Ok(c) ==> c@ == aes256gcm_seal(key@, nonce@, plaintext@),
        r matches Ok(c) ==> c@.len() == plaintext@.len() + 16,
        r matches Ok(c) ==> aes256gcm_open(key@, nonce@, c@) == Some(plaintext@),
{
    Aes256Gcm::new(key.into()).encrypt(Nonce::from_slice(nonce), plaintext)
}

/// Calls `Aes256Gcm::decrypt` (the `Aead` impl of aes-gcm 0.10) with no associated
/// data, on the cipher built by `KeyInit::new` from the 32-byte key.
///
/// Claimed: the result is `aes256gcm_open` of the arguments, an error where that
/// is `None`; a plaintext it returns is the ciphertext less its 16-byte tag, so
/// 16 bytes shorter (aead's `decrypt_in_place` truncates at the tag position).
#[verifier::external_body]
pub(crate) fn aes256gcm_decrypt(
    key: &[u8; 32],
    nonce: &[u8],
    ciphertext: &[u8],
) -> (r: Result<Vec<u8>, aes_gcm::Error>)
    requires
        nonce@.len() == 12,
    ensures
        match r {
            Ok(p) => aes256gcm_open(key@, nonce@, ciphertext@) == Some(p@),
            Err(_) => aes256gcm_open(key@, nonce@, ciphertext@) is None,
        },
        r matches Ok(p) ==> p@.len() + 16 == ciphertext@.len(),
{
    Aes256Gcm::new(key.into()).decrypt(Nonce::from_slice(nonce), ciphertext)
}

/// Calls `OsRng.fill_bytes(buf)` (rand 0.8, rand_core 0.6): fills `buf` from the
/// operating system's random source. Nothing is claimed of the bytes. The call
/// returns for every input; it panics only when the operating system's random
/// source itself fails, which is no property of the arguments.
#[verifier::external_body]
pub(crate) fn os_random_fill<const N: usize>(buf: &mut [u8; N]) {
    OsRng.fill_bytes(buf)
}

/// Calls `Zeroize::zeroize` on a byte array (zeroize 1.x): every byte becomes 0.
#[verifier::external_body]
pub(crate) fn zeroize_array<const N: usize>(buf: &mut [u8; N])
    ensures
        forall|i: int| 0 <= i < N ==> final(buf)@[i] == 0u8,
{
    buf.zeroize()
}

/// Calls `Zeroize::zeroize` on a `Vec<u8>` (zeroize 1.x): the bytes and the spare
/// capacity are overwritten with zeros and the vector is cleared.
#[verifier::external_body]
pub(crate) fn zeroize_vec(v: &mut Vec<u8>)
    ensures
        final(v)@.len() == 0,
{
    v.zeroize()
}

/// Calls `Zeroize::zeroize` on a `String` (zeroize 1.x): its bytes are
/// overwritten with zeros and the string is left empty.
#[verifier::external_body]
pub(crate) fn zeroize_string(s: &mut String)
    ensures
        final(s)@.len() == 0,
{
    s.zeroize()
}

} // verus!
