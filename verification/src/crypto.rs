//! Sealing bytes under a password into an EchoSafe container, and opening them.
//!
//! A key is derived from the password and a random salt with Argon2; the bytes
//! are encrypted with AES-256-GCM under a random nonce; salt and nonce travel in
//! the container's header.

use vstd::prelude::*;
use vstd::utf8::encode_utf8;

use crate::envelope::{
    spec_magic, VERSION, MAGIC_LEN, assemble, check_header, lemma_unpack_package, package, unpack, HEADER_LEN, NONCE_LEN,
    NONCE_START, SALT_LEN, SALT_START, TAG_LEN,
};
use crate::error::CryptoError;
use crate::primitives::{
    aes256gcm_decrypt, aes256gcm_encrypt, aes256gcm_open, aes256gcm_seal, argon2_default_hash32,
    argon2_hash_password_into, os_random_fill, zeroize_array, zeroize_string, zeroize_vec,
};

verus! {

/// The longest plaintext AES-256-GCM seals: 2^36 bytes.
pub const MAX_PLAINTEXT_LEN: u64 = 0x10_0000_0000;

/// The key Argon2 derives from `password` and `salt`, or the error it reports.
pub open spec fn spec_derive_key(password: Seq<u8>, salt: Seq<u8>) -> Result<Seq<u8>, CryptoError> {
    if password.len() <= 0xffff_ffff && 8 <= salt.len() <= 0xffff_ffff {
        Ok(argon2_default_hash32(password, salt))
    } else {
        Err(CryptoError::KeyDerivation)
    }
}

/// Why sealing `plaintext` under `password` fails, whatever salt and nonce are
/// drawn; `None` when it succeeds.
pub open spec fn seal_failure(plaintext: Seq<u8>, password: Seq<u8>) -> Option<CryptoError> {
    if password.len() == 0 {
        Some(CryptoError::EmptyPassword)
    } else if password.len() > 0xffff_ffff {
        Some(CryptoError::KeyDerivation)
    } else if plaintext.len() > MAX_PLAINTEXT_LEN {
        Some(CryptoError::Encryption)
    } else {
        None
    }
}

/// The container that seals `plaintext` under `password` with `salt` and `nonce`.
pub open spec fn sealed(plaintext: Seq<u8>, password: Seq<u8>, salt: Seq<u8>, nonce: Seq<u8>) -> Seq<u8> {
    package(salt, nonce, aes256gcm_seal(argon2_default_hash32(password, salt), nonce, plaintext))
}

/// The result of sealing `plaintext` under `password` with `salt` and `nonce`.
pub open spec fn spec_encrypt(
    plaintext: Seq<u8>,
    password: Seq<u8>,
    salt: Seq<u8>,
    nonce: Seq<u8>,
) -> Result<Seq<u8>, CryptoError> {
    match seal_failure(plaintext, password) {
        Some(e) => Err(e),
        None => Ok(sealed(plaintext, password, salt, nonce)),
    }
}

/// The result of opening the container `encrypted` with `password`.
pub open spec fn spec_decrypt(encrypted: Seq<u8>, password: Seq<u8>) -> Result<Seq<u8>, CryptoError> {
    if password.len() == 0 {
        Err(CryptoError::EmptyPassword)
    } else {
        match unpack(encrypted) {
            Err(e) => Err(e),
            Ok((salt, nonce, ciphertext)) => match spec_derive_key(password, salt) {
                Err(e) => Err(e),
                Ok(key) => match aes256gcm_open(key, nonce, ciphertext) {
                    Some(plaintext) => Ok(plaintext),
                    None => Err(CryptoError::Decryption),
                },
            },
        }
    }
}

/// The header of a sealed container is the magic, the version, the salt and the
/// nonce, whatever the plaintext and the password: two containers sealed with
/// the same salt and nonce share their header.
pub proof fn lemma_sealed_header(plaintext: Seq<u8>, password: Seq<u8>, salt: Seq<u8>, nonce: Seq<u8>)
    requires
        salt.len() == SALT_LEN,
        nonce.len() == NONCE_LEN,
    ensures
        sealed(plaintext, password, salt, nonce).subrange(0, HEADER_LEN as int)
            == spec_magic() + seq![VERSION] + salt + nonce,
{
    let s = sealed(plaintext, password, salt, nonce);
    assert(s.subrange(0, HEADER_LEN as int) =~= spec_magic() + seq![VERSION] + salt + nonce);
}

/// Sealing fails exactly for an empty password, a password Argon2 refuses
/// (longer than 2^32 - 1 bytes) or a plaintext AES-256-GCM refuses (longer than
/// 2^36 bytes), in that order of precedence; every other input seals.
pub proof fn lemma_seal_failure_exact(plaintext: Seq<u8>, password: Seq<u8>)
    ensures
        seal_failure(plaintext, password) is None <==> (0 < password.len() <= 0xffff_ffff
            && plaintext.len() <= MAX_PLAINTEXT_LEN),
        password.len() == 0 ==> seal_failure(plaintext, password) == Some(CryptoError::EmptyPassword),
        password.len() > 0xffff_ffff ==> seal_failure(plaintext, password) == Some(
            CryptoError::KeyDerivation,
        ),
        0 < password.len() <= 0xffff_ffff && plaintext.len() > MAX_PLAINTEXT_LEN ==> seal_failure(
            plaintext,
            password,
        ) == Some(CryptoError::Encryption),
{
}

/// The key is Argon2's hash of the password and the whole salt whenever Argon2
/// accepts them (password at most 2^32 - 1 bytes, salt of 8 to 2^32 - 1 bytes);
/// otherwise key derivation fails.
pub proof fn lemma_derive_key_exact(password: Seq<u8>, salt: Seq<u8>)
    ensures
        (password.len() <= 0xffff_ffff && 8 <= salt.len() <= 0xffff_ffff) ==> spec_derive_key(
            password,
            salt,
        ) == Ok::<_, CryptoError>(argon2_default_hash32(password, salt)),
        !(password.len() <= 0xffff_ffff && 8 <= salt.len() <= 0xffff_ffff) ==> spec_derive_key(
            password,
            salt,
        ) == Err::<Seq<u8>, _>(CryptoError::KeyDerivation),
{
}

/// A sealed container unpacks to its salt, its nonce, and the AES-256-GCM
/// sealing of the plaintext under that nonce and the Argon2 key of the password
/// and the whole salt.
pub proof fn lemma_sealed_unpacks(plaintext: Seq<u8>, password: Seq<u8>, salt: Seq<u8>, nonce: Seq<u8>)
    requires
        salt.len() == SALT_LEN,
        nonce.len() == NONCE_LEN,
    ensures
        unpack(sealed(plaintext, password, salt, nonce)) == Ok::<_, CryptoError>((
            salt,
            nonce,
            aes256gcm_seal(argon2_default_hash32(password, salt), nonce, plaintext),
        )),
{
    lemma_unpack_package(
        salt,
        nonce,
        aes256gcm_seal(argon2_default_hash32(password, salt), nonce, plaintext),
    );
}

/// Opening succeeds only with what AES-256-GCM authenticates under the Argon2
/// key of the password and the stored salt: bytes 10..26 are the salt, 26..38
/// the nonce, and the rest the ciphertext. Where the header is well formed and
/// Argon2 accepts the password but the tag does not verify, opening fails with
/// `Decryption`.
pub proof fn lemma_decrypt_authenticates(encrypted: Seq<u8>, password: Seq<u8>)
    ensures
        spec_decrypt(encrypted, password) is Ok ==> {
            &&& 0 < password.len()
            &&& encrypted.len() >= HEADER_LEN
            &&& encrypted.subrange(0, MAGIC_LEN as int) == spec_magic()
            &&& encrypted[MAGIC_LEN as int] == VERSION
            &&& aes256gcm_open(
                argon2_default_hash32(password, encrypted.subrange(SALT_START as int, NONCE_START as int)),
                encrypted.subrange(NONCE_START as int, HEADER_LEN as int),
                encrypted.subrange(HEADER_LEN as int, encrypted.len() as int),
            ) == Some(spec_decrypt(encrypted, password)->Ok_0)
        },
        (0 < password.len() <= 0xffff_ffff && encrypted.len() >= HEADER_LEN && encrypted.subrange(
            0,
            MAGIC_LEN as int,
        ) == spec_magic() && encrypted[MAGIC_LEN as int] == VERSION && aes256gcm_open(
            argon2_default_hash32(password, encrypted.subrange(SALT_START as int, NONCE_START as int)),
            encrypted.subrange(NONCE_START as int, HEADER_LEN as int),
            encrypted.subrange(HEADER_LEN as int, encrypted.len() as int),
        ) is None) ==> spec_decrypt(encrypted, password) == Err::<Seq<u8>, _>(CryptoError::Decryption),
{
}

/// Opening a container sealed with a salt and nonce, with the same password
/// that Argon2 accepts, gives exactly what AES-256-GCM's opening gives for the
/// sealed ciphertext under the Argon2 key of that password and salt.
pub proof fn lemma_decrypt_sealed(plaintext: Seq<u8>, password: Seq<u8>, salt: Seq<u8>, nonce: Seq<u8>)
    requires
        salt.len() == SALT_LEN,
        nonce.len() == NONCE_LEN,
        0 < password.len() <= 0xffff_ffff,
    ensures
        spec_decrypt(sealed(plaintext, password, salt, nonce), password) == match aes256gcm_open(
            argon2_default_hash32(password, salt),
            nonce,
            aes256gcm_seal(argon2_default_hash32(password, salt), nonce, plaintext),
        ) {
            Some(q) => Ok::<_, CryptoError>(q),
            None => Err(CryptoError::Decryption),
        },
{
    lemma_sealed_unpacks(plaintext, password, salt, nonce);
}

/// A byte result, its bytes taken by their view.
pub open spec fn bytes_result(r: Result<Vec<u8>, CryptoError>) -> Result<Seq<u8>, CryptoError> {
    match r {
        Ok(v) => Ok(v@),
        Err(e) => Err(e),
    }
}

/// Derives the 32-byte AES key from `password` and `salt` with Argon2.
pub fn derive_key(password: &[u8], salt: &[u8]) -> (r: Result<[u8; 32], CryptoError>)
    ensures
        match r {
            Ok(key) => spec_derive_key(password@, salt@) == Ok::<_, CryptoError>(key@),
            Err(e) => spec_derive_key(password@, salt@) == Err::<Seq<u8>, _>(e),
        },
        (password@.len() <= 0xffff_ffff && 8 <= salt@.len() <= 0xffff_ffff) ==> (r matches Ok(
            key,
        ) && key@ == argon2_default_hash32(password@, salt@)),
        !(password@.len() <= 0xffff_ffff && 8 <= salt@.len() <= 0xffff_ffff) ==> r == Err::<
            [u8; 32],
            _,
        >(CryptoError::KeyDerivation),
{
    let mut key = [0u8; 32];
    match argon2_hash_password_into(password, salt, &mut key) {
        Ok(()) => Ok(key),
        Err(_) => Err(CryptoError::KeyDerivation),
    }
}

/// Seals `plaintext` under `password` with the given salt and nonce.
///
/// Whatever it returns, `decrypt_bytes` with the same password gives the
/// plaintext back.
pub fn encrypt_bytes_with(
    plaintext: &[u8],
    password: &[u8],
    salt: &[u8; 16],
    nonce: &[u8; 12],
) -> (r: Result<Vec<u8>, CryptoError>)
    requires
        plaintext@.len() + HEADER_LEN + TAG_LEN <= usize::MAX,
    ensures
        bytes_result(r) == spec_encrypt(plaintext@, password@, salt@, nonce@),
        (0 < password@.len() <= 0xffff_ffff && plaintext@.len() <= MAX_PLAINTEXT_LEN) ==> r is Ok,
        password@.len() == 0 ==> r == Err::<Vec<u8>, _>(CryptoError::EmptyPassword),
        password@.len() > 0xffff_ffff ==> r == Err::<Vec<u8>, _>(CryptoError::KeyDerivation),
        (0 < password@.len() <= 0xffff_ffff && plaintext@.len() > MAX_PLAINTEXT_LEN) ==> r == Err::<
            Vec<u8>,
            _,
        >(CryptoError::Encryption),
        r matches Ok(out) ==> out@ == spec_magic() + seq![VERSION] + salt@ + nonce@ + aes256gcm_seal(
            argon2_default_hash32(password@, salt@),
            nonce@,
            plaintext@,
        ),
        r matches Ok(out) ==> out@.len() == plaintext@.len() + HEADER_LEN + TAG_LEN,
        r matches Ok(out) ==> spec_decrypt(out@, password@) == Ok::<_, CryptoError>(plaintext@),
{
    if password.len() == 0 {
        return Err(CryptoError::EmptyPassword);
    }
    let mut key = match derive_key(password, salt.as_slice()) {
        Ok(k) => k,
        Err(e) => return Err(e),
    };
    let ciphertext = match aes256gcm_encrypt(&key, nonce.as_slice(), plaintext) {
        Ok(c) => c,
        Err(_) => return Err(CryptoError::Encryption),
    };
    let out = assemble(salt, nonce, ciphertext.as_slice());
    proof {
        lemma_unpack_package(salt@, nonce@, ciphertext@);
    }
    zeroize_array(&mut key);
    Ok(out)
}

/// Seals `plaintext` under `password` into an EchoSafe container, with a fresh
/// random salt and nonce.
///
/// It fails exactly as `seal_failure` says; otherwise the container seals the
/// plaintext under some 16-byte salt and 12-byte nonce, and `decrypt_bytes`
/// with the same password gives the plaintext back.
pub fn encrypt_bytes(plaintext: &[u8], password: &[u8]) -> (r: Result<Vec<u8>, CryptoError>)
    requires
        plaintext@.len() + HEADER_LEN + TAG_LEN <= usize::MAX,
    ensures
        match seal_failure(plaintext@, password@) {
            Some(e) => r == Err::<Vec<u8>, _>(e),
            None => r is Ok,
        },
        (0 < password@.len() <= 0xffff_ffff && plaintext@.len() <= MAX_PLAINTEXT_LEN) ==> r is Ok,
        password@.len() == 0 ==> r == Err::<Vec<u8>, _>(CryptoError::EmptyPassword),
        password@.len() > 0xffff_ffff ==> r == Err::<Vec<u8>, _>(CryptoError::KeyDerivation),
        (0 < password@.len() <= 0xffff_ffff && plaintext@.len() > MAX_PLAINTEXT_LEN) ==> r == Err::<
            Vec<u8>,
            _,
        >(CryptoError::Encryption),
        r matches Ok(out) ==> exists|salt: Seq<u8>, nonce: Seq<u8>|
            salt.len() == SALT_LEN && nonce.len() == NONCE_LEN
                && out@ == #[trigger] sealed(plaintext@, password@, salt, nonce),
        r matches Ok(out) ==> exists|salt: Seq<u8>, nonce: Seq<u8>|
            salt.len() == SALT_LEN && nonce.len() == NONCE_LEN && out@ == spec_magic() + seq![VERSION]
                + salt + nonce + #[trigger] aes256gcm_seal(
                argon2_default_hash32(password@, salt),
                nonce,
                plaintext@,
            ),
        r matches Ok(out) ==> out@.len() == plaintext@.len() + HEADER_LEN + TAG_LEN,
        r matches Ok(out) ==> spec_decrypt(out@, password@) == Ok::<_, CryptoError>(plaintext@),
{
    if password.len() == 0 {
        return Err(CryptoError::EmptyPassword);
    }
    let mut salt = [0u8; 16];
    let mut nonce = [0u8; 12];
    os_random_fill(&mut salt);
    os_random_fill(&mut nonce);
    let r = encrypt_bytes_with(plaintext, password, &salt, &nonce);
    match r {
        Ok(out) => {
            assert(salt@.len() == SALT_LEN && nonce@.len() == NONCE_LEN
                && out@ == sealed(plaintext@, password@, salt@, nonce@));
            assert(out@ == spec_magic() + seq![VERSION] + salt@ + nonce@ + aes256gcm_seal(
                argon2_default_hash32(password@, salt@),
                nonce@,
                plaintext@,
            ));
            zeroize_array(&mut salt);
            zeroize_array(&mut nonce);
            Ok(out)
        },
        Err(e) => Err(e),
    }
}

/// Opens the EchoSafe container `encrypted` with `password`, as `spec_decrypt`
/// says: the password must not be empty, the header must be well formed, and
/// the tag must verify under the key derived from the password and the salt.
pub fn decrypt_bytes(encrypted: &[u8], password: &[u8]) -> (r: Result<Vec<u8>, CryptoError>)
    ensures
        bytes_result(r) == spec_decrypt(encrypted@, password@),
        r matches Ok(p) ==> p@.len() == encrypted@.len() - HEADER_LEN - TAG_LEN,
        r matches Ok(p) ==> {
            &&& 0 < password@.len()
            &&& encrypted@.len() >= HEADER_LEN
            &&& encrypted@.subrange(0, MAGIC_LEN as int) == spec_magic()
            &&& encrypted@[MAGIC_LEN as int] == VERSION
            &&& aes256gcm_open(
                argon2_default_hash32(password@, encrypted@.subrange(SALT_START as int, NONCE_START as int)),
                encrypted@.subrange(NONCE_START as int, HEADER_LEN as int),
                encrypted@.subrange(HEADER_LEN as int, encrypted@.len() as int),
            ) == Some(p@)
        },
        (0 < password@.len() <= 0xffff_ffff && encrypted@.len() >= HEADER_LEN && encrypted@.subrange(
            0,
            MAGIC_LEN as int,
        ) == spec_magic() && encrypted@[MAGIC_LEN as int] == VERSION && aes256gcm_open(
            argon2_default_hash32(password@, encrypted@.subrange(SALT_START as int, NONCE_START as int)),
            encrypted@.subrange(NONCE_START as int, HEADER_LEN as int),
            encrypted@.subrange(HEADER_LEN as int, encrypted@.len() as int),
        ) is None) ==> r == Err::<Vec<u8>, _>(CryptoError::Decryption),
        (0 < password@.len() <= 0xffff_ffff && encrypted@.len() >= HEADER_LEN && encrypted@.subrange(
            0,
            MAGIC_LEN as int,
        ) == spec_magic() && encrypted@[MAGIC_LEN as int] == VERSION && aes256gcm_open(
            argon2_default_hash32(password@, encrypted@.subrange(SALT_START as int, NONCE_START as int)),
            encrypted@.subrange(NONCE_START as int, HEADER_LEN as int),
            encrypted@.subrange(HEADER_LEN as int, encrypted@.len() as int),
        ) is Some) ==> r is Ok,
{
    if password.len() == 0 {
        return Err(CryptoError::EmptyPassword);
    }
    match check_header(encrypted) {
        Ok(()) => {},
        Err(e) => return Err(e),
    }
    let mut salt = [0u8; 16];
    let mut i: usize = 0;
    while i < SALT_LEN
        invariant
            i <= SALT_LEN,
            encrypted@.len() >= HEADER_LEN,
            forall|j: int| 0 <= j < i ==> salt@[j] == encrypted@[SALT_START + j],
        decreases SALT_LEN - i,
    {
        salt[i] = encrypted[SALT_START + i];
        i = i + 1;
    }
    assert(salt@ =~= encrypted@.subrange(SALT_START as int, NONCE_START as int));
    let nonce = &encrypted[NONCE_START..HEADER_LEN];
    let ciphertext = &encrypted[HEADER_LEN..encrypted.len()];
    let mut key = match derive_key(password, salt.as_slice()) {
        Ok(k) => k,
        Err(e) => return Err(e),
    };
    let plaintext = match aes256gcm_decrypt(&key, nonce, ciphertext) {
        Ok(p) => p,
        Err(_) => return Err(CryptoError::Decryption),
    };
    zeroize_array(&mut key);
    zeroize_array(&mut salt);
    Ok(plaintext)
}

/// Seals `plaintext` under `password` as `encrypt_bytes` does, taking the
/// password's UTF-8 bytes; on success both the plaintext and the password are
/// wiped, on failure both are left as they were.
pub fn encrypt_and_wipe(plaintext: &mut Vec<u8>, password: &mut String) -> (r: Result<
    Vec<u8>,
    CryptoError,
>)
    requires
        old(plaintext)@.len() + HEADER_LEN + TAG_LEN <= usize::MAX,
    ensures
        match seal_failure(old(plaintext)@, encode_utf8(old(password)@)) {
            Some(e) => r == Err::<Vec<u8>, _>(e),
            None => r is Ok,
        },
        (0 < encode_utf8(old(password)@).len() <= 0xffff_ffff && old(plaintext)@.len()
            <= MAX_PLAINTEXT_LEN) ==> r is Ok,
        encode_utf8(old(password)@).len() == 0 ==> r == Err::<Vec<u8>, _>(CryptoError::EmptyPassword),
        r matches Ok(out) ==> exists|salt: Seq<u8>, nonce: Seq<u8>|
            salt.len() == SALT_LEN && nonce.len() == NONCE_LEN && out@ == spec_magic() + seq![VERSION]
                + salt + nonce + #[trigger] aes256gcm_seal(
                argon2_default_hash32(encode_utf8(old(password)@), salt),
                nonce,
                old(plaintext)@,
            ),
        r matches Ok(out) ==> exists|salt: Seq<u8>, nonce: Seq<u8>|
            salt.len() == SALT_LEN && nonce.len() == NONCE_LEN
                && out@ == #[trigger] sealed(old(plaintext)@, encode_utf8(old(password)@), salt, nonce),
        r matches Ok(out) ==> spec_decrypt(out@, encode_utf8(old(password)@)) == Ok::<_, CryptoError>(old(plaintext)@),
        r is Ok ==> final(plaintext)@.len() == 0 && final(password)@.len() == 0,
        r is Err ==> final(plaintext)@ == old(plaintext)@ && final(password)@ == old(password)@,
{
    let r = encrypt_bytes(plaintext.as_slice(), password.as_str().as_bytes());
    match r {
        Ok(out) => {
            zeroize_vec(plaintext);
            zeroize_string(password);
            Ok(out)
        },
        Err(e) => Err(e),
    }
}

/// Opens `encrypted` with the UTF-8 bytes of `password` as `decrypt_bytes` does;
/// on success the password is wiped, on failure it is left as it was.
pub fn decrypt_and_wipe(encrypted: &[u8], password: &mut String) -> (r: Result<Vec<u8>, CryptoError>)
    ensures
        bytes_result(r) == spec_decrypt(encrypted@, encode_utf8(old(password)@)),
        r matches Ok(p) ==> p@.len() == encrypted@.len() - HEADER_LEN - TAG_LEN,
        r matches Ok(p) ==> {
            &&& 0 < encode_utf8(old(password)@).len()
            &&& encrypted@.len() >= HEADER_LEN
            &&& encrypted@.subrange(0, MAGIC_LEN as int) == spec_magic()
            &&& encrypted@[MAGIC_LEN as int] == VERSION
            &&& aes256gcm_open(
                argon2_default_hash32(encode_utf8(old(password)@), encrypted@.subrange(SALT_START as int, NONCE_START as int)),
                encrypted@.subrange(NONCE_START as int, HEADER_LEN as int),
                encrypted@.subrange(HEADER_LEN as int, encrypted@.len() as int),
            ) == Some(p@)
        },
        (0 < encode_utf8(old(password)@).len() <= 0xffff_ffff && encrypted@.len() >= HEADER_LEN && encrypted@.subrange(
            0,
            MAGIC_LEN as int,
        ) == spec_magic() && encrypted@[MAGIC_LEN as int] == VERSION && aes256gcm_open(
            argon2_default_hash32(encode_utf8(old(password)@), encrypted@.subrange(SALT_START as int, NONCE_START as int)),
            encrypted@.subrange(NONCE_START as int, HEADER_LEN as int),
            encrypted@.subrange(HEADER_LEN as int, encrypted@.len() as int),
        ) is None) ==> r == Err::<Vec<u8>, _>(CryptoError::Decryption),
        (0 < encode_utf8(old(password)@).len() <= 0xffff_ffff && encrypted@.len() >= HEADER_LEN && encrypted@.subrange(
            0,
            MAGIC_LEN as int,
        ) == spec_magic() && encrypted@[MAGIC_LEN as int] == VERSION && aes256gcm_open(
            argon2_default_hash32(encode_utf8(old(password)@), encrypted@.subrange(SALT_START as int, NONCE_START as int)),
            encrypted@.subrange(NONCE_START as int, HEADER_LEN as int),
            encrypted@.subrange(HEADER_LEN as int, encrypted@.len() as int),
        ) is Some) ==> r is Ok,
        r is Ok ==> final(password)@.len() == 0,
        r is Err ==> final(password)@ == old(password)@,
{
    let r = decrypt_bytes(encrypted, password.as_str().as_bytes());
    match r {
        Ok(plaintext) => {
            zeroize_string(password);
            Ok(plaintext)
        },
        Err(e) => Err(e),
    }
}

} // verus!
