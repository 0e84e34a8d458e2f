use vstd::prelude::*;

use crate::error::CryptoError;

verus! {

/// Length of the magic prefix `ECHOSAFE1`.
pub const MAGIC_LEN: usize = 9;
/// The only container version this library writes and reads.
pub const VERSION: u8 = 1;
/// Length of the Argon2 salt stored in the header.
pub const SALT_LEN: usize = 16;
/// Length of the AES-GCM nonce stored in the header.
pub const NONCE_LEN: usize = 12;
/// Length of the derived AES-256 key.
pub const KEY_LEN: usize = 32;
/// Length of the AES-GCM authentication tag appended to the ciphertext.
pub const TAG_LEN: usize = 16;
/// Length of the fixed header: magic, version byte, salt, nonce.
pub const HEADER_LEN: usize = MAGIC_LEN + 1 + SALT_LEN + NONCE_LEN;

/// Offset of the salt in a container.
pub const SALT_START: usize = MAGIC_LEN + 1;
/// Offset of the nonce in a container.
pub const NONCE_START: usize = SALT_START + SALT_LEN;

/// The magic prefix, the ASCII bytes of `ECHOSAFE1`.
pub open spec fn spec_magic() -> Seq<u8> {
    seq![0x45u8, 0x43u8, 0x48u8, 0x4fu8, 0x53u8, 0x41u8, 0x46u8, 0x45u8, 0x31u8]
}

/// The magic prefix as an array.
pub fn magic() -> (m: [u8; 9])
    ensures
        m@ == spec_magic(),
{
    let m: [u8; 9] = [0x45u8, 0x43u8, 0x48u8, 0x4fu8, 0x53u8, 0x41u8, 0x46u8, 0x45u8, 0x31u8];
    assert(m@ =~= spec_magic());
    m
}

/// The container that holds `ciphertext` sealed under `salt` and `nonce`:
/// magic, version, salt, nonce, then the ciphertext with its tag.
pub open spec fn package(salt: Seq<u8>, nonce: Seq<u8>, ciphertext: Seq<u8>) -> Seq<u8> {
    spec_magic() + seq![VERSION] + salt + nonce + ciphertext
}

/// What a container holds: its salt, its nonce and its ciphertext, or why it is
/// not a container this library reads.
pub open spec fn unpack(bytes: Seq<u8>) -> Result<(Seq<u8>, Seq<u8>, Seq<u8>), CryptoError> {
    if bytes.len() < HEADER_LEN {
        Err(CryptoError::TooShort)
    } else if bytes.subrange(0, MAGIC_LEN as int) != spec_magic() {
        Err(CryptoError::InvalidFormat)
    } else if bytes[MAGIC_LEN as int] != VERSION {
        Err(CryptoError::UnsupportedVersion(bytes[MAGIC_LEN as int]))
    } else {
        Ok((
            bytes.subrange(SALT_START as int, NONCE_START as int),
            bytes.subrange(NONCE_START as int, HEADER_LEN as int),
            bytes.subrange(HEADER_LEN as int, bytes.len() as int),
        ))
    }
}

/// Unpacking a packed container gives back its salt, nonce and ciphertext.
pub proof fn lemma_unpack_package(salt: Seq<u8>, nonce: Seq<u8>, ciphertext: Seq<u8>)
    requires
        salt.len() == SALT_LEN,
        nonce.len() == NONCE_LEN,
    ensures
        unpack(package(salt, nonce, ciphertext)) == Ok::<_, CryptoError>((salt, nonce, ciphertext)),
{
    let p = package(salt, nonce, ciphertext);
    assert(p.subrange(0, MAGIC_LEN as int) =~= spec_magic());
    assert(p.subrange(SALT_START as int, NONCE_START as int) =~= salt);
    assert(p.subrange(NONCE_START as int, HEADER_LEN as int) =~= nonce);
    assert(p.subrange(HEADER_LEN as int, p.len() as int) =~= ciphertext);
}

/// Whatever unpacks, packs back to the same bytes.
pub proof fn lemma_package_unpack(bytes: Seq<u8>)
    requires
        unpack(bytes) is Ok,
    ensures
        ({
            let (salt, nonce, ciphertext) = unpack(bytes)->Ok_0;
            &&& salt.len() == SALT_LEN
            &&& nonce.len() == NONCE_LEN
            &&& package(salt, nonce, ciphertext) == bytes
        }),
{
    let (salt, nonce, ciphertext) = unpack(bytes)->Ok_0;
    assert(package(salt, nonce, ciphertext) =~= bytes);
}

/// Lays out a container: magic, version, salt, nonce, ciphertext.
pub fn assemble(salt: &[u8; 16], nonce: &[u8; 12], ciphertext: &[u8]) -> (out: Vec<u8>)
    requires
        ciphertext@.len() + HEADER_LEN <= usize::MAX,
    ensures
        out@ == package(salt@, nonce@, ciphertext@),
{
    let m = magic();
    let mut out: Vec<u8> = Vec::with_capacity(HEADER_LEN + ciphertext.len());
    out.extend_from_slice(m.as_slice());
    out.push(VERSION);
    out.extend_from_slice(salt.as_slice());
    out.extend_from_slice(nonce.as_slice());
    out.extend_from_slice(ciphertext);
    assert(out@ =~= package(salt@, nonce@, ciphertext@));
    out
}

/// Checks a container's header: its length, magic and version, as `unpack`
/// describes; the salt, nonce and ciphertext then lie at fixed offsets.
pub fn check_header(bytes: &[u8]) -> (r: Result<(), CryptoError>)
    ensures
        match unpack(bytes@) {
            Ok(_) => r is Ok,
            Err(e) => r == Err::<(), CryptoError>(e),
        },
{
    if bytes.len() < HEADER_LEN {
        return Err(CryptoError::TooShort);
    }
    let m = magic();
    let mut i: usize = 0;
    while i < MAGIC_LEN
        invariant
            i <= MAGIC_LEN,
            bytes@.len() >= HEADER_LEN,
            m@ == spec_magic(),
            bytes@.subrange(0, i as int) == spec_magic().subrange(0, i as int),
        decreases MAGIC_LEN - i,
    {
        if bytes[i] != m[i] {
            assert(bytes@.subrange(0, MAGIC_LEN as int)[i as int] != spec_magic()[i as int]);
            return Err(CryptoError::InvalidFormat);
        }
        i = i + 1;
        assert(bytes@.subrange(0, i as int) =~= spec_magic().subrange(0, i as int));
    }
    assert(spec_magic().subrange(0, MAGIC_LEN as int) =~= spec_magic());
    let version = bytes[MAGIC_LEN];
    if version != VERSION {
        return Err(CryptoError::UnsupportedVersion(version));
    }
    Ok(())
}

} // verus!
