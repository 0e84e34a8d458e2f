use echosafe::crypto::{
    decrypt_and_wipe, decrypt_bytes, derive_key, encrypt_and_wipe, encrypt_bytes,
    encrypt_bytes_with,
};
use echosafe::envelope::{assemble, check_header, magic, HEADER_LEN, TAG_LEN, VERSION};
use echosafe::error::CryptoError;

#[test]
fn round_trip_encrypt_decrypt() {
    let plaintext = b"wave bytes go here";
    let password = b"class-project-demo";

    let encrypted = encrypt_bytes(plaintext, password).expect("encryption should succeed");
    let decrypted = decrypt_bytes(&encrypted, password).expect("decryption should succeed");

    assert_eq!(decrypted, plaintext);
}

#[test]
fn rejects_wrong_password() {
    let encrypted =
        encrypt_bytes(b"secret audio", b"correct-password").expect("encryption should succeed");
    let result = decrypt_bytes(&encrypted, b"wrong-password");

    assert!(result.is_err());
}

#[test]
fn rejects_invalid_magic() {
    let result = decrypt_bytes(b"not-an-echosafe-file", b"password");

    assert!(result.is_err());
}

#[test]
fn wrong_password_is_a_decryption_error() {
    let encrypted = encrypt_bytes(b"secret audio", b"correct-password").unwrap();
    assert_eq!(
        decrypt_bytes(&encrypted, b"wrong-password"),
        Err(CryptoError::Decryption)
    );
}

#[test]
fn short_input_is_too_short() {
    assert_eq!(
        decrypt_bytes(b"not-an-echosafe-file", b"password"),
        Err(CryptoError::TooShort)
    );
    let mut almost = magic().to_vec();
    almost.push(VERSION);
    almost.extend_from_slice(&[0u8; 27]);
    assert_eq!(almost.len(), HEADER_LEN - 1);
    assert_eq!(decrypt_bytes(&almost, b"password"), Err(CryptoError::TooShort));
}

#[test]
fn bad_magic_is_invalid_format() {
    let bytes = vec![0x41u8; 60];
    assert_eq!(decrypt_bytes(&bytes, b"password"), Err(CryptoError::InvalidFormat));
    let mut near = b"ECHOSAFE2".to_vec();
    near.extend_from_slice(&[1u8; 50]);
    assert_eq!(decrypt_bytes(&near, b"password"), Err(CryptoError::InvalidFormat));
}

#[test]
fn other_version_is_unsupported() {
    let mut bytes = b"ECHOSAFE1".to_vec();
    bytes.push(2);
    bytes.extend_from_slice(&[0u8; 44]);
    assert_eq!(
        decrypt_bytes(&bytes, b"password"),
        Err(CryptoError::UnsupportedVersion(2))
    );
}

#[test]
fn empty_password_is_refused_both_ways() {
    assert_eq!(encrypt_bytes(b"abc", b""), Err(CryptoError::EmptyPassword));
    let encrypted = encrypt_bytes(b"abc", b"pw").unwrap();
    assert_eq!(decrypt_bytes(&encrypted, b""), Err(CryptoError::EmptyPassword));
    assert_eq!(decrypt_bytes(b"", b""), Err(CryptoError::EmptyPassword));
}

#[test]
fn container_layout() {
    let plaintext = b"0123456789";
    let encrypted = encrypt_bytes(plaintext, b"pw").unwrap();
    assert_eq!(encrypted.len(), plaintext.len() + HEADER_LEN + TAG_LEN);
    assert_eq!(encrypted.len(), 10 + 54);
    assert_eq!(&encrypted[..9], b"ECHOSAFE1");
    assert_eq!(encrypted[9], 1);
    assert_eq!(check_header(&encrypted), Ok(()));
}

#[test]
fn fixed_salt_and_nonce_are_deterministic() {
    let salt = [7u8; 16];
    let nonce = [9u8; 12];
    let a = encrypt_bytes_with(b"hello audio", b"pw", &salt, &nonce).unwrap();
    let b = encrypt_bytes_with(b"hello audio", b"pw", &salt, &nonce).unwrap();
    assert_eq!(a, b);
    assert_eq!(&a[10..26], &salt);
    assert_eq!(&a[26..38], &nonce);
    // the ciphertext is not the plaintext
    assert_ne!(&a[38..49], b"hello audio");
    assert_eq!(decrypt_bytes(&a, b"pw").unwrap(), b"hello audio");
}

#[test]
fn fresh_encryptions_differ() {
    let a = encrypt_bytes(b"same", b"pw").unwrap();
    let b = encrypt_bytes(b"same", b"pw").unwrap();
    assert_ne!(a, b);
    assert_eq!(decrypt_bytes(&a, b"pw").unwrap(), b"same");
    assert_eq!(decrypt_bytes(&b, b"pw").unwrap(), b"same");
}

#[test]
fn empty_plaintext_round_trips() {
    let encrypted = encrypt_bytes(b"", b"pw").unwrap();
    assert_eq!(encrypted.len(), 54);
    assert_eq!(decrypt_bytes(&encrypted, b"pw").unwrap(), Vec::<u8>::new());
}

#[test]
fn corrupted_ciphertext_is_rejected() {
    let mut encrypted = encrypt_bytes(b"some samples", b"pw").unwrap();
    let last = encrypted.len() - 1;
    encrypted[last] ^= 0x01;
    assert_eq!(decrypt_bytes(&encrypted, b"pw"), Err(CryptoError::Decryption));
    let truncated = &encrypted[..HEADER_LEN + 3];
    assert_eq!(decrypt_bytes(truncated, b"pw"), Err(CryptoError::Decryption));
}

#[test]
fn derived_keys_depend_on_password_and_salt() {
    let k1 = derive_key(b"password", &[1u8; 16]).unwrap();
    let k2 = derive_key(b"password", &[1u8; 16]).unwrap();
    let k3 = derive_key(b"password", &[2u8; 16]).unwrap();
    let k4 = derive_key(b"passwore", &[1u8; 16]).unwrap();
    assert_eq!(k1, k2);
    assert_ne!(k1, k3);
    assert_ne!(k1, k4);
    assert_ne!(k1, [0u8; 32]);
}

#[test]
fn short_salt_fails_key_derivation() {
    assert_eq!(derive_key(b"password", &[1u8; 7]), Err(CryptoError::KeyDerivation));
    assert!(derive_key(b"password", &[1u8; 8]).is_ok());
}

#[test]
fn encrypt_and_wipe_clears_secrets_on_success() {
    let mut plaintext = b"riff data".to_vec();
    let mut password = String::from("demo-password");
    let sealed = encrypt_and_wipe(&mut plaintext, &mut password).unwrap();
    assert!(plaintext.is_empty());
    assert!(password.is_empty());
    assert_eq!(decrypt_bytes(&sealed, b"demo-password").unwrap(), b"riff data");
}

#[test]
fn encrypt_and_wipe_keeps_inputs_on_failure() {
    let mut plaintext = b"riff data".to_vec();
    let mut password = String::new();
    assert_eq!(
        encrypt_and_wipe(&mut plaintext, &mut password),
        Err(CryptoError::EmptyPassword)
    );
    assert_eq!(plaintext, b"riff data");
}

#[test]
fn decrypt_and_wipe_clears_password_on_success_only() {
    let sealed = encrypt_bytes(b"pcm", "pässword".as_bytes()).unwrap();
    let mut wrong = String::from("password");
    assert_eq!(decrypt_and_wipe(&sealed, &mut wrong), Err(CryptoError::Decryption));
    assert_eq!(wrong, "password");
    let mut right = String::from("pässword");
    assert_eq!(decrypt_and_wipe(&sealed, &mut right).unwrap(), b"pcm");
    assert!(right.is_empty());
}

#[test]
fn assemble_lays_out_header_then_ciphertext() {
    let out = assemble(&[3u8; 16], &[4u8; 12], &[5u8, 6u8]);
    let mut expected = b"ECHOSAFE1".to_vec();
    expected.push(1);
    expected.extend_from_slice(&[3u8; 16]);
    expected.extend_from_slice(&[4u8; 12]);
    expected.extend_from_slice(&[5u8, 6u8]);
    assert_eq!(out, expected);
    assert_eq!(check_header(&out), Ok(()));
}

#[test]
fn decrypted_length_is_container_less_overhead() {
    for len in [0usize, 1, 15, 16, 17, 100] {
        let plaintext = vec![0xa5u8; len];
        let encrypted = encrypt_bytes(&plaintext, b"pw").unwrap();
        let decrypted = decrypt_bytes(&encrypted, b"pw").unwrap();
        assert_eq!(decrypted.len(), encrypted.len() - HEADER_LEN - TAG_LEN);
        assert_eq!(decrypted, plaintext);
    }
}

#[test]
fn equal_length_plaintexts_share_header_under_same_salt_and_nonce() {
    let salt = [1u8; 16];
    let nonce = [2u8; 12];
    let a = encrypt_bytes_with(b"aaaa", b"pw", &salt, &nonce).unwrap();
    let b = encrypt_bytes_with(b"bbbb", b"other", &salt, &nonce).unwrap();
    assert_eq!(a.len(), b.len());
    assert_eq!(&a[..HEADER_LEN], &b[..HEADER_LEN]);
    assert_ne!(a, b);
}

#[test]
fn error_messages() {
    assert_eq!(CryptoError::EmptyPassword.message(), "Password cannot be empty");
    assert_eq!(CryptoError::Randomness.message(), "Failed to draw random bytes");
    assert_eq!(CryptoError::TooShort.message(), "Encrypted file is too short");
    assert_eq!(
        CryptoError::InvalidFormat.message(),
        "Invalid EchoSafe encrypted file format"
    );
    assert_eq!(
        CryptoError::UnsupportedVersion(2).message(),
        "Unsupported EchoSafe encrypted file version: 2"
    );
    assert_eq!(
        CryptoError::UnsupportedVersion(42).message(),
        "Unsupported EchoSafe encrypted file version: 42"
    );
    assert_eq!(
        CryptoError::UnsupportedVersion(255).message(),
        "Unsupported EchoSafe encrypted file version: 255"
    );
    assert_eq!(
        CryptoError::UnsupportedVersion(0).message(),
        "Unsupported EchoSafe encrypted file version: 0"
    );
    assert_eq!(
        CryptoError::UnsupportedVersion(100).message(),
        "Unsupported EchoSafe encrypted file version: 100"
    );
    assert_eq!(CryptoError::KeyDerivation.message(), "Failed to derive encryption key");
    assert_eq!(CryptoError::Encryption.message(), "Encryption failed");
    assert_eq!(
        CryptoError::Decryption.message(),
        "Invalid password or corrupted encrypted file"
    );
}

#[test]
fn file_round_trip_through_wipe_functions() {
    let mut data = b"RIFF....WAVEfmt ".to_vec();
    let original = data.clone();
    let mut pw = String::from("demo-password");
    let sealed = encrypt_and_wipe(&mut data, &mut pw).unwrap();
    let mut pw2 = String::from("demo-password");
    let restored = decrypt_and_wipe(&sealed, &mut pw2).unwrap();
    assert_eq!(restored, original);
    assert!(pw.is_empty() && pw2.is_empty() && data.is_empty());
}
