use vstd::prelude::*;
use vstd::string::StringExecFns;

verus! {

/// Why sealing or opening an EchoSafe container failed.
#[derive(Debug, Clone, Copy, PartialEq, Eq, Structural)]
pub enum CryptoError {
    /// The password is empty.
    EmptyPassword,
    /// The operating system's random source failed while drawing salt or nonce.
    /// Sealing draws with `OsRng::fill_bytes`, which stops the program in that
    /// case, so no operation of this library returns this value; it is kept for
    /// callers that draw their own salt and nonce.
    Randomness,
    /// The container is shorter than its fixed header.
    TooShort,
    /// The container does not start with the EchoSafe magic bytes.
    InvalidFormat,
    /// The container carries a format version this library does not read.
    UnsupportedVersion(u8),
    /// Argon2 refused to derive a key from the password and salt.
    KeyDerivation,
    /// AES-256-GCM refused to encrypt the plaintext.
    Encryption,
    /// The authentication tag did not verify: wrong password or corrupted data.
    Decryption,
}

/// The character of the decimal digit `d`.
pub open spec fn digit_char(d: nat) -> char {
    if d == 0 {
        '0'
    } else if d == 1 {
        '1'
    } else if d == 2 {
        '2'
    } else if d == 3 {
        '3'
    } else if d == 4 {
        '4'
    } else if d == 5 {
        '5'
    } else if d == 6 {
        '6'
    } else if d == 7 {
        '7'
    } else if d == 8 {
        '8'
    } else {
        '9'
    }
}

/// The decimal digits of `n`, most significant first, without leading zeros.
pub open spec fn decimal(n: nat) -> Seq<char>
    decreases n,
{
    if n < 10 {
        seq![digit_char(n)]
    } else {
        decimal(n / 10).push(digit_char(n % 10))
    }
}

/// The text of the decimal digit `d`.
fn digit_text(d: u8) -> (s: &'static str)
    requires
        d < 10,
    ensures
        s@ == seq![digit_char(d as nat)],
{
    proof {
        reveal_strlit("0");
        reveal_strlit("1");
        reveal_strlit("2");
        reveal_strlit("3");
        reveal_strlit("4");
        reveal_strlit("5");
        reveal_strlit("6");
        reveal_strlit("7");
        reveal_strlit("8");
        reveal_strlit("9");
    }
    if d == 0 {
        "0"
    } else if d == 1 {
        "1"
    } else if d == 2 {
        "2"
    } else if d == 3 {
        "3"
    } else if d == 4 {
        "4"
    } else if d == 5 {
        "5"
    } else if d == 6 {
        "6"
    } else if d == 7 {
        "7"
    } else if d == 8 {
        "8"
    } else {
        "9"
    }
}

impl CryptoError {
    /// The message shown to a user for this error.
    pub fn message(&self) -> (m: String)
        ensures
            m@ == match *self {
                CryptoError::EmptyPassword => "Password cannot be empty"@,
                CryptoError::Randomness => "Failed to draw random bytes"@,
                CryptoError::TooShort => "Encrypted file is too short"@,
                CryptoError::InvalidFormat => "Invalid EchoSafe encrypted file format"@,
                CryptoError::UnsupportedVersion(v) => "Unsupported EchoSafe encrypted file version: "@
                    + decimal(v as nat),
                CryptoError::KeyDerivation => "Failed to derive encryption key"@,
                CryptoError::Encryption => "Encryption failed"@,
                CryptoError::Decryption => "Invalid password or corrupted encrypted file"@,
            },
    {
        match *self {
            CryptoError::EmptyPassword => String::from_str("Password cannot be empty"),
            CryptoError::Randomness => String::from_str("Failed to draw random bytes"),
            CryptoError::TooShort => String::from_str("Encrypted file is too short"),
            CryptoError::InvalidFormat => String::from_str("Invalid EchoSafe encrypted file format"),
            CryptoError::UnsupportedVersion(v) => {
                let mut m = String::from_str("Unsupported EchoSafe encrypted file version: ");
                let ghost prefix = m@;
                if v >= 100 {
                    m.append(digit_text(v / 100));
                }
                if v >= 10 {
                    m.append(digit_text((v / 10) % 10));
                }
                m.append(digit_text(v % 10));
                proof {
                    let n = v as nat;
                    if v >= 100 {
                        assert(decimal(n / 100) == seq![digit_char(n / 100)]);
                        assert((n / 10) / 10 == n / 100);
                        assert(decimal(n / 10) == decimal(n / 100).push(digit_char((n / 10) % 10)));
                    } else if v >= 10 {
                        assert(decimal(n / 10) == seq![digit_char(n / 10)]);
                        assert((n / 10) % 10 == n / 10);
                    }
                    assert(decimal(n) == if n < 10 {
                        seq![digit_char(n)]
                    } else {
                        decimal(n / 10).push(digit_char(n % 10))
                    });
                    assert(m@ =~= prefix + decimal(n));
                }
                m
            },
            CryptoError::KeyDerivation => String::from_str("Failed to derive encryption key"),
            CryptoError::Encryption => String::from_str("Encryption failed"),
            CryptoError::Decryption => String::from_str(
                "Invalid password or corrupted encrypted file",
            ),
        }
    }
}

} // verus!
