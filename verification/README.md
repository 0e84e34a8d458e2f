# EchoSafe

EchoSafe processes audio files into WAV and seals files under a password.

- `src/` is the verified library:
  - `envelope` lays out and checks the container format (`ECHOSAFE1`, version
    byte, 16-byte salt, 12-byte nonce, AES-GCM ciphertext with its tag), with
    the laws that unpacking a packed container gives back its parts and that
    whatever unpacks packs back to the same bytes;
  - `crypto` derives keys with Argon2, seals with AES-256-GCM, opens
    containers, and wipes secrets with `zeroize`; its contracts say exactly
    when each error comes, and that a sealed container opens with the same
    password to the plaintext;
  - `primitives` holds the trusted calls into argon2, aes-gcm, rand and zeroize;
  - `audio` holds the integer decisions of the processing pipeline (decoder
    hint, clip range, FFT size).
- `app/` is the command line: file I/O, decoding with symphonia, WAV export
  with hound, and the floating-point signal processing.
