//! EchoSafe: the password-sealed container format for processed audio files,
//! and the integer bookkeeping of the audio pipeline.

pub mod envelope;
pub mod error;
pub mod primitives;
pub mod crypto;
pub mod audio;
