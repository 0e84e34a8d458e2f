//! The integer decisions of the audio pipeline: which container hint a path
//! gives the decoder, which samples a clip keeps, and how many samples the
//! spectral analysis transforms.

use vstd::prelude::*;
use vstd::utf8::encode_utf8;

verus! {

/// The largest FFT the spectral analysis runs.
pub const MAX_FFT_SIZE: usize = 16384;

/// `n` is a power of two.
pub open spec fn is_power_of_two(n: nat) -> bool
    decreases n,
{
    if n == 1 {
        true
    } else if n < 2 || n % 2 != 0 {
        false
    } else {
        is_power_of_two(n / 2)
    }
}

/// Between two powers of two `n < m`, `m` is at least `2 * n`.
pub proof fn lemma_power_of_two_gap(n: nat, m: nat)
    requires
        is_power_of_two(n),
        is_power_of_two(m),
        n < m,
    ensures
        2 * n <= m,
    decreases m,
{
    if n != 1 {
        lemma_power_of_two_gap(n / 2, m / 2);
    }
}

/// The number of samples the spectral analysis transforms for `sample_count`
/// samples: the smallest power of two that is at least `sample_count`, but no
/// more than `MAX_FFT_SIZE`.
pub fn fft_size(sample_count: usize) -> (n: usize)
    ensures
        is_power_of_two(n as nat),
        n <= MAX_FFT_SIZE,
        n >= sample_count || n == MAX_FFT_SIZE,
        n == 1 || n / 2 < sample_count,
{
    assert(is_power_of_two(MAX_FFT_SIZE as nat)) by {
        reveal_with_fuel(is_power_of_two, 16);
    }
    let mut n: usize = 1;
    while n < sample_count && n < MAX_FFT_SIZE
        invariant
            is_power_of_two(n as nat),
            is_power_of_two(MAX_FFT_SIZE as nat),
            1 <= n <= MAX_FFT_SIZE,
            n == 1 || n / 2 < sample_count,
        decreases MAX_FFT_SIZE - n,
    {
        proof {
            lemma_power_of_two_gap(n as nat, MAX_FFT_SIZE as nat);
            assert(is_power_of_two((2 * n) as nat));
        }
        n = n * 2;
    }
    n
}

/// The sample range a clip keeps out of `len` samples, asked for from `start` to
/// `end`: none when `start` is past the last sample, otherwise from `start` to
/// `end` cut at `len`.
pub fn clip_range(start: usize, end: usize, len: usize) -> (r: Option<(usize, usize)>)
    ensures
        r == (if start >= len {
            None
        } else {
            Some((start, if end < len { end } else { len }))
        }),
{
    if start >= len {
        None
    } else if end < len {
        Some((start, end))
    } else {
        Some((start, len))
    }
}

/// `s` ends with `suffix`.
pub open spec fn has_suffix(s: Seq<u8>, suffix: Seq<u8>) -> bool {
    suffix.len() <= s.len() && s.subrange(s.len() - suffix.len(), s.len() as int) == suffix
}

/// Whether the bytes `s` end with `suffix`.
fn ends_with(s: &[u8], suffix: &[u8]) -> (b: bool)
    ensures
        b == has_suffix(s@, suffix@),
{
    if suffix.len() > s.len() {
        return false;
    }
    let offset = s.len() - suffix.len();
    let mut i: usize = 0;
    while i < suffix.len()
        invariant
            i <= suffix@.len(),
            offset + suffix@.len() == s@.len(),
            s@.len() == s.len(),
            forall|j: int| 0 <= j < i ==> s@[offset + j] == suffix@[j],
        decreases suffix@.len() - i,
    {
        if s[offset + i] != suffix[i] {
            assert(s@.subrange(offset as int, s@.len() as int)[i as int] != suffix@[i as int]);
            return false;
        }
        i = i + 1;
    }
    assert(s@.subrange(offset as int, s@.len() as int) =~= suffix@);
    true
}

/// The bytes of `.mp3`.
pub open spec fn mp3_suffix() -> Seq<u8> {
    seq![0x2eu8, 0x6du8, 0x70u8, 0x33u8]
}

/// The bytes of `.m4a`.
pub open spec fn m4a_suffix() -> Seq<u8> {
    seq![0x2eu8, 0x6du8, 0x34u8, 0x61u8]
}

/// The bytes of `.mp4`.
pub open spec fn mp4_suffix() -> Seq<u8> {
    seq![0x2eu8, 0x6du8, 0x70u8, 0x34u8]
}

/// The container hint the decoder gets for a file at `path`: `mp3` for a path
/// ending in `.mp3`, `mov` for one ending in `.m4a` or `.mp4`, none otherwise.
pub fn format_hint(path: &str) -> (r: Option<&'static str>)
    ensures
        has_suffix(encode_utf8(path@), mp3_suffix()) ==> r == Some("mp3"),
        !has_suffix(encode_utf8(path@), mp3_suffix()) && (has_suffix(encode_utf8(path@), m4a_suffix())
            || has_suffix(encode_utf8(path@), mp4_suffix())) ==> r == Some("mov"),
        !has_suffix(encode_utf8(path@), mp3_suffix()) && !has_suffix(encode_utf8(path@), m4a_suffix())
            && !has_suffix(encode_utf8(path@), mp4_suffix()) ==> r is None,
{
    let bytes = path.as_bytes();
    let mp3: [u8; 4] = [0x2eu8, 0x6du8, 0x70u8, 0x33u8];
    let m4a: [u8; 4] = [0x2eu8, 0x6du8, 0x34u8, 0x61u8];
    let mp4: [u8; 4] = [0x2eu8, 0x6du8, 0x70u8, 0x34u8];
    assert(mp3@ =~= mp3_suffix());
    assert(m4a@ =~= m4a_suffix());
    assert(mp4@ =~= mp4_suffix());
    if ends_with(bytes, mp3.as_slice()) {
        Some("mp3")
    } else if ends_with(bytes, m4a.as_slice()) || ends_with(bytes, mp4.as_slice()) {
        Some("mov")
    } else {
        None
    }
}

} // verus!
