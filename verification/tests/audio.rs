use echosafe::audio::{clip_range, fft_size, format_hint, MAX_FFT_SIZE};

#[test]
fn fft_size_is_next_power_of_two_capped() {
    assert_eq!(fft_size(0), 1);
    assert_eq!(fft_size(1), 1);
    assert_eq!(fft_size(2), 2);
    assert_eq!(fft_size(3), 4);
    assert_eq!(fft_size(1000), 1024);
    assert_eq!(fft_size(1024), 1024);
    assert_eq!(fft_size(1025), 2048);
    assert_eq!(fft_size(16384), 16384);
    assert_eq!(fft_size(16385), MAX_FFT_SIZE);
    assert_eq!(fft_size(44100 * 60), 16384);
}

#[test]
fn fft_size_matches_std_below_the_cap() {
    for n in 0..20000usize {
        assert_eq!(fft_size(n), n.next_power_of_two().min(16384));
    }
}

#[test]
fn clip_range_cuts_at_the_end() {
    assert_eq!(clip_range(0, 100, 50), Some((0, 50)));
    assert_eq!(clip_range(5, 10, 50), Some((5, 10)));
    assert_eq!(clip_range(49, 50, 50), Some((49, 50)));
    assert_eq!(clip_range(50, 60, 50), None);
    assert_eq!(clip_range(0, 0, 0), None);
}

#[test]
fn format_hint_by_extension() {
    assert_eq!(format_hint("song.mp3"), Some("mp3"));
    assert_eq!(format_hint("input.m4a"), Some("mov"));
    assert_eq!(format_hint("clip.mp4"), Some("mov"));
    assert_eq!(format_hint("sound.wav"), None);
    assert_eq!(format_hint("mp3"), None);
    assert_eq!(format_hint(".mp3"), Some("mp3"));
    assert_eq!(format_hint("a.MP3"), None);
    assert_eq!(format_hint(""), None);
}
