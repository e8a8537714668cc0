use murmure::meter::{isqrt, level_from_rms, smooth_level, LevelMeter, LEVEL_FULL, SETTLE_TICKS};
use murmure::pcm::{check_wav_format, downmix_to_mono, mix_frame, prepare_wav_samples, resample_linear, WavFormatError};

#[test]
fn integer_square_root() {
    assert_eq!(isqrt(0), 0);
    assert_eq!(isqrt(15), 3);
    assert_eq!(isqrt(16), 4);
    assert_eq!(isqrt(1_073_741_824), 32768);
    assert_eq!(isqrt(0xffff_ffff), 65535);
}

#[test]
fn level_scaling_clamp_and_gate() {
    assert_eq!(level_from_rms(32767), LEVEL_FULL);
    assert_eq!(level_from_rms(10000), 4577);
    assert_eq!(level_from_rms(437), 200);
    assert_eq!(level_from_rms(436), 0);
    assert_eq!(level_from_rms(0), 0);
}

#[test]
fn smoothing_moves_35_percent_rounded_away() {
    assert_eq!(smooth_level(0, 10000), 3500);
    assert_eq!(smooth_level(3500, 10000), 5775);
    assert_eq!(smooth_level(10000, 0), 6500);
    assert_eq!(smooth_level(1, 0), 0);
    assert_eq!(smooth_level(9999, 10000), 10000);
    assert_eq!(smooth_level(42, 42), 42);
}

#[test]
fn silence_drives_level_to_zero() {
    let mut m = LevelMeter::new(0);
    for _ in 0..SETTLE_TICKS {
        m.feed(&[32767; 64], 1);
        m.tick();
    }
    assert_eq!(m.level(), LEVEL_FULL);
    let mut ticks = 0;
    while m.level() > 0 {
        m.feed(&[0; 64], 1);
        m.tick();
        ticks += 1;
    }
    assert!(ticks <= SETTLE_TICKS);
}

#[test]
fn full_scale_drives_level_to_one() {
    let mut m = LevelMeter::new(0);
    let mut ticks = 0;
    while m.level() < LEVEL_FULL {
        m.feed(&[-32768, 32767, -32767, 32767], 1);
        m.tick();
        ticks += 1;
    }
    assert!(ticks <= SETTLE_TICKS);
    m.feed(&[32767, -32767], 1);
    assert_eq!(m.tick(), LEVEL_FULL);
}

#[test]
fn empty_interval_emits_zero_and_keeps_level() {
    let mut m = LevelMeter::new(0);
    m.feed(&[16384; 8], 1);
    let first = m.tick();
    assert_eq!(first, 2625);
    assert_eq!(m.tick(), 0);
    assert_eq!(m.level(), first);
}

#[test]
fn emission_is_throttled() {
    let mut m = LevelMeter::new(1_000);
    m.feed(&[32767; 4], 1);
    assert_eq!(m.poll(1_032), None);
    assert_eq!(m.poll(1_033), Some(3500));
    assert_eq!(m.poll(1_050), None);
    assert_eq!(m.poll(1_066), Some(0));
}

#[test]
fn feed_downmixes_and_returns_mono() {
    let mut m = LevelMeter::new(0);
    let mono = m.feed(&[100, 300, -5, -6, 7], 2);
    assert_eq!(mono, vec![200, -5]);
}

#[test]
fn frame_mean_rounds_toward_zero() {
    assert_eq!(mix_frame(&[1, 2]), 1);
    assert_eq!(mix_frame(&[-1, -2]), -1);
    assert_eq!(mix_frame(&[-32768, -32768, -32768]), -32768);
    assert_eq!(mix_frame(&[32767, 32767]), 32767);
    assert_eq!(downmix_to_mono(&[1, 2, 3, 4, 5, 6, 7], 3), vec![2, 5]);
    assert_eq!(downmix_to_mono(&[], 2), Vec::<i16>::new());
}

#[test]
fn resample_identity_when_rates_match() {
    let x = vec![5, -3, 100, 7];
    assert_eq!(resample_linear(&x, 44100, 44100), x);
}

#[test]
fn resample_empty_or_zero_rate() {
    assert_eq!(resample_linear(&[], 8000, 16000), Vec::<i16>::new());
    assert_eq!(resample_linear(&[1, 2, 3], 0, 16000), Vec::<i16>::new());
    assert_eq!(resample_linear(&[1, 2, 3], 8000, 0), Vec::<i16>::new());
}

#[test]
fn resample_length_is_ceiling() {
    let x = vec![0i16; 1000];
    assert_eq!(resample_linear(&x, 48000, 16000).len(), 334);
    assert_eq!(resample_linear(&x, 44100, 16000).len(), 363);
    assert_eq!(resample_linear(&x[..3], 8000, 16000).len(), 6);
    assert_eq!(resample_linear(&x[..1], 3, 1).len(), 1);
}

#[test]
fn resample_interpolates_linearly() {
    assert_eq!(resample_linear(&[0, 100, 200], 1, 2), vec![0, 50, 100, 150, 200, 200]);
    assert_eq!(resample_linear(&[0, -100], 1, 3), vec![0, -34, -67, -100, -100, -100]);
    assert_eq!(resample_linear(&[10, 20, 30, 40], 2, 1), vec![10, 30]);
}

#[test]
fn wav_format_checks() {
    assert_eq!(check_wav_format(24, true), Err(WavFormatError::UnsupportedBitsPerSample(24)));
    assert_eq!(check_wav_format(24, false), Err(WavFormatError::UnsupportedBitsPerSample(24)));
    assert_eq!(check_wav_format(16, false), Err(WavFormatError::NotIntegerSamples));
    assert_eq!(check_wav_format(16, true), Ok(()));
}

#[test]
fn prepare_downmixes_then_resamples() {
    assert_eq!(prepare_wav_samples(&[0, 0, 100, 300], 2, 8000), vec![0, 100, 200, 200]);
    assert_eq!(prepare_wav_samples(&[1, 2, 3], 1, 16000), vec![1, 2, 3]);
    assert_eq!(prepare_wav_samples(&[1, 2, 3], 0, 16000), vec![1, 2, 3]);
    assert_eq!(prepare_wav_samples(&[1, 2, 3], 1, 0), Vec::<i16>::new());
}
