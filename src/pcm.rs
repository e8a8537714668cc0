//! 16-bit PCM helpers: downmixing interleaved frames to mono and linear
//! resampling to another rate.
use vstd::prelude::*;

verus! {

/// Rate the transcription engine takes, in Hz.
pub const ENGINE_RATE_HZ: u32 = 16_000;

pub open spec fn seq_sum(s: Seq<i16>) -> int
    decreases s.len(),
{
    if s.len() == 0 {
        0
    } else {
        seq_sum(s.drop_last()) + s.last() as int
    }
}

/// Integer division rounding toward zero, as Rust's `/` on signed integers.
pub open spec fn div_toward_zero(a: int, n: int) -> int {
    if a >= 0 {
        a / n
    } else {
        -((-a) / n)
    }
}

/// The mean of a frame's channel samples, rounded toward zero.
pub open spec fn frame_mean(frame: Seq<i16>) -> i16 {
    div_toward_zero(seq_sum(frame), frame.len() as int) as i16
}

/// One mono sample per complete frame of `channels` interleaved samples; a
/// trailing partial frame is dropped.
pub open spec fn downmix(data: Seq<i16>, channels: nat) -> Seq<i16> {
    Seq::new(
        data.len() / channels,
        |i: int| frame_mean(data.subrange(i * channels, i * channels + channels)),
    )
}

proof fn lemma_seq_sum_bounds(s: Seq<i16>)
    ensures
        -32768 * s.len() <= seq_sum(s) <= 32767 * s.len(),
    decreases s.len(),
{
    if s.len() > 0 {
        lemma_seq_sum_bounds(s.drop_last());
    }
}

proof fn lemma_mean_in_range(sum: int, n: int)
    requires
        n >= 1,
        -32768 * n <= sum <= 32767 * n,
    ensures
        -32768 <= div_toward_zero(sum, n) <= 32767,
{
    if sum >= 0 {
        assert(sum / n <= 32767) by (nonlinear_arith)
            requires sum <= 32767 * n, n >= 1, sum >= 0;
        assert(sum / n >= 0) by (nonlinear_arith)
            requires n >= 1, sum >= 0;
    } else {
        assert((-sum) / n <= 32768) by (nonlinear_arith)
            requires -sum <= 32768 * n, n >= 1, sum < 0;
        assert((-sum) / n >= 0) by (nonlinear_arith)
            requires n >= 1, sum < 0;
    }
}

/// The mean of one frame, rounded toward zero.
pub fn mix_frame(frame: &[i16]) -> (r: i16)
    requires
        1 <= frame@.len() <= 65535,
    ensures
        r == frame_mean(frame@),
{
    let n = frame.len();
    let mut sum: i64 = 0;
    let mut i: usize = 0;
    while i < n
        invariant
            n == frame@.len() <= 65535,
            i <= n,
            sum == seq_sum(frame@.subrange(0, i as int)),
            -32768 * i <= sum <= 32767 * i,
        decreases n - i,
    {
        assert(frame@.subrange(0, i + 1).drop_last() =~= frame@.subrange(0, i as int));
        sum = sum + frame[i] as i64;
        i += 1;
    }
    assert(frame@.subrange(0, n as int) =~= frame@);
    proof {
        lemma_seq_sum_bounds(frame@);
        lemma_mean_in_range(sum as int, n as int);
    }
    let m: i64 = if sum >= 0 {
        sum / (n as i64)
    } else {
        -((-sum) / (n as i64))
    };
    m as i16
}

/// Downmixes interleaved frames to mono by the integer mean of each frame.
pub fn downmix_to_mono(data: &[i16], channels: u16) -> (r: Vec<i16>)
    requires
        channels >= 1,
    ensures
        r@ == downmix(data@, channels as nat),
{
    let ch = channels as usize;
    let n = data.len();
    let frames = n / ch;
    let mut out: Vec<i16> = Vec::new();
    let mut f: usize = 0;
    while f < frames
        invariant
            ch == channels as usize >= 1,
            n == data@.len(),
            frames == data@.len() as int / (ch as int),
            f <= frames,
            out@.len() == f,
            forall|i: int| 0 <= i < f ==> #[trigger] out@[i] == frame_mean(
                data@.subrange(i * ch, i * ch + ch),
            ),
        decreases frames - f,
    {
        assert(f * ch + ch <= data@.len()) by (nonlinear_arith)
            requires f < frames, frames == data@.len() as int / (ch as int), ch >= 1;
        let start = f * ch;
        let frame = slice_range(data, start, start + ch);
        let m = mix_frame(frame);
        out.push(m);
        f += 1;
    }
    assert(out@ =~= downmix(data@, channels as nat));
    out
}

/// The samples from `from` up to `to`.
fn slice_range(data: &[i16], from: usize, to: usize) -> (r: &[i16])
    requires
        from <= to <= data@.len(),
    ensures
        r@ == data@.subrange(from as int, to as int),
{
    let (head, _) = data.split_at(to);
    let (_, mid) = head.split_at(from);
    assert(mid@ =~= data@.subrange(from as int, to as int));
    mid
}

/// `ceil(n * dst / src)`: the number of samples a resampled signal has.
pub open spec fn resampled_len(n: int, src: int, dst: int) -> int {
    (n * dst + src - 1) / src
}

/// Linear interpolation from `a` toward `b` at `num / den`, rounded down.
pub open spec fn interpolate(a: int, b: int, num: int, den: int) -> int {
    a + ((b - a) * num) / den
}

/// Output sample `i`: the input read at position `i * src / dst`, between
/// the sample at its whole part and the next one (the last sample repeats).
pub open spec fn resample_at(x: Seq<i16>, src: int, dst: int, i: int) -> i16 {
    let p = i * src;
    let idx = p / dst;
    let next = if idx + 1 < x.len() { idx + 1 } else { x.len() - 1 };
    interpolate(x[idx] as int, x[next] as int, p % dst, dst) as i16
}

/// Linear resampling from `src` Hz to `dst` Hz. Empty input or a zero rate
/// gives nothing; equal rates give the input back.
pub open spec fn resample(x: Seq<i16>, src: nat, dst: nat) -> Seq<i16> {
    if x.len() == 0 || src == 0 || dst == 0 {
        Seq::empty()
    } else if src == dst {
        x
    } else {
        Seq::new(resampled_len(x.len() as int, src as int, dst as int) as nat, |i: int| resample_at(x, src as int, dst as int, i))
    }
}

proof fn lemma_position_in_input(i: int, n: int, src: int, dst: int)
    requires
        n >= 1,
        src >= 1,
        dst >= 1,
        0 <= i < resampled_len(n, src, dst),
    ensures
        0 <= (i * src) / dst < n,
{
    let l = resampled_len(n, src, dst);
    assert(l * src <= n * dst + src - 1) by (nonlinear_arith)
        requires l == (n * dst + src - 1) / src, src >= 1, n >= 1, dst >= 1;
    assert(i * src <= (l - 1) * src) by (nonlinear_arith)
        requires i <= l - 1, src >= 1;
    assert(i * src < n * dst) by (nonlinear_arith)
        requires i * src <= (l - 1) * src, l * src <= n * dst + src - 1;
    assert(0 <= (i * src) / dst < n) by (nonlinear_arith)
        requires i * src < n * dst, dst >= 1, i >= 0, src >= 1;
}

proof fn lemma_interpolate_shifted(a: int, b: int, num: int, den: int)
    requires
        -32768 <= a <= 32767,
        -32768 <= b <= 32767,
        0 <= num < den,
    ensures
        ((a + 32768) * (den - num) + (b + 32768) * num) / den - 32768 == interpolate(a, b, num, den),
        -32768 <= interpolate(a, b, num, den) <= 32767,
{
    let x = (b - a) * num;
    assert((a + 32768) * (den - num) + (b + 32768) * num == (a + 32768) * den + x) by (nonlinear_arith)
        requires x == (b - a) * num;
    assert(((a + 32768) * den + x) / den == (a + 32768) + x / den) by (nonlinear_arith)
        requires den >= 1;
    if b >= a {
        assert(0 <= x / den <= b - a) by (nonlinear_arith)
            requires x == (b - a) * num, 0 <= num < den, b >= a;
    } else {
        assert(b - a <= x / den <= 0) by (nonlinear_arith)
            requires x == (b - a) * num, 0 <= num < den, b < a;
    }
}

/// Resamples 16-bit samples from `src_hz` to `dst_hz` by linear
/// interpolation between neighbouring samples.
pub fn resample_linear(input: &[i16], src_hz: usize, dst_hz: usize) -> (r: Vec<i16>)
    requires
        src_hz == 0 || resampled_len(input@.len() as int, src_hz as int, dst_hz as int) <= usize::MAX,
    ensures
        r@ == resample(input@, src_hz as nat, dst_hz as nat),
        input@.len() > 0 && src_hz > 0 && dst_hz > 0 && src_hz != dst_hz ==> r@.len()
            == resampled_len(input@.len() as int, src_hz as int, dst_hz as int),
{
    let n = input.len();
    if n == 0 || src_hz == 0 || dst_hz == 0 {
        return Vec::new();
    }
    if src_hz == dst_hz {
        return vstd::slice::slice_to_vec(input);
    }
    let src = src_hz as u128;
    let dst = dst_hz as u128;
    assert((n as int) * (dst as int) <= 0xffff_ffff_ffff_ffff * 0xffff_ffff_ffff_ffffint) by (nonlinear_arith)
        requires n <= 0xffff_ffff_ffff_ffffint, dst <= 0xffff_ffff_ffff_ffffint, n >= 0, dst >= 0;
    let out_len = ((n as u128) * dst + src - 1) / src;
    let out_len = out_len as usize;
    let mut out: Vec<i16> = Vec::new();
    let mut i: usize = 0;
    while i < out_len
        invariant
            n == input@.len() >= 1,
            src == src_hz as u128 >= 1,
            dst == dst_hz as u128 >= 1,
            src_hz <= 0xffff_ffff_ffff_ffffint,
            dst_hz <= 0xffff_ffff_ffff_ffffint,
            out_len == resampled_len(n as int, src as int, dst as int),
            i <= out_len,
            out@.len() == i,
            forall|k: int| 0 <= k < i ==> #[trigger] out@[k] == resample_at(input@, src as int, dst as int, k),
        decreases out_len - i,
    {
        proof {
            lemma_position_in_input(i as int, n as int, src as int, dst as int);
        }
        assert((i as int) * (src as int) <= 0xffff_ffff_ffff_ffff * 0xffff_ffff_ffff_ffffint) by (nonlinear_arith)
            requires i <= 0xffff_ffff_ffff_ffffint, src <= 0xffff_ffff_ffff_ffffint, i >= 0, src >= 0;
        let p = (i as u128) * src;
        let idx = (p / dst) as usize;
        let num = p % dst;
        let next = if idx + 1 < n { idx + 1 } else { n - 1 };
        let a = input[idx] as i64;
        let b = input[next] as i64;
        let ua = (a + 32768) as u128;
        let ub = (b + 32768) as u128;
        assert(ua * (dst - num) <= 65535 * 0xffff_ffff_ffff_ffffint) by (nonlinear_arith)
            requires ua <= 65535, dst - num <= 0xffff_ffff_ffff_ffffint, dst - num >= 0;
        assert(ub * num <= 65535 * 0xffff_ffff_ffff_ffffint) by (nonlinear_arith)
            requires ub <= 65535, num <= 0xffff_ffff_ffff_ffffint, num >= 0;
        let v = (ua * (dst - num) + ub * num) / dst;
        proof {
            lemma_interpolate_shifted(a as int, b as int, num as int, dst as int);
        }
        let sample = (v as i64 - 32768) as i16;
        out.push(sample);
        i += 1;
    }
    assert(out@ =~= resample(input@, src_hz as nat, dst_hz as nat));
    out
}

/// Resampling keeps a signal whose two rates are equal (and not zero), gives
/// nothing for an empty signal, and otherwise gives `ceil(len * dst / src)`
/// samples.
pub proof fn lemma_resample_shape(x: Seq<i16>, src: nat, dst: nat)
    ensures
        src > 0 ==> resample(x, src, src) == x,
        resample(Seq::empty(), src, dst) == Seq::<i16>::empty(),
        x.len() > 0 && src > 0 && dst > 0 && src != dst ==> resample(x, src, dst).len() == resampled_len(
            x.len() as int,
            src as int,
            dst as int,
        ),
{
    if src > 0 && x.len() == 0 {
        assert(x =~= Seq::<i16>::empty());
    }
    if x.len() > 0 && src > 0 && dst > 0 && src != dst {
        assert(resampled_len(x.len() as int, src as int, dst as int) >= 0) by (nonlinear_arith)
            requires x.len() > 0, src > 0, dst > 0;
    }
}

/// Why a WAV file cannot be handed to the engine.
#[derive(Clone, Copy, Debug, PartialEq, Eq, Structural)]
pub enum WavFormatError {
    /// Samples are not 16 bits wide; the width found.
    UnsupportedBitsPerSample(u16),
    /// Samples are 16 bits wide but not integers.
    NotIntegerSamples,
}

/// Accepts only 16-bit integer samples, checking the width first.
pub fn check_wav_format(bits_per_sample: u16, integer_samples: bool) -> (r: Result<(), WavFormatError>)
    ensures
        bits_per_sample != 16 ==> r == Err::<(), WavFormatError>(WavFormatError::UnsupportedBitsPerSample(bits_per_sample)),
        bits_per_sample == 16 && !integer_samples ==> r == Err::<(), WavFormatError>(WavFormatError::NotIntegerSamples),
        bits_per_sample == 16 && integer_samples ==> r == Ok::<(), WavFormatError>(()),
{
    if bits_per_sample != 16 {
        Err(WavFormatError::UnsupportedBitsPerSample(bits_per_sample))
    } else if !integer_samples {
        Err(WavFormatError::NotIntegerSamples)
    } else {
        Ok(())
    }
}

/// The mono signal of a recording: the samples themselves for one channel,
/// their per-frame mean for more.
pub open spec fn mono_of(raw: Seq<i16>, channels: nat) -> Seq<i16> {
    if channels > 1 {
        downmix(raw, channels)
    } else {
        raw
    }
}

proof fn lemma_resampled_len_monotonic(n1: int, n2: int, src: int, dst: int)
    requires
        0 <= n1 <= n2,
        src >= 1,
        dst >= 0,
    ensures
        resampled_len(n1, src, dst) <= resampled_len(n2, src, dst),
{
    assert(n1 * dst + src - 1 <= n2 * dst + src - 1) by (nonlinear_arith)
        requires n1 <= n2, dst >= 0;
    assert((n1 * dst + src - 1) / src <= (n2 * dst + src - 1) / src) by (nonlinear_arith)
        requires n1 * dst + src - 1 <= n2 * dst + src - 1, src >= 1;
}

/// Turns the 16-bit samples read from a recording into what the engine
/// takes: mono, at `ENGINE_RATE_HZ`.
pub fn prepare_wav_samples(raw: &[i16], channels: u16, sample_rate: u32) -> (r: Vec<i16>)
    requires
        sample_rate == 0 || resampled_len(raw@.len() as int, sample_rate as int, ENGINE_RATE_HZ as int)
            <= usize::MAX,
    ensures
        r@ == resample(mono_of(raw@, channels as nat), sample_rate as nat, ENGINE_RATE_HZ as nat),
{
    let mono = if channels > 1 {
        downmix_to_mono(raw, channels)
    } else {
        vstd::slice::slice_to_vec(raw)
    };
    proof {
        if sample_rate > 0 {
            if channels > 1 {
                assert(mono@.len() <= raw@.len()) by (nonlinear_arith)
                    requires mono@.len() == raw@.len() / (channels as nat), channels >= 1;
            }
            lemma_resampled_len_monotonic(mono@.len() as int, raw@.len() as int, sample_rate as int, ENGINE_RATE_HZ as int);
        }
    }
    if sample_rate != ENGINE_RATE_HZ {
        resample_linear(mono.as_slice(), sample_rate as usize, ENGINE_RATE_HZ as usize)
    } else {
        mono
    }
}

} // verus!
