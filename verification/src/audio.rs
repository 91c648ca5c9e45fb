//! Audio normalization: converting 16-bit PCM sample streams of arbitrary
//! sample rate and channel count into the mono 16 kHz stream the recognition
//! worker consumes.
//!
//! Resampling is linear interpolation carried out in exact integer
//! arithmetic: for output index `i` the fractional source position is
//! `i * source_rate / 16000`, split into a whole index and a numerator over
//! the denominator 16000.  Interpolated values are clamped to the signed
//! 16-bit range and rounded toward zero.  Downmixing averages each frame of
//! interleaved channels with truncating integer division and is applied to
//! the resampled stream, mirroring the order of operations the worker
//! protocol was built around (resampling treats the interleaved stream as a
//! single sequence; see the crate documentation for this deliberate
//! simplification).

use vstd::prelude::*;
use vstd::arithmetic::div_mod::*;

verus! {

/// Sample rate, in Hz, of the stream handed to the recognition worker.
pub const TARGET_SAMPLE_RATE: u32 = 16000;

/// Truncating division (rounding toward zero), the semantics of Rust's `/`
/// on signed integers, for a positive divisor.
pub open spec fn tdiv(num: int, den: int) -> int
    recommends
        den > 0,
{
    if num >= 0 {
        num / den
    } else {
        -((-num) / den)
    }
}

/// Clamp an integer to the signed 16-bit sample range.
pub open spec fn clamp_i16_spec(v: int) -> i16 {
    if v < -32768 {
        -32768i16
    } else if v > 32767 {
        32767i16
    } else {
        v as i16
    }
}

/// Number of output samples when resampling `n` input samples from
/// `rate` Hz to 16000 Hz: the ceiling of `n * 16000 / rate`.
pub open spec fn resample_out_len(n: int, rate: int) -> int
    recommends
        rate >= 1,
        n >= 0,
{
    (n * 16000 + rate - 1) / rate
}

/// Linear interpolation between `s0` and `s1` at fraction `fnum / 16000`,
/// rounded toward zero.
pub open spec fn lerp(s0: i16, s1: i16, fnum: int) -> int
    recommends
        0 <= fnum < 16000,
{
    tdiv(s0 * 16000 + (s1 - s0) * fnum, 16000)
}

/// The sample emitted at output index `i` when resampling `s` from
/// `rate` Hz to 16000 Hz.
pub open spec fn resampled_at(s: Seq<i16>, rate: int, i: int) -> i16
    recommends
        rate >= 1,
        0 <= i,
        i * rate < s.len() * 16000,
{
    let pos = i * rate;
    let idx = pos / 16000;
    let fnum = pos % 16000;
    if idx + 1 < s.len() {
        clamp_i16_spec(lerp(s[idx], s[idx + 1], fnum))
    } else {
        s[idx]
    }
}

/// Resampling `s` from `rate` Hz to 16000 Hz.  At the target rate the
/// stream is returned unchanged; otherwise every output index carries the
/// linear interpolation of its fractional source position.
pub open spec fn resample_spec(s: Seq<i16>, rate: int) -> Seq<i16>
    recommends
        rate >= 1,
{
    if rate == 16000 {
        s
    } else {
        Seq::new(resample_out_len(s.len() as int, rate) as nat, |i: int| resampled_at(s, rate, i))
    }
}

/// Sum of the first `k` channel samples of frame `f` in the interleaved
/// stream `s` with `c` channels per frame.
pub open spec fn frame_sum(s: Seq<i16>, c: int, f: int, k: int) -> int
    decreases k,
{
    if k <= 0 {
        0
    } else {
        frame_sum(s, c, f, k - 1) + s[f * c + k - 1]
    }
}

/// Downmixing an interleaved stream of `c` channels to mono: each whole
/// frame becomes the truncating integer average of its channels, clamped to
/// the 16-bit range; a trailing partial frame is dropped.  With one channel
/// (or none claimed) the stream is returned unchanged.
pub open spec fn downmix_spec(s: Seq<i16>, c: int) -> Seq<i16> {
    if c <= 1 {
        s
    } else {
        Seq::new((s.len() as int / c) as nat, |f: int| clamp_i16_spec(tdiv(frame_sum(s, c, f, c), c)))
    }
}

/// Full normalization: resample to 16000 Hz, then downmix to mono.
/// Resampling is applied to the raw interleaved stream first, matching the
/// worker protocol's documented order of operations.
pub open spec fn normalize_spec(s: Seq<i16>, rate: int, c: int) -> Seq<i16>
    recommends
        rate >= 1,
{
    downmix_spec(resample_spec(s, rate), c)
}

/// Little-endian byte serialization of a 16-bit PCM stream: each sample
/// contributes its low byte, then its high byte.
pub open spec fn le_bytes_spec(s: Seq<i16>) -> Seq<u8> {
    Seq::new(
        (s.len() * 2) as nat,
        |k: int| if k % 2 == 0 { (s[k / 2] as u16 % 256) as u8 } else { (s[k / 2] as u16 / 256) as u8 },
    )
}

proof fn lemma_out_len_bounds(n: int, rate: int)
    requires
        rate >= 1,
        n >= 0,
    ensures
        resample_out_len(n, rate) >= 0,
        resample_out_len(n, rate) * rate <= n * 16000 + rate - 1,
{
    let d = n * 16000 + rate - 1;
    let l = resample_out_len(n, rate);
    lemma_fundamental_div_mod(d, rate);
    lemma_mod_bound(d, rate);
    assert(rate * l == d - d % rate);
    assert(n * 16000 >= 0) by (nonlinear_arith)
        requires
            n >= 0,
    ;
    assert(rate * l >= 0);
    assert(l >= 0) by (nonlinear_arith)
        requires
            rate >= 1,
            rate * l >= 0,
    ;
    assert(l * rate <= d) by (nonlinear_arith)
        requires
            rate * l == d - d % rate,
            d % rate >= 0,
    ;
}

proof fn lemma_src_pos_in_range(n: int, rate: int, i: int)
    requires
        rate >= 1,
        n >= 0,
        0 <= i < resample_out_len(n, rate),
    ensures
        0 <= i * rate,
        i * rate < n * 16000,
        0 <= (i * rate) / 16000 < n,
{
    let l = resample_out_len(n, rate);
    lemma_out_len_bounds(n, rate);
    assert(i * rate <= (l - 1) * rate) by (nonlinear_arith)
        requires
            i <= l - 1,
            rate >= 1,
    ;
    assert((l - 1) * rate == l * rate - rate) by (nonlinear_arith);
    assert(i * rate < n * 16000);
    assert(0 <= i * rate) by (nonlinear_arith)
        requires
            i >= 0,
            rate >= 1,
    ;
    let q = (i * rate) / 16000;
    lemma_fundamental_div_mod(i * rate, 16000);
    lemma_mod_bound(i * rate, 16000);
    assert(q >= 0) by (nonlinear_arith)
        requires
            16000 * q == i * rate - (i * rate) % 16000,
            (i * rate) % 16000 < 16000,
            i * rate >= 0,
    ;
    assert(q < n) by (nonlinear_arith)
        requires
            16000 * q == i * rate - (i * rate) % 16000,
            (i * rate) % 16000 >= 0,
            i * rate < n * 16000,
    ;
}

/// Truncating division of `num` by the positive divisor `den`, carried out
/// on magnitudes so only unsigned machine division is needed.
fn tdiv_i64(num: i64, den: u32) -> (q: i64)
    requires
        den >= 1,
        -0x7fff_ffff_ffff_ffff <= num,
    ensures
        q == tdiv(num as int, den as int),
{
    if num >= 0 {
        let m: u64 = num as u64;
        let d: u64 = den as u64;
        (m / d) as i64
    } else {
        let m: u64 = (-num) as u64;
        let d: u64 = den as u64;
        let mq: u64 = m / d;
        assert(mq <= m) by (nonlinear_arith)
            requires
                d >= 1,
                mq == m as int / d as int,
                m >= 0,
        ;
        -(mq as i64)
    }
}

/// Clamp a value to the signed 16-bit sample range.
fn clamp_i16(v: i64) -> (r: i16)
    ensures
        r == clamp_i16_spec(v as int),
{
    if v < -32768 {
        -32768i16
    } else if v > 32767 {
        32767i16
    } else {
        v as i16
    }
}

/// Resample a 16-bit PCM stream from `from_rate` Hz to 16000 Hz by linear
/// interpolation.  At the target rate the input is returned unchanged.
pub fn resample_i16(samples: &Vec<i16>, from_rate: u32) -> (out: Vec<i16>)
    requires
        from_rate >= 1,
        samples@.len() * 16000 + from_rate <= usize::MAX,
    ensures
        out@ == resample_spec(samples@, from_rate as int),
{
    let n: usize = samples.len();
    if from_rate == TARGET_SAMPLE_RATE {
        let mut out: Vec<i16> = Vec::new();
        let mut i: usize = 0;
        while i < n
            invariant
                i <= n,
                n == samples@.len(),
                out@ == samples@.take(i as int),
            decreases n - i,
        {
            out.push(samples[i]);
            assert(out@ == samples@.take(i + 1 as int));
            i = i + 1;
        }
        assert(samples@.take(n as int) == samples@);
        return out;
    }
    let rate: usize = from_rate as usize;
    proof {
        lemma_out_len_bounds(n as int, rate as int);
    }
    let out_len: usize = (n * 16000 + rate - 1) / rate;
    let ghost target = resample_spec(samples@, from_rate as int);
    let mut out: Vec<i16> = Vec::new();
    let mut i: usize = 0;
    while i < out_len
        invariant
            i <= out_len,
            n == samples@.len(),
            rate == from_rate as int,
            1 <= rate <= u32::MAX,
            n * 16000 + rate <= usize::MAX,
            out_len == resample_out_len(n as int, rate as int),
            target == resample_spec(samples@, from_rate as int),
            from_rate != 16000,
            out@.len() == i,
            forall|j: int| 0 <= j < i ==> out@[j] == resampled_at(samples@, rate as int, j),
        decreases out_len - i,
    {
        proof {
            lemma_src_pos_in_range(n as int, rate as int, i as int);
        }
        let pos: usize = i * rate;
        let idx: usize = pos / 16000;
        let fnum: usize = pos % 16000;
        if idx + 1 < n {
            let s0: i64 = samples[idx] as i64;
            let s1: i64 = samples[idx + 1] as i64;
            assert(-32768 <= s0 <= 32767 && -32768 <= s1 <= 32767);
            assert(-0x7fff_ffff <= (s1 - s0) * (fnum as i64) <= 0x7fff_ffff) by (nonlinear_arith)
                requires
                    -65535 <= s1 - s0 <= 65535,
                    0 <= fnum < 16000,
            ;
            let num: i64 = s0 * 16000 + (s1 - s0) * (fnum as i64);
            let v: i64 = tdiv_i64(num, 16000);
            out.push(clamp_i16(v));
            assert(out@[i as int] == resampled_at(samples@, rate as int, i as int));
        } else {
            out.push(samples[idx]);
            assert(out@[i as int] == resampled_at(samples@, rate as int, i as int));
        }
        i = i + 1;
    }
    proof {
        assert(out@ =~= target);
    }
    out
}

proof fn lemma_frame_bounds(n: int, c: int, f: int)
    requires
        c >= 2,
        n >= 0,
        0 <= f < n / c,
    ensures
        0 <= f * c,
        f * c + c <= n,
{
    let frames = n / c;
    lemma_fundamental_div_mod(n, c);
    lemma_mod_bound(n, c);
    assert(c * frames == n - n % c);
    assert(f * c <= (frames - 1) * c) by (nonlinear_arith)
        requires
            f <= frames - 1,
            c >= 2,
    ;
    assert((frames - 1) * c == frames * c - c) by (nonlinear_arith);
    assert(f * c >= 0) by (nonlinear_arith)
        requires
            f >= 0,
            c >= 2,
    ;
}

/// Downmix an interleaved multi-channel 16-bit PCM stream to mono by
/// averaging each frame with truncating integer division.  Inputs with one
/// channel (or a zero channel claim) are returned unchanged; a trailing
/// partial frame is dropped.
pub fn to_mono_i16(samples: &Vec<i16>, channels: u16) -> (out: Vec<i16>)
    ensures
        out@ == downmix_spec(samples@, channels as int),
{
    let n: usize = samples.len();
    if channels <= 1 {
        let mut out: Vec<i16> = Vec::new();
        let mut i: usize = 0;
        while i < n
            invariant
                i <= n,
                n == samples@.len(),
                out@ == samples@.take(i as int),
            decreases n - i,
        {
            out.push(samples[i]);
            assert(out@ == samples@.take(i + 1 as int));
            i = i + 1;
        }
        assert(samples@.take(n as int) == samples@);
        return out;
    }
    let c: usize = channels as usize;
    let frames: usize = n / c;
    let ghost target = downmix_spec(samples@, channels as int);
    let mut out: Vec<i16> = Vec::new();
    let mut f: usize = 0;
    while f < frames
        invariant
            f <= frames,
            n == samples@.len(),
            2 <= c <= 65535,
            c == channels as int,
            frames == n as int / c as int,
            target == downmix_spec(samples@, channels as int),
            out@.len() == f,
            forall|j: int| 0 <= j < f ==> out@[j] == clamp_i16_spec(
                tdiv(frame_sum(samples@, c as int, j, c as int), c as int),
            ),
        decreases frames - f,
    {
        proof {
            lemma_frame_bounds(n as int, c as int, f as int);
        }
        let base: usize = f * c;
        let mut sum: i64 = 0;
        let mut k: usize = 0;
        while k < c
            invariant
                k <= c,
                n == samples@.len(),
                2 <= c <= 65535,
                0 <= base,
                base == f * c,
                base + c <= n,
                sum == frame_sum(samples@, c as int, f as int, k as int),
                -32768 * k <= sum <= 32767 * k,
            decreases c - k,
        {
            sum = sum + samples[base + k] as i64;
            k = k + 1;
        }
        let avg: i64 = tdiv_i64(sum, c as u32);
        out.push(clamp_i16(avg));
        assert(out@[f as int] == clamp_i16_spec(
            tdiv(frame_sum(samples@, c as int, f as int, c as int), c as int),
        ));
        f = f + 1;
    }
    proof {
        assert(out@ =~= target);
    }
    out
}

/// Normalize a 16-bit PCM stream for the worker: resample to 16000 Hz, then
/// downmix to mono.
pub fn normalize_i16(samples: &Vec<i16>, sample_rate: u32, channels: u16) -> (out: Vec<i16>)
    requires
        sample_rate >= 1,
        samples@.len() * 16000 + sample_rate <= usize::MAX,
    ensures
        out@ == normalize_spec(samples@, sample_rate as int, channels as int),
{
    let resampled = resample_i16(samples, sample_rate);
    to_mono_i16(&resampled, channels)
}

/// Serialize a mono 16-bit PCM stream as little-endian bytes, the wire
/// format of the worker's audio input pipe.
pub fn pcm_le_bytes(samples: &Vec<i16>) -> (out: Vec<u8>)
    requires
        samples@.len() * 2 <= usize::MAX,
    ensures
        out@ == le_bytes_spec(samples@),
{
    let n: usize = samples.len();
    let mut out: Vec<u8> = Vec::new();
    let mut i: usize = 0;
    while i < n
        invariant
            i <= n,
            n == samples@.len(),
            n * 2 <= usize::MAX,
            out@.len() == 2 * i,
            forall|j: int| 0 <= j < i ==> out@[2 * j] == (samples@[j] as u16 % 256) as u8
                && out@[2 * j + 1] == (samples@[j] as u16 / 256) as u8,
        decreases n - i,
    {
        let u: u16 = #[verifier::truncate] (samples[i] as u16);
        out.push((u % 256) as u8);
        out.push((u / 256) as u8);
        i = i + 1;
    }
    proof {
        assert(out@ =~= le_bytes_spec(samples@));
    }
    out
}

/// The normalized stream is never longer than 16000 times the input: the
/// bound that keeps its byte serialization within machine limits.
pub proof fn lemma_normalize_len(s: Seq<i16>, rate: int, c: int)
    requires
        rate >= 1,
    ensures
        normalize_spec(s, rate, c).len() <= s.len() * 16000,
{
    let n = s.len() as int;
    let rl = resample_spec(s, rate).len() as int;
    if rate == 16000 {
        assert(n <= n * 16000) by (nonlinear_arith)
            requires
                n >= 0,
        ;
    } else {
        let l = resample_out_len(n, rate);
        lemma_out_len_bounds(n, rate);
        assert(l <= n * 16000) by (nonlinear_arith)
            requires
                l * rate <= n * 16000 + rate - 1,
                rate >= 1,
                l >= 0,
                n >= 0,
        ;
    }
    if c > 1 {
        let q = rl / c;
        lemma_fundamental_div_mod(rl, c);
        lemma_mod_bound(rl, c);
        assert(q <= rl) by (nonlinear_arith)
            requires
                c * q == rl - rl % c,
                rl % c >= 0,
                rl >= 0,
                c > 1,
        ;
    }
}

/// Law: at the target rate and with a single channel, normalization is the
/// identity on any sample sequence.
pub proof fn lemma_normalize_identity(s: Seq<i16>)
    ensures
        normalize_spec(s, 16000, 1) == s,
{
}

/// Law: for every sample sequence and every positive source rate, the
/// resampled stream has exactly `ceil(len * 16000 / rate)` samples.
/// In exact arithmetic the fractional source position of every index
/// below that ceiling lies inside the input, so the tail is never
/// silently truncated and the length formula holds unconditionally.
pub proof fn lemma_resample_length(s: Seq<i16>, rate: int)
    requires
        rate >= 1,
    ensures
        resample_spec(s, rate).len() == (s.len() * 16000 + rate - 1) / rate,
{
    let n = s.len() as int;
    if rate == 16000 {
        assert((n * 16000 + 15999) / 16000 == n) by (nonlinear_arith);
    } else {
        lemma_out_len_bounds(n, rate);
    }
}

/// Law: downmixing a two-channel stream of frames `[(a, b), (c, d), ...]`
/// yields `[(a + b) / 2, (c + d) / 2, ...]` with truncating integer
/// division, each value clamped to the 16-bit range.
pub proof fn lemma_downmix_stereo(s: Seq<i16>)
    requires
        s.len() % 2 == 0,
    ensures
        downmix_spec(s, 2).len() == s.len() / 2,
        forall|f: int| 0 <= f < s.len() / 2 ==> downmix_spec(s, 2)[f] == clamp_i16_spec(
            tdiv(s[2 * f] + s[2 * f + 1], 2),
        ),
{
    assert forall|f: int| 0 <= f < s.len() / 2 implies downmix_spec(s, 2)[f] == clamp_i16_spec(
        tdiv(s[2 * f] + s[2 * f + 1], 2),
    ) by {
        assert(frame_sum(s, 2, f, 2) == frame_sum(s, 2, f, 1) + s[f * 2 + 1]);
        assert(frame_sum(s, 2, f, 1) == frame_sum(s, 2, f, 0) + s[f * 2]);
        assert(frame_sum(s, 2, f, 0) == 0);
    }
}

} // verus!

