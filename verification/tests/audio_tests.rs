// Tests for audio normalization: resampling, downmixing, serialization.

use swift_scribe::normalize_i16;
use swift_scribe::pcm_le_bytes;
use swift_scribe::resample_i16;
use swift_scribe::to_mono_i16;

#[test]
fn identity_at_target_rate_mono() {
    // At 16 kHz mono, normalization is the identity.
    let samples: Vec<i16> = vec![0, 1, -1, 32767, -32768, 1234];
    let out = normalize_i16(&samples, 16000, 1);
    assert_eq!(out, samples);
}

#[test]
fn identity_at_target_rate_zero_channels() {
    // A zero channel claim leaves the stream unchanged too.
    let samples: Vec<i16> = vec![5, 6, 7];
    let out = normalize_i16(&samples, 16000, 0);
    assert_eq!(out, samples);
}

#[test]
fn resample_output_length_is_ceiling() {
    // output_len == ceil(input_len * 16000 / source_rate)
    let three: Vec<i16> = vec![10, 20, 30];
    assert_eq!(resample_i16(&three, 8000).len(), 6); // ceil(3 * 2)
    let seven: Vec<i16> = vec![0; 7];
    assert_eq!(resample_i16(&seven, 48000).len(), 3); // ceil(7 / 3)
    let five: Vec<i16> = vec![0; 5];
    assert_eq!(resample_i16(&five, 32000).len(), 3); // ceil(5 / 2)
    let empty: Vec<i16> = Vec::new();
    assert_eq!(resample_i16(&empty, 44100).len(), 0);
}

#[test]
fn resample_upsamples_by_linear_interpolation() {
    // 8 kHz -> 16 kHz doubles the stream; odd outputs are midpoints and
    // the tail repeats the last sample.
    let samples: Vec<i16> = vec![0, 300];
    let out = resample_i16(&samples, 8000);
    assert_eq!(out, vec![0, 150, 300, 300]);
}

#[test]
fn resample_downsamples_by_stepping() {
    // 32 kHz -> 16 kHz keeps every other sample.
    let samples: Vec<i16> = vec![1, 2, 3, 4, 5];
    let out = resample_i16(&samples, 32000);
    assert_eq!(out, vec![1, 3, 5]);
}

#[test]
fn resample_interpolation_truncates_toward_zero() {
    // Midpoint of -3 and 0 is -1.5; truncation toward zero gives -1.
    let samples: Vec<i16> = vec![-3, 0];
    let out = resample_i16(&samples, 8000);
    assert_eq!(out, vec![-3, -1, 0, 0]);
}

#[test]
fn downmix_stereo_averages_frames() {
    // [(a,b), (c,d)] -> [(a+b)/2, (c+d)/2] with integer division.
    let samples: Vec<i16> = vec![1, 3, 5, 8];
    let out = to_mono_i16(&samples, 2);
    assert_eq!(out, vec![2, 6]);
}

#[test]
fn downmix_negative_sum_truncates_toward_zero() {
    let samples: Vec<i16> = vec![-3, 0];
    let out = to_mono_i16(&samples, 2);
    assert_eq!(out, vec![-1]);
}

#[test]
fn downmix_drops_trailing_partial_frame() {
    let samples: Vec<i16> = vec![1, 3, 7];
    let out = to_mono_i16(&samples, 2);
    assert_eq!(out, vec![2]);
}

#[test]
fn downmix_extreme_values_stay_in_range() {
    let samples: Vec<i16> = vec![-32768, -32768, 32767, 32767];
    let out = to_mono_i16(&samples, 2);
    assert_eq!(out, vec![-32768, 32767]);
}

#[test]
fn normalize_resamples_then_downmixes() {
    // The interleaved stream is resampled as one sequence first, then
    // downmixed: stereo [10, 20, 30, 40] at 32 kHz steps to [10, 30]
    // and averages to [20].
    let samples: Vec<i16> = vec![10, 20, 30, 40];
    let out = normalize_i16(&samples, 32000, 2);
    assert_eq!(out, vec![20]);
}

#[test]
fn pcm_bytes_are_little_endian() {
    let samples: Vec<i16> = vec![1, -2, 0x1234];
    let out = pcm_le_bytes(&samples);
    assert_eq!(out, vec![0x01, 0x00, 0xfe, 0xff, 0x34, 0x12]);
}
