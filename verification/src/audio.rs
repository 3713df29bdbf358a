//! Loudness extraction: raw capture buffers are decoded into per-frame
//! stereo samples, reduced to a root-mean-square power per channel, mapped
//! through a configured decibel window onto the unit interval (in
//! thousandths), and smoothed with distinct attack and decay rates.
//!
//! Integer sample encodings are decoded here, exactly. The one step that
//! needs transcendental arithmetic — turning an RMS value into decibels —
//! takes its result as an argument (`db_centi`, hundredths of a decibel), and
//! everything before and after it is verified; a zero RMS never consults it.

use vstd::prelude::*;

use crate::config::AudioBhvConf;
use crate::errors::AudioError;

verus! {

/// The integer sample encodings the decoder understands.
#[derive(Clone, Copy, PartialEq, Eq, Structural, Debug)]
pub enum SampleFormat {
    S16Le,
    S16Be,
    S32Le,
    S32Be,
}

impl SampleFormat {
    /// Bytes per sample.
    pub open spec fn spec_size(self) -> int {
        match self {
            SampleFormat::S16Le | SampleFormat::S16Be => 2,
            SampleFormat::S32Le | SampleFormat::S32Be => 4,
        }
    }

    pub fn size(self) -> (s: usize)
        ensures
            s == self.spec_size(),
    {
        match self {
            SampleFormat::S16Le | SampleFormat::S16Be => 2,
            SampleFormat::S32Le | SampleFormat::S32Be => 4,
        }
    }
}

/// A 16-bit two's-complement value from its low and high byte.
pub open spec fn spec_i16_value(lo: u8, hi: u8) -> int {
    let u = lo + 256 * hi;
    if u >= 32768 {
        u - 65536
    } else {
        u as int
    }
}

/// A 32-bit two's-complement value from its four bytes, least significant
/// first.
pub open spec fn spec_i32_value(b0: u8, b1: u8, b2: u8, b3: u8) -> int {
    let u = b0 + 256 * b1 + 65536 * b2 + 16777216 * b3;
    if u >= 0x8000_0000 {
        u - 0x1_0000_0000
    } else {
        u as int
    }
}

/// Values within one least significant bit of zero are decoder noise and
/// count as silence.
pub open spec fn spec_noise_gate(v: int) -> int {
    if -1 <= v <= 1 {
        0
    } else {
        v
    }
}

/// The decoded, noise-gated sample whose bytes start at `base`.
pub open spec fn spec_sample_at(data: Seq<u8>, fmt: SampleFormat, base: int) -> int {
    match fmt {
        SampleFormat::S16Le => spec_noise_gate(spec_i16_value(data[base], data[base + 1])),
        SampleFormat::S16Be => spec_noise_gate(spec_i16_value(data[base + 1], data[base])),
        SampleFormat::S32Le => spec_noise_gate(
            spec_i32_value(data[base], data[base + 1], data[base + 2], data[base + 3]),
        ),
        SampleFormat::S32Be => spec_noise_gate(
            spec_i32_value(data[base + 3], data[base + 2], data[base + 1], data[base]),
        ),
    }
}

/// Left sample of frame `f`.
pub open spec fn spec_frame_left(data: Seq<u8>, fmt: SampleFormat, channels: int, f: int) -> int {
    spec_sample_at(data, fmt, f * (fmt.spec_size() * channels))
}

/// Right sample of frame `f`; mono duplicates the left channel.
pub open spec fn spec_frame_right(data: Seq<u8>, fmt: SampleFormat, channels: int, f: int) -> int {
    if channels == 2 {
        spec_sample_at(data, fmt, f * (fmt.spec_size() * channels) + fmt.spec_size())
    } else {
        spec_frame_left(data, fmt, channels, f)
    }
}

/// Only mono and stereo buffers can be split into left and right loudness.
pub fn validate_channels(channels: usize) -> (r: Result<usize, AudioError>)
    ensures
        r is Ok <==> 1 <= channels <= 2,
        r is Ok ==> r->Ok_0 == channels,
        r is Err ==> r->Err_0 == (AudioError::UnsupportedChannels { channels }),
{
    if channels == 0 || channels > 2 {
        Err(AudioError::UnsupportedChannels { channels })
    } else {
        Ok(channels)
    }
}

fn decode_i16(lo: u8, hi: u8) -> (v: i32)
    ensures
        v == spec_i16_value(lo, hi),
{
    let u: u32 = lo as u32 + 256 * (hi as u32);
    if u >= 32768 {
        u as i32 - 65536
    } else {
        u as i32
    }
}

fn decode_i32(b0: u8, b1: u8, b2: u8, b3: u8) -> (v: i32)
    ensures
        v == spec_i32_value(b0, b1, b2, b3),
{
    let u: u64 = b0 as u64 + 256 * (b1 as u64) + 65536 * (b2 as u64) + 16777216 * (b3 as u64);
    if u >= 0x8000_0000 {
        (u as i64 - 0x1_0000_0000) as i32
    } else {
        u as i32
    }
}

fn noise_gate(v: i32) -> (r: i32)
    ensures
        r == spec_noise_gate(v as int),
{
    if -1 <= v && v <= 1 {
        0
    } else {
        v
    }
}

fn sample_at(data: &Vec<u8>, fmt: SampleFormat, base: usize) -> (v: i32)
    requires
        base + fmt.spec_size() <= data@.len(),
    ensures
        v == spec_sample_at(data@, fmt, base as int),
{
    proof {
        assert(data@.len() == data.len());
    }
    match fmt {
        SampleFormat::S16Le => noise_gate(decode_i16(data[base], data[base + 1])),
        SampleFormat::S16Be => noise_gate(decode_i16(data[base + 1], data[base])),
        SampleFormat::S32Le => noise_gate(
            decode_i32(data[base], data[base + 1], data[base + 2], data[base + 3]),
        ),
        SampleFormat::S32Be => noise_gate(
            decode_i32(data[base + 3], data[base + 2], data[base + 1], data[base]),
        ),
    }
}

/// Decodes a raw capture buffer into whole frames of noise-gated stereo
/// samples; a trailing partial frame is dropped, and a mono stream fills both
/// channels. Fails exactly on an unsupported channel count.
pub fn decode_frames(data: &Vec<u8>, fmt: SampleFormat, channels: usize) -> (r: Result<
    Vec<(i32, i32)>,
    AudioError,
>)
    ensures
        r is Ok <==> 1 <= channels <= 2,
        r is Err ==> r->Err_0 == (AudioError::UnsupportedChannels { channels }),
        r is Ok ==> {
            let frames = r->Ok_0@;
            &&& frames.len() == data@.len() as int / (fmt.spec_size() * channels)
            &&& forall|f: int|
                0 <= f < frames.len() ==> #[trigger] frames[f] == (
                spec_frame_left(data@, fmt, channels as int, f) as i32,
                spec_frame_right(data@, fmt, channels as int, f) as i32,
                )
        },
{
    let channels = match validate_channels(channels) {
        Ok(c) => c,
        Err(e) => {
            return Err(e);
        },
    };
    let size = fmt.size();
    let stride = size * channels;
    let n = data.len() / stride;
    proof {
        vstd::arithmetic::div_mod::lemma_fundamental_div_mod(data@.len() as int, stride as int);
        vstd::arithmetic::div_mod::lemma_mod_bound(data@.len() as int, stride as int);
        assert((n as int) * (stride as int) <= data@.len()) by (nonlinear_arith)
            requires
                data@.len() as int == (stride as int) * (data@.len() as int / (stride as int)) + (
                data@.len() as int) % (stride as int),
                n as int == data@.len() as int / (stride as int),
                0 <= (data@.len() as int) % (stride as int),
        ;
    }
    let mut frames: Vec<(i32, i32)> = Vec::new();
    let mut f: usize = 0;
    while f < n
        invariant
            f <= n,
            frames@.len() == f,
            stride == fmt.spec_size() * channels,
            1 <= channels <= 2,
            size == fmt.spec_size(),
            (n as int) * (stride as int) <= data@.len(),
            forall|j: int|
                0 <= j < f ==> #[trigger] frames@[j] == (
                spec_frame_left(data@, fmt, channels as int, j) as i32,
                spec_frame_right(data@, fmt, channels as int, j) as i32,
                ),
        decreases n - f,
    {
        proof {
            assert(data@.len() == data.len());
            assert((f as int) * (stride as int) + stride <= (n as int) * (stride as int))
                by (nonlinear_arith)
                requires
                    f as int + 1 <= n as int,
                    0 <= stride,
            ;
        }
        let base: usize = f * stride;
        let left = sample_at(data, fmt, base);
        let right = if channels == 2 {
            sample_at(data, fmt, base + size)
        } else {
            left
        };
        frames.push((left, right));
        f = f + 1;
    }
    Ok(frames)
}

/// Power of the left channel over the first `k` frames.
pub open spec fn spec_sum_sq_left(s: Seq<(i32, i32)>, k: int) -> int
    decreases k,
{
    if k <= 0 {
        0
    } else {
        spec_sum_sq_left(s, k - 1) + s[k - 1].0 * s[k - 1].0
    }
}

/// Power of the right channel over the first `k` frames.
pub open spec fn spec_sum_sq_right(s: Seq<(i32, i32)>, k: int) -> int
    decreases k,
{
    if k <= 0 {
        0
    } else {
        spec_sum_sq_right(s, k - 1) + s[k - 1].1 * s[k - 1].1
    }
}

/// A square of an `i32` stays within `2^62`, so the sums stay within
/// `k * 2^62`.
proof fn lemma_sum_sq_bounds(s: Seq<(i32, i32)>, k: int)
    requires
        0 <= k <= s.len(),
    ensures
        0 <= spec_sum_sq_left(s, k) <= k * 0x4000_0000_0000_0000,
        0 <= spec_sum_sq_right(s, k) <= k * 0x4000_0000_0000_0000,
    decreases k,
{
    if k > 0 {
        lemma_sum_sq_bounds(s, k - 1);
        let a = s[k - 1].0 as int;
        let b = s[k - 1].1 as int;
        assert(0 <= a * a <= 0x4000_0000_0000_0000 && 0 <= b * b <= 0x4000_0000_0000_0000)
            by (nonlinear_arith)
            requires
                -0x8000_0000 <= a <= 0x7fff_ffff,
                -0x8000_0000 <= b <= 0x7fff_ffff,
        ;
        assert((k - 1) * 0x4000_0000_0000_0000 + 0x4000_0000_0000_0000 == k
            * 0x4000_0000_0000_0000) by (nonlinear_arith);
    } else {
        assert(k == 0);
        assert(k * 0x4000_0000_0000_0000 == 0) by (nonlinear_arith)
            requires
                k == 0,
        ;
    }
}

/// Sum of squared samples per channel: the unnormalized power of the buffer.
pub fn stereo_sum_squares(frames: &Vec<(i32, i32)>) -> (r: (u128, u128))
    ensures
        r.0 == spec_sum_sq_left(frames@, frames@.len() as int),
        r.1 == spec_sum_sq_right(frames@, frames@.len() as int),
{
    let n = frames.len();
    let mut left: u128 = 0;
    let mut right: u128 = 0;
    let mut i: usize = 0;
    while i < n
        invariant
            i <= n,
            n == frames@.len(),
            left == spec_sum_sq_left(frames@, i as int),
            right == spec_sum_sq_right(frames@, i as int),
        decreases n - i,
    {
        proof {
            lemma_sum_sq_bounds(frames@, i as int);
            assert((i as int) * 0x4000_0000_0000_0000 <= 0xffff_ffff_ffff_ffff
                * 0x4000_0000_0000_0000) by (nonlinear_arith)
                requires
                    0 <= i as int <= 0xffff_ffff_ffff_ffff,
            ;
            let a = frames@[i as int].0 as int;
            let b = frames@[i as int].1 as int;
            assert(0 <= a * a <= 0x4000_0000_0000_0000 && 0 <= b * b <= 0x4000_0000_0000_0000)
                by (nonlinear_arith)
                requires
                    -0x8000_0000 <= a <= 0x7fff_ffff,
                    -0x8000_0000 <= b <= 0x7fff_ffff,
            ;
        }
        let (l, r) = frames[i];
        left = left + ((l as i64) * (l as i64)) as u128;
        right = right + ((r as i64) * (r as i64)) as u128;
        i = i + 1;
    }
    (left, right)
}

/// The integer square root: the largest `r` with `r * r <= x`.
pub fn isqrt64(x: u64) -> (r: u64)
    ensures
        (r as int) * (r as int) <= x,
        x < ((r as int + 1) * (r as int + 1)),
{
    let mut lo: u64 = 0;
    let mut hi: u64 = 0x1_0000_0000;
    proof {
        assert((0x1_0000_0000 as int) * (0x1_0000_0000 as int) > u64::MAX as int)
            by (nonlinear_arith);
    }
    while hi - lo > 1
        invariant
            lo < hi <= 0x1_0000_0000,
            (lo as int) * (lo as int) <= x,
            (hi as int) * (hi as int) > x,
        decreases hi - lo,
    {
        let mid: u64 = lo + (hi - lo) / 2;
        proof {
            assert((mid as int) * (mid as int) <= 0x1_0000_0000 * 0x1_0000_0000)
                by (nonlinear_arith)
                requires
                    mid <= 0x1_0000_0000,
            ;
        }
        if (mid as u128) * (mid as u128) <= x as u128 {
            lo = mid;
        } else {
            hi = mid;
        }
    }
    lo
}

/// The root-mean-square of a channel, unnormalized: the integer square root
/// of the mean of the squared samples.
pub fn rms_raw(sum_sq: u128, frames: usize) -> (r: u64)
    requires
        frames > 0,
        sum_sq <= (frames as int) * 0x4000_0000_0000_0000,
    ensures
        (r as int) * (r as int) <= sum_sq as int / frames as int,
        (sum_sq as int / frames as int) < ((r as int + 1) * (r as int + 1)),
        sum_sq == 0 ==> r == 0,
{
    proof {
        assert(sum_sq as int / (frames as int) <= 0x4000_0000_0000_0000) by (nonlinear_arith)
            requires
                frames > 0,
                sum_sq <= (frames as int) * 0x4000_0000_0000_0000,
        ;
        if sum_sq == 0 {
            assert(sum_sq as int / (frames as int) == 0);
        }
    }
    let mean: u128 = sum_sq / (frames as u128);
    let r = isqrt64(mean as u64);
    proof {
        if sum_sq == 0 {
            assert((r as int) * (r as int) == 0 ==> r == 0) by (nonlinear_arith);
            assert((r as int) * (r as int) <= 0);
        }
    }
    r
}

/// Where a loudness in hundredths of a decibel lands in the configured
/// window, in thousandths of full scale: 0 at or below the floor, 1000 at or
/// above the ceiling, linear in between (truncating).
pub open spec fn spec_level_from_db(db_centi: int, conf: AudioBhvConf) -> u32 {
    if db_centi <= conf.min_level_centi_db {
        0u32
    } else if db_centi >= conf.max_level_centi_db {
        1000u32
    } else {
        (((db_centi - conf.min_level_centi_db) * 1000) / (conf.max_level_centi_db as int
            - conf.min_level_centi_db as int)) as u32
    }
}

/// Maps one channel's measured loudness onto the unit interval. A silent
/// channel (zero RMS) is level zero outright — its decibel value is never
/// consulted, so the caller may pass anything for it.
pub fn level_from_rms(rms: u64, db_centi: i64, conf: &AudioBhvConf) -> (l: u32)
    requires
        conf.wf(),
    ensures
        rms == 0 ==> l == 0,
        rms > 0 ==> l == spec_level_from_db(db_centi as int, *conf),
        l <= 1000,
{
    if rms == 0 {
        return 0;
    }
    let min: i64 = conf.min_level_centi_db as i64;
    let max: i64 = conf.max_level_centi_db as i64;
    if db_centi <= min {
        0
    } else if db_centi >= max {
        1000
    } else {
        proof {
            assert((db_centi - min) * 1000 < (max - min) * 1000) by (nonlinear_arith)
                requires
                    db_centi - min < max - min,
                    0 < db_centi - min,
            ;
            assert(((db_centi - min) as int) * 1000 / ((max - min) as int) < 1000)
                by (nonlinear_arith)
                requires
                    0 < ((db_centi - min) as int),
                    ((db_centi - min) as int) < ((max - min) as int),
            ;
        }
        (((db_centi - min) * 1000) / (max - min)) as u32
    }
}

/// One smoothing step: `prev + rate * (target - prev)` with the attack rate
/// for a rising target and the decay rate for a falling one, each in
/// thousandths per step.
pub open spec fn spec_smooth(prev: u32, target: u32, attack: u32, decay: u32) -> u32 {
    if target > prev {
        (prev + attack * (target - prev) / 1000) as u32
    } else {
        (prev - decay * (prev - target) / 1000) as u32
    }
}

/// Exponential one-pole smoothing with asymmetric rates: fast attack, slow
/// release.
pub fn smooth_audio_level(target: u32, prev: u32, conf: &AudioBhvConf) -> (s: u32)
    requires
        conf.wf(),
        target <= 1000,
        prev <= 1000,
    ensures
        s == spec_smooth(prev, target, conf.attack_milli, conf.decay_milli),
        s <= 1000,
{
    if target > prev {
        proof {
            assert((conf.attack_milli as int) * (target - prev) <= 1000 * (target - prev) <= 1000
                * 1000) by (nonlinear_arith)
                requires
                    conf.attack_milli <= 1000,
                    prev <= target <= 1000,
            ;
        }
        let step: u32 = conf.attack_milli * (target - prev) / 1000;
        prev + step
    } else {
        proof {
            assert((conf.decay_milli as int) * (prev - target) <= 1000 * (prev - target) <= 1000
                * 1000) by (nonlinear_arith)
                requires
                    conf.decay_milli <= 1000,
                    target <= prev <= 1000,
            ;
        }
        let step: u32 = conf.decay_milli * (prev - target) / 1000;
        prev - step
    }
}

/// The smoothed stereo loudness register: the capture thread updates it with
/// each buffer's levels, the behavior reads the latest value at its own
/// cadence.
#[derive(Clone, Copy, PartialEq, Eq, Structural, Debug)]
pub struct AudioEnvelope {
    pub conf: AudioBhvConf,
    pub left_milli: u32,
    pub right_milli: u32,
}

impl AudioEnvelope {
    pub open spec fn wf(&self) -> bool {
        &&& self.conf.wf()
        &&& self.left_milli <= 1000
        &&& self.right_milli <= 1000
    }

    pub fn new(conf: AudioBhvConf) -> (e: AudioEnvelope)
        requires
            conf.wf(),
        ensures
            e == (AudioEnvelope { conf, left_milli: 0u32, right_milli: 0u32 }),
            e.wf(),
    {
        AudioEnvelope { conf, left_milli: 0, right_milli: 0 }
    }

    /// Folds one buffer's target levels into the register.
    pub fn update(&mut self, target_left: u32, target_right: u32)
        requires
            old(self).wf(),
            target_left <= 1000,
            target_right <= 1000,
        ensures
            final(self).conf == old(self).conf,
            final(self).left_milli == spec_smooth(
                old(self).left_milli,
                target_left,
                old(self).conf.attack_milli,
                old(self).conf.decay_milli,
            ),
            final(self).right_milli == spec_smooth(
                old(self).right_milli,
                target_right,
                old(self).conf.attack_milli,
                old(self).conf.decay_milli,
            ),
            final(self).wf(),
    {
        self.left_milli = smooth_audio_level(target_left, self.left_milli, &self.conf);
        self.right_milli = smooth_audio_level(target_right, self.right_milli, &self.conf);
    }
}

/// A silent buffer is silent all the way down: every decoded sample of an
/// all-zero buffer is zero, so both channel powers are zero — and a zero
/// power gives a zero RMS and level zero, whatever the decibel window.
pub proof fn lemma_silence_yields_zero(
    data: Seq<u8>,
    fmt: SampleFormat,
    channels: int,
    frames: Seq<(i32, i32)>,
)
    requires
        forall|i: int| 0 <= i < data.len() ==> data[i] == 0,
        1 <= channels <= 2,
        forall|f: int|
            0 <= f < frames.len() ==> #[trigger] frames[f] == (
            spec_frame_left(data, fmt, channels, f) as i32,
            spec_frame_right(data, fmt, channels, f) as i32,
            ),
        frames.len() * (fmt.spec_size() * channels) <= data.len(),
    ensures
        forall|f: int| 0 <= f < frames.len() ==> #[trigger] frames[f] == (0i32, 0i32),
        spec_sum_sq_left(frames, frames.len() as int) == 0,
        spec_sum_sq_right(frames, frames.len() as int) == 0,
{
    assert forall|f: int| 0 <= f < frames.len() implies #[trigger] frames[f] == (0i32, 0i32) by {
        let stride = fmt.spec_size() * channels;
        assert((f + 1) * stride <= frames.len() * stride) by (nonlinear_arith)
            requires
                f + 1 <= frames.len(),
                stride >= 0,
        ;
        assert(f * stride + stride == (f + 1) * stride) by (nonlinear_arith);
        assert(0 <= f * stride) by (nonlinear_arith)
            requires
                f >= 0,
                stride >= 0,
        ;
        assert(spec_sample_at(data, fmt, f * stride) == 0);
        if channels == 2 {
            assert(spec_sample_at(data, fmt, f * stride + fmt.spec_size()) == 0);
        }
    }
    lemma_zero_frames_sum(frames, frames.len() as int);
}

proof fn lemma_zero_frames_sum(frames: Seq<(i32, i32)>, k: int)
    requires
        0 <= k <= frames.len(),
        forall|f: int| 0 <= f < frames.len() ==> #[trigger] frames[f] == (0i32, 0i32),
    ensures
        spec_sum_sq_left(frames, k) == 0,
        spec_sum_sq_right(frames, k) == 0,
    decreases k,
{
    if k > 0 {
        lemma_zero_frames_sum(frames, k - 1);
    }
}

} // verus!
