use plight::audio::{
    decode_frames, isqrt64, level_from_rms, rms_raw, smooth_audio_level, stereo_sum_squares,
    validate_channels, AudioEnvelope, SampleFormat,
};
use plight::config::AudioBhvConf;
use plight::errors::AudioError;

fn conf() -> AudioBhvConf {
    AudioBhvConf {
        attack_milli: 70,
        decay_milli: 70,
        min_level_centi_db: -8000,
        max_level_centi_db: -1500,
    }
}

#[test]
fn channel_counts_outside_stereo_are_rejected() {
    assert!(matches!(validate_channels(0), Err(AudioError::UnsupportedChannels { channels: 0 })));
    assert_eq!(validate_channels(1).unwrap(), 1);
    assert_eq!(validate_channels(2).unwrap(), 2);
    assert!(matches!(validate_channels(3), Err(AudioError::UnsupportedChannels { channels: 3 })));
    assert!(matches!(
        decode_frames(&vec![0u8; 8], SampleFormat::S16Le, 3),
        Err(AudioError::UnsupportedChannels { channels: 3 })
    ));
}

#[test]
fn s16_le_stereo_decodes_frames() {
    // one frame: left 0x4000, right -0x4000
    let data = vec![0x00, 0x40, 0x00, 0xC0];
    let frames = decode_frames(&data, SampleFormat::S16Le, 2).unwrap();
    assert_eq!(frames, vec![(0x4000, -0x4000)]);
}

#[test]
fn s16_be_mono_duplicates_to_both_channels() {
    let data = vec![0x40, 0x00, 0xC0, 0x00];
    let frames = decode_frames(&data, SampleFormat::S16Be, 1).unwrap();
    assert_eq!(frames, vec![(0x4000, 0x4000), (-0x4000, -0x4000)]);
}

#[test]
fn s32_formats_decode_and_gate_noise() {
    let data = vec![0xFF, 0xFF, 0xFF, 0x7F, 0x01, 0x00, 0x00, 0x00];
    let frames = decode_frames(&data, SampleFormat::S32Le, 2).unwrap();
    // the second sample is within one LSB of zero and is gated to silence
    assert_eq!(frames, vec![(0x7FFF_FFFF, 0)]);

    let data_be = vec![0x80, 0x00, 0x00, 0x00];
    let frames_be = decode_frames(&data_be, SampleFormat::S32Be, 1).unwrap();
    assert_eq!(frames_be, vec![(i32::MIN, i32::MIN)]);
}

#[test]
fn one_lsb_is_gated_to_silence() {
    let data = vec![0x01, 0x00, 0xFF, 0xFF, 0x02, 0x00, 0x00, 0x00];
    let frames = decode_frames(&data, SampleFormat::S16Le, 2).unwrap();
    // 1 and -1 gate to 0; 2 and 0 stay
    assert_eq!(frames, vec![(0, 0), (2, 0)]);
}

#[test]
fn partial_trailing_frame_is_dropped() {
    let data = vec![0x00, 0x40, 0x00];
    let frames = decode_frames(&data, SampleFormat::S16Le, 2).unwrap();
    assert!(frames.is_empty());
}

#[test]
fn isqrt_at_the_edges() {
    assert_eq!(isqrt64(0), 0);
    assert_eq!(isqrt64(1), 1);
    assert_eq!(isqrt64(15), 3);
    assert_eq!(isqrt64(16), 4);
    assert_eq!(isqrt64(u64::MAX), 0xFFFF_FFFF);
}

#[test]
fn zero_amplitude_buffer_yields_level_zero() {
    let data = vec![0u8; 32];
    let frames = decode_frames(&data, SampleFormat::S16Le, 2).unwrap();
    assert_eq!(frames.len(), 8);
    let (left_sq, right_sq) = stereo_sum_squares(&frames);
    assert_eq!((left_sq, right_sq), (0, 0));
    let rms = rms_raw(left_sq, frames.len());
    assert_eq!(rms, 0);
    // a silent channel is level zero whatever the decibel value
    assert_eq!(level_from_rms(rms, -12345, &conf()), 0);
}

#[test]
fn full_scale_buffer_reaches_level_one() {
    // full-scale 16-bit samples: RMS is the full scale itself, 0 dB, which
    // sits above the window's ceiling
    let mut data = Vec::new();
    for _ in 0..8 {
        data.extend_from_slice(&[0xFF, 0x7F]);
    }
    let frames = decode_frames(&data, SampleFormat::S16Le, 1).unwrap();
    let (left_sq, _) = stereo_sum_squares(&frames);
    assert_eq!(left_sq, 8 * 32767u128 * 32767u128);
    let rms = rms_raw(left_sq, frames.len());
    assert_eq!(rms, 32767);
    assert_eq!(level_from_rms(rms, 0, &conf()), 1000);
}

#[test]
fn level_is_linear_inside_the_window() {
    let c = conf();
    // halfway between -8000 and -1500 centi-dB
    assert_eq!(level_from_rms(100, -4750, &c), 500);
    assert_eq!(level_from_rms(100, -8000, &c), 0);
    assert_eq!(level_from_rms(100, -9000, &c), 0);
    assert_eq!(level_from_rms(100, -1500, &c), 1000);
    assert_eq!(level_from_rms(100, 500, &c), 1000);
}

#[test]
fn smoothing_advances_by_attack_and_decay_rates() {
    let c = AudioBhvConf {
        attack_milli: 70,
        decay_milli: 30,
        min_level_centi_db: -8000,
        max_level_centi_db: -1500,
    };
    // rising: prev + attack * (target - prev) / 1000
    assert_eq!(smooth_audio_level(1000, 500, &c), 500 + 70 * 500 / 1000);
    // falling: prev - decay * (prev - target) / 1000
    assert_eq!(smooth_audio_level(250, 500, &c), 500 - 30 * 250 / 1000);
    // a zero target falls at the decay rate like any other, never a reset
    assert_eq!(smooth_audio_level(0, 900, &c), 900 - 30 * 900 / 1000);
    // a met target stays
    assert_eq!(smooth_audio_level(400, 400, &c), 400);
}

#[test]
fn envelope_tracks_both_channels() {
    let mut env = AudioEnvelope::new(conf());
    env.update(1000, 500);
    assert_eq!(env.left_milli, 70 * 1000 / 1000);
    assert_eq!(env.right_milli, 70 * 500 / 1000);
    // silence decays; it does not reset
    env.update(0, 500);
    assert_eq!(env.left_milli, 70 - 70 * 70 / 1000);
}
