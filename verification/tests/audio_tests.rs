use speech_pipeline::audio::{
    check_live_format, check_recording_format, mono_length, ChannelLayout, WavFormat,
};
use speech_pipeline::error::ErrorKind;

fn format(sample_rate: u32, bits_per_sample: u16, channels: u16) -> WavFormat {
    WavFormat { sample_rate, bits_per_sample, channels }
}

#[test]
fn a_recording_in_the_engines_format_passes() {
    assert_eq!(check_recording_format(format(16_000, 16, 1)).unwrap(), ChannelLayout::Mono);
    assert_eq!(check_recording_format(format(16_000, 16, 2)).unwrap(), ChannelLayout::Stereo);
}

#[test]
fn another_rate_is_refused_first() {
    let e = check_recording_format(format(44_100, 8, 6)).unwrap_err();
    assert_eq!(e.kind, ErrorKind::ConversionError);
    assert_eq!(e.detail, "Expected 16kHz sample rate, got 44100");
}

#[test]
fn another_sample_size_is_refused_next() {
    let e = check_recording_format(format(16_000, 24, 6)).unwrap_err();
    assert_eq!(e.kind, ErrorKind::ConversionError);
    assert_eq!(e.detail, "Expected 16-bit PCM audio, got 24 bits");
}

#[test]
fn another_number_of_channels_is_refused() {
    for channels in [0u16, 3, 6] {
        let e = check_recording_format(format(16_000, 16, channels)).unwrap_err();
        assert_eq!(e.kind, ErrorKind::ConversionError);
        assert_eq!(
            e.detail,
            format!("Unsupported channel count: {}. Only mono (1) and stereo (2) are supported.", channels)
        );
    }
}

#[test]
fn half_a_second_is_enough_for_a_live_chunk() {
    assert_eq!(check_live_format(format(16_000, 16, 1), 8_000).unwrap(), ChannelLayout::Mono);
    assert_eq!(check_live_format(format(16_000, 16, 2), 16_000).unwrap(), ChannelLayout::Stereo);
    assert_eq!(check_live_format(format(16_000, 16, 2), 16_001).unwrap(), ChannelLayout::Stereo);
    // anything but two channels is taken as one; the sample size is not looked at
    assert_eq!(check_live_format(format(16_000, 8, 5), 8_000).unwrap(), ChannelLayout::Mono);
}

#[test]
fn a_live_chunk_that_is_too_short_is_refused() {
    let e = check_live_format(format(16_000, 16, 1), 7_999).unwrap_err();
    assert_eq!(e.kind, ErrorKind::ConversionError);
    assert_eq!(e.detail, "Audio chunk too short: 7999 samples (minimum 8000 required)");
    let e = check_live_format(format(16_000, 16, 2), 15_999).unwrap_err();
    assert_eq!(e.detail, "Audio chunk too short: 7999 samples (minimum 8000 required)");
    let e = check_live_format(format(16_000, 16, 1), 0).unwrap_err();
    assert_eq!(e.detail, "Audio chunk too short: 0 samples (minimum 8000 required)");
}

#[test]
fn the_rate_of_a_live_chunk_is_checked_first() {
    let e = check_live_format(format(48_000, 16, 1), 0).unwrap_err();
    assert_eq!(e.detail, "Expected 16kHz sample rate, got 48000");
}

#[test]
fn length_in_one_channel() {
    assert_eq!(mono_length(ChannelLayout::Mono, 9), 9);
    assert_eq!(mono_length(ChannelLayout::Stereo, 9), 4);
    assert_eq!(mono_length(ChannelLayout::Stereo, 0), 0);
}
