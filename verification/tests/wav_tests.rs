use speech_pipeline::audio::{ChannelLayout, WavFormat};
use speech_pipeline::error::ErrorKind;
use speech_pipeline::wav::{
    live_recording_from, load_live_chunk, load_recording, readable_samples, recording_from,
};
use std::io::Cursor;

/// The bytes of a WAV file with whole-number samples.
fn wav_bytes(channels: u16, sample_rate: u32, bits_per_sample: u16, samples: &[i32]) -> Vec<u8> {
    let spec = hound::WavSpec {
        channels,
        sample_rate,
        bits_per_sample,
        sample_format: hound::SampleFormat::Int,
    };
    let mut cursor = Cursor::new(Vec::new());
    {
        let mut writer = hound::WavWriter::new(&mut cursor, spec).unwrap();
        for s in samples {
            writer.write_sample(*s).unwrap();
        }
        writer.finalize().unwrap();
    }
    cursor.into_inner()
}

fn format(sample_rate: u32, bits_per_sample: u16, channels: u16) -> WavFormat {
    WavFormat { sample_rate, bits_per_sample, channels }
}

#[test]
fn a_recording_is_read_out_of_its_bytes() {
    let bytes = wav_bytes(1, 16_000, 16, &[0, 1, -1, 32_767, -32_768, 12_345]);
    let recording = load_recording(&bytes).unwrap();
    assert_eq!(recording.layout, ChannelLayout::Mono);
    assert_eq!(recording.samples, vec![0, 1, -1, 32_767, -32_768, 12_345]);
}

#[test]
fn a_stereo_recording_keeps_its_samples_in_turn() {
    let bytes = wav_bytes(2, 16_000, 16, &[1, -1, 2, -2]);
    let recording = load_recording(&bytes).unwrap();
    assert_eq!(recording.layout, ChannelLayout::Stereo);
    assert_eq!(recording.samples, vec![1, -1, 2, -2]);
}

#[test]
fn a_recording_without_samples() {
    let bytes = wav_bytes(1, 16_000, 16, &[]);
    let recording = load_recording(&bytes).unwrap();
    assert!(recording.samples.is_empty());
}

#[test]
fn bytes_that_are_no_wav_file_are_refused() {
    for bytes in [&b""[..], &b"RIFF"[..], &b"not a wav file at all, not even close"[..]] {
        let e = load_recording(bytes).unwrap_err();
        assert_eq!((e.kind, e.detail.as_str()), (ErrorKind::ConversionError, "Failed to open WAV file"));
        let e = load_live_chunk(bytes).unwrap_err();
        assert_eq!((e.kind, e.detail.as_str()), (ErrorKind::ConversionError, "Failed to open WAV file"));
    }
}

#[test]
fn a_recording_in_another_format_is_refused() {
    let e = load_recording(&wav_bytes(1, 44_100, 16, &[1, 2])).unwrap_err();
    assert_eq!(e.detail, "Expected 16kHz sample rate, got 44100");
    let e = load_recording(&wav_bytes(1, 16_000, 8, &[1, 2])).unwrap_err();
    assert_eq!(e.detail, "Expected 16-bit PCM audio, got 8 bits");
    let e = load_recording(&wav_bytes(3, 16_000, 16, &[1, 2, 3])).unwrap_err();
    assert_eq!(e.detail, "Unsupported channel count: 3. Only mono (1) and stereo (2) are supported.");
}

#[test]
fn samples_that_are_cut_off_are_left_out() {
    let mut bytes = wav_bytes(1, 16_000, 16, &[10, 20, 30, 40]);
    // the header still says four samples; the last one and a half are gone
    bytes.truncate(bytes.len() - 3);
    let recording = load_recording(&bytes).unwrap();
    assert_eq!(recording.samples, vec![10, 20]);
}

#[test]
fn a_live_chunk_is_read_out_of_its_bytes() {
    let samples: Vec<i32> = (0..8_000).map(|i| (i % 100) - 50).collect();
    let recording = load_live_chunk(&wav_bytes(1, 16_000, 16, &samples)).unwrap();
    assert_eq!(recording.layout, ChannelLayout::Mono);
    assert_eq!(recording.samples.len(), 8_000);
    assert_eq!(recording.samples[7_999], 49);
    let e = load_live_chunk(&wav_bytes(1, 16_000, 16, &samples[..7_999])).unwrap_err();
    assert_eq!(e.detail, "Audio chunk too short: 7999 samples (minimum 8000 required)");
    let e = load_live_chunk(&wav_bytes(2, 16_000, 16, &samples)).unwrap_err();
    assert_eq!(e.detail, "Audio chunk too short: 4000 samples (minimum 8000 required)");
    let e = load_live_chunk(&wav_bytes(1, 8_000, 16, &samples)).unwrap_err();
    assert_eq!(e.detail, "Expected 16kHz sample rate, got 8000");
}

#[test]
fn a_live_chunk_of_wider_samples_has_none_that_can_be_read() {
    let samples: Vec<i32> = (0..9_000).collect();
    let e = load_live_chunk(&wav_bytes(1, 16_000, 24, &samples)).unwrap_err();
    assert_eq!(e.detail, "Audio chunk too short: 0 samples (minimum 8000 required)");
}

#[test]
fn the_samples_that_could_be_read() {
    assert_eq!(readable_samples(&vec![Some(1), None, Some(-3), None, None]), vec![1, -3]);
    assert_eq!(readable_samples(&vec![]), Vec::<i16>::new());
    assert_eq!(readable_samples(&vec![None]), Vec::<i16>::new());
}

#[test]
fn a_recording_from_header_and_samples() {
    let items = vec![Some(5), None, Some(6)];
    let recording = recording_from(format(16_000, 16, 2), &items).unwrap();
    assert_eq!(recording.layout, ChannelLayout::Stereo);
    assert_eq!(recording.samples, vec![5, 6]);
    let e = recording_from(format(16_000, 32, 2), &items).unwrap_err();
    assert_eq!(e.detail, "Expected 16-bit PCM audio, got 32 bits");
}

#[test]
fn a_live_chunk_from_header_and_samples() {
    let mut items: Vec<Option<i16>> = vec![Some(1); 8_000];
    items.push(None);
    let recording = live_recording_from(format(16_000, 16, 1), &items).unwrap();
    assert_eq!(recording.samples.len(), 8_000);
    items[0] = None;
    let e = live_recording_from(format(16_000, 16, 1), &items).unwrap_err();
    assert_eq!(e.detail, "Audio chunk too short: 7999 samples (minimum 8000 required)");
    let e = live_recording_from(format(22_050, 16, 1), &items).unwrap_err();
    assert_eq!(e.detail, "Expected 16kHz sample rate, got 22050");
}
