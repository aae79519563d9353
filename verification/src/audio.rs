//! The sample format the engine takes, and the check of a recording against
//! it.

use crate::error::{fails_with, ErrorKind, TranscribeError};
use crate::text::{decimal, push_decimal, push_str};
use vstd::prelude::*;

verus! {

/// The number of samples a second the engine takes.
pub const ENGINE_SAMPLE_RATE: u32 = 16_000;

/// The number of bits of a sample the engine takes.
pub const ENGINE_BITS_PER_SAMPLE: u16 = 16;

/// The fewest samples of one channel that a live chunk may have: half a
/// second of audio.
pub const MIN_LIVE_SAMPLES: usize = 8_000;

/// The format of a recording, as its header gives it.
#[derive(Debug, Clone, Copy, PartialEq, Eq, Structural)]
pub struct WavFormat {
    pub sample_rate: u32,
    pub bits_per_sample: u16,
    pub channels: u16,
}

/// How the samples of a recording are laid out.
#[derive(Debug, Clone, Copy, PartialEq, Eq, Structural)]
pub enum ChannelLayout {
    /// One channel.
    Mono,
    /// Two channels, sample by sample in turn.
    Stereo,
}

/// What is wrong with the rate of a recording.
pub open spec fn rate_detail(sample_rate: nat) -> Seq<char> {
    "Expected 16kHz sample rate, got "@ + decimal(sample_rate)
}

/// What is wrong with the sample size of a recording.
pub open spec fn bits_detail(bits: nat) -> Seq<char> {
    "Expected 16-bit PCM audio, got "@ + decimal(bits) + " bits"@
}

/// What is wrong with the number of channels of a recording.
pub open spec fn channels_detail(channels: nat) -> Seq<char> {
    "Unsupported channel count: "@ + decimal(channels)
        + ". Only mono (1) and stereo (2) are supported."@
}

/// What is wrong with the length of a live chunk.
pub open spec fn short_detail(samples: nat) -> Seq<char> {
    "Audio chunk too short: "@ + decimal(samples) + " samples (minimum 8000 required)"@
}

/// The number of samples a recording has once it is brought down to one
/// channel.
pub open spec fn mono_len(layout: ChannelLayout, samples: nat) -> nat {
    match layout {
        ChannelLayout::Mono => samples,
        ChannelLayout::Stereo => samples / 2,
    }
}

/// What the check of a recording for a batch job gives: the first of these
/// that applies. A rate other than 16 kHz is refused; a sample size other
/// than 16 bits is refused; two channels are stereo, one is mono, and any
/// other number is refused.
pub open spec fn is_recording_check(
    result: Result<ChannelLayout, TranscribeError>,
    format: WavFormat,
) -> bool {
    if format.sample_rate != ENGINE_SAMPLE_RATE {
        fails_with(result, ErrorKind::ConversionError, rate_detail(format.sample_rate as nat))
    } else if format.bits_per_sample != ENGINE_BITS_PER_SAMPLE {
        fails_with(result, ErrorKind::ConversionError, bits_detail(format.bits_per_sample as nat))
    } else if format.channels == 2 {
        result == Ok::<ChannelLayout, TranscribeError>(ChannelLayout::Stereo)
    } else if format.channels == 1 {
        result == Ok::<ChannelLayout, TranscribeError>(ChannelLayout::Mono)
    } else {
        fails_with(result, ErrorKind::ConversionError, channels_detail(format.channels as nat))
    }
}

/// What the check of a live chunk of `samples` samples gives: the first of
/// these that applies. A rate other than 16 kHz is refused; two channels are
/// stereo and anything else is taken as mono; less than half a second of
/// audio in one channel is refused.
pub open spec fn is_live_check(
    result: Result<ChannelLayout, TranscribeError>,
    format: WavFormat,
    samples: nat,
) -> bool {
    let layout = if format.channels == 2 {
        ChannelLayout::Stereo
    } else {
        ChannelLayout::Mono
    };
    if format.sample_rate != ENGINE_SAMPLE_RATE {
        fails_with(result, ErrorKind::ConversionError, rate_detail(format.sample_rate as nat))
    } else if mono_len(layout, samples) < MIN_LIVE_SAMPLES {
        fails_with(
            result,
            ErrorKind::ConversionError,
            short_detail(mono_len(layout, samples)),
        )
    } else {
        result == Ok::<ChannelLayout, TranscribeError>(layout)
    }
}

fn numbered_detail(before: &str, n: u128, after: &str) -> (detail: String)
    ensures
        detail@ == before@ + decimal(n as nat) + after@,
{
    let mut detail = String::new();
    push_str(&mut detail, before);
    push_decimal(&mut detail, n);
    push_str(&mut detail, after);
    assert(detail@ =~= before@ + decimal(n as nat) + after@);
    detail
}

fn refuse(before: &str, n: u128, after: &str) -> (result: Result<ChannelLayout, TranscribeError>)
    ensures
        fails_with(result, ErrorKind::ConversionError, before@ + decimal(n as nat) + after@),
{
    Err(TranscribeError::new(ErrorKind::ConversionError, numbered_detail(before, n, after)))
}

/// Checks the format of a recording for a batch job.
pub fn check_recording_format(format: WavFormat) -> (result: Result<
    ChannelLayout,
    TranscribeError,
>)
    ensures
        is_recording_check(result, format),
{
    proof {
        reveal_strlit("");
        assert(forall|s: Seq<char>| s + ""@ =~= s);
    }
    if format.sample_rate != ENGINE_SAMPLE_RATE {
        refuse("Expected 16kHz sample rate, got ", format.sample_rate as u128, "")
    } else if format.bits_per_sample != ENGINE_BITS_PER_SAMPLE {
        refuse("Expected 16-bit PCM audio, got ", format.bits_per_sample as u128, " bits")
    } else if format.channels == 2 {
        Ok(ChannelLayout::Stereo)
    } else if format.channels == 1 {
        Ok(ChannelLayout::Mono)
    } else {
        refuse(
            "Unsupported channel count: ",
            format.channels as u128,
            ". Only mono (1) and stereo (2) are supported.",
        )
    }
}

/// The number of samples a recording has once it is brought down to one
/// channel.
pub fn mono_length(layout: ChannelLayout, samples: usize) -> (n: usize)
    ensures
        n == mono_len(layout, samples as nat),
{
    match layout {
        ChannelLayout::Mono => samples,
        ChannelLayout::Stereo => samples / 2,
    }
}

/// Checks the format and the length of a live chunk of `samples` samples.
pub fn check_live_format(format: WavFormat, samples: usize) -> (result: Result<
    ChannelLayout,
    TranscribeError,
>)
    ensures
        is_live_check(result, format, samples as nat),
{
    proof {
        reveal_strlit("");
        assert(forall|s: Seq<char>| s + ""@ =~= s);
    }
    let layout = if format.channels == 2 {
        ChannelLayout::Stereo
    } else {
        ChannelLayout::Mono
    };
    if format.sample_rate != ENGINE_SAMPLE_RATE {
        refuse("Expected 16kHz sample rate, got ", format.sample_rate as u128, "")
    } else {
        let n = mono_length(layout, samples);
        if n < MIN_LIVE_SAMPLES {
            refuse("Audio chunk too short: ", n as u128, " samples (minimum 8000 required)")
        } else {
            Ok(layout)
        }
    }
}

} // verus!
