//! Reading a recording out of the bytes of a WAV file.
//!
//! The bytes are taken apart by `hound`. What this library adds is the order
//! of the work: the header is checked against the format the engine takes
//! before any sample is read, and a sample that cannot be read is left out.

use crate::audio::{
    check_live_format, check_recording_format, is_live_check, is_recording_check, ChannelLayout,
    WavFormat, ENGINE_SAMPLE_RATE,
};
use crate::error::{fails_with, ErrorKind, TranscribeError};
use vstd::prelude::*;

verus! {

#[verifier::external_type_specification]
#[verifier::external_body]
#[verifier::reject_recursive_types(R)]
pub struct ExWavReader<R>(hound::WavReader<R>);

/// What `hound::WavReader::new` makes of the bytes of a file: the format its
/// header gives and, one for each sample the data chunk is said to hold, what
/// reading that sample as a 16-bit number yields; nothing where the header
/// is refused.
pub uninterp spec fn wav_opened(bytes: Seq<u8>) -> Option<(WavFormat, Seq<Option<i16>>)>;

/// The format that the header gave a reader.
pub uninterp spec fn reader_format(reader: hound::WavReader<&[u8]>) -> WavFormat;

/// What a reader has yet to yield: for each sample not yet taken, in order,
/// the sample, or nothing where it cannot be read.
pub uninterp spec fn reader_pending(reader: hound::WavReader<&[u8]>) -> Seq<Option<i16>>;

/// `hound::WavReader::new` reads the header of a WAV file and gives a reader
/// that stands at the first sample, or an error where the bytes are no WAV
/// file that it can read. The error is dropped here.
#[verifier::external_body]
fn open_wav<'a>(bytes: &'a [u8]) -> (reader: Option<hound::WavReader<&'a [u8]>>)
    ensures
        match reader {
            Some(r) => wav_opened(bytes@) == Some((reader_format(r), reader_pending(r))),
            None => wav_opened(bytes@) is None,
        },
{
    hound::WavReader::new(bytes).ok()
}

/// `hound::WavReader::spec` gives what the header said: the number of
/// channels, the samples a second, and the bits of a sample.
#[verifier::external_body]
fn header_format(reader: &hound::WavReader<&[u8]>) -> (format: WavFormat)
    ensures
        format == reader_format(*reader),
{
    let spec = reader.spec();
    WavFormat {
        sample_rate: spec.sample_rate,
        bits_per_sample: spec.bits_per_sample,
        channels: spec.channels,
    }
}

/// `hound::WavReader::samples` gives an iterator that goes on where the
/// reader stands; its `next` takes one sample off the reader, whether it
/// could be read or not, and gives nothing once all samples are taken.
#[verifier::external_body]
fn next_sample(reader: &mut hound::WavReader<&[u8]>) -> (item: Option<Option<i16>>)
    ensures
        reader_format(*final(reader)) == reader_format(*old(reader)),
        reader_pending(*old(reader)).len() == 0 ==> item is None && reader_pending(*final(reader))
            == reader_pending(*old(reader)),
        reader_pending(*old(reader)).len() > 0 ==> item == Some(reader_pending(*old(reader))[0])
            && reader_pending(*final(reader)) == reader_pending(*old(reader)).drop_first(),
{
    match reader.samples::<i16>().next() {
        Some(Ok(sample)) => Some(Some(sample)),
        Some(Err(_)) => Some(None),
        None => None,
    }
}

/// The samples of a recording, with how they are laid out.
#[derive(Debug)]
pub struct Recording {
    pub layout: ChannelLayout,
    pub samples: Vec<i16>,
}

/// The samples among `items`, in order.
pub open spec fn readable(items: Seq<Option<i16>>) -> Seq<i16>
    decreases items.len(),
{
    if items.len() == 0 {
        Seq::empty()
    } else {
        match items.last() {
            Some(sample) => readable(items.drop_last()).push(sample),
            None => readable(items.drop_last()),
        }
    }
}

/// The samples among `items`, in order.
pub fn readable_samples(items: &Vec<Option<i16>>) -> (samples: Vec<i16>)
    ensures
        samples@ == readable(items@),
{
    let mut samples: Vec<i16> = Vec::new();
    let mut i: usize = 0;
    assert(items@.take(0) == Seq::<Option<i16>>::empty());
    while i < items.len()
        invariant
            i <= items.len(),
            samples@ == readable(items@.take(i as int)),
        decreases items.len() - i,
    {
        assert(items@.take(i + 1).drop_last() == items@.take(i as int));
        assert(items@.take(i + 1).last() == items[i as int]);
        match items[i] {
            Some(sample) => samples.push(sample),
            None => {},
        }
        i += 1;
    }
    assert(items@.take(i as int) == items@);
    samples
}

/// What a file is said of that is no WAV file.
pub open spec fn unreadable_detail() -> Seq<char> {
    "Failed to open WAV file"@
}

/// Whether `result` is the recording for a batch job that a header of
/// `format` and the samples `items` give: what the check of the format
/// refuses is refused, and else every sample that could be read is there.
pub open spec fn is_recording_of(
    result: Result<Recording, TranscribeError>,
    format: WavFormat,
    items: Seq<Option<i16>>,
) -> bool {
    match result {
        Ok(recording) => is_recording_check(
            Ok::<ChannelLayout, TranscribeError>(recording.layout),
            format,
        ) && recording.samples@ == readable(items),
        Err(e) => is_recording_check(Err::<ChannelLayout, TranscribeError>(e), format),
    }
}

/// Whether `result` is the live chunk that a header of `format` and the
/// samples `items` give: what the check of the format and of the length
/// refuses is refused, and else every sample that could be read is there.
pub open spec fn is_live_recording_of(
    result: Result<Recording, TranscribeError>,
    format: WavFormat,
    items: Seq<Option<i16>>,
) -> bool {
    match result {
        Ok(recording) => is_live_check(
            Ok::<ChannelLayout, TranscribeError>(recording.layout),
            format,
            readable(items).len(),
        ) && recording.samples@ == readable(items),
        Err(e) => is_live_check(
            Err::<ChannelLayout, TranscribeError>(e),
            format,
            readable(items).len(),
        ),
    }
}

/// The recording for a batch job, from what the header says and what reading
/// the samples yielded.
pub fn recording_from(format: WavFormat, items: &Vec<Option<i16>>) -> (result: Result<
    Recording,
    TranscribeError,
>)
    ensures
        is_recording_of(result, format, items@),
{
    match check_recording_format(format) {
        Ok(layout) => Ok(Recording { layout, samples: readable_samples(items) }),
        Err(e) => Err(e),
    }
}

/// The recording of a live chunk, from what the header says and what reading
/// the samples yielded.
pub fn live_recording_from(format: WavFormat, items: &Vec<Option<i16>>) -> (result: Result<
    Recording,
    TranscribeError,
>)
    ensures
        is_live_recording_of(result, format, items@),
{
    let samples = readable_samples(items);
    match check_live_format(format, samples.len()) {
        Ok(layout) => Ok(Recording { layout, samples }),
        Err(e) => Err(e),
    }
}

fn take_all(reader: &mut hound::WavReader<&[u8]>) -> (items: Vec<Option<i16>>)
    ensures
        items@ == reader_pending(*old(reader)),
        reader_format(*final(reader)) == reader_format(*old(reader)),
{
    let mut items: Vec<Option<i16>> = Vec::new();
    loop
        invariant_except_break
            items@ + reader_pending(*reader) == reader_pending(*old(reader)),
        invariant
            reader_format(*reader) == reader_format(*old(reader)),
        ensures
            items@ == reader_pending(*old(reader)),
        decreases reader_pending(*reader).len(),
    {
        let ghost before = reader_pending(*reader);
        let ghost had = items@;
        match next_sample(reader) {
            Some(item) => {
                items.push(item);
                assert(items@ + before.drop_first() =~= had + before);
            },
            None => {
                assert(had + before =~= had);
                break ;
            },
        }
    }
    items
}

/// Whether `result` is what the bytes of a file give for a batch job: a file
/// that is no WAV file is refused, and else the recording is the one of its
/// header and samples.
pub open spec fn is_loaded_recording(
    result: Result<Recording, TranscribeError>,
    bytes: Seq<u8>,
) -> bool {
    match wav_opened(bytes) {
        None => fails_with(result, ErrorKind::ConversionError, unreadable_detail()),
        Some((format, items)) => is_recording_of(result, format, items),
    }
}

/// Whether `result` is what the bytes of a file give for a live chunk.
pub open spec fn is_loaded_live_chunk(
    result: Result<Recording, TranscribeError>,
    bytes: Seq<u8>,
) -> bool {
    match wav_opened(bytes) {
        None => fails_with(result, ErrorKind::ConversionError, unreadable_detail()),
        Some((format, items)) => is_live_recording_of(result, format, items),
    }
}

fn unreadable() -> (e: TranscribeError)
    ensures
        e.kind == ErrorKind::ConversionError,
        e.detail@ == unreadable_detail(),
{
    TranscribeError::new(ErrorKind::ConversionError, "Failed to open WAV file".to_owned())
}

/// The recording for a batch job in the bytes of a WAV file. The samples are
/// read only once the header has passed the check.
pub fn load_recording(bytes: &[u8]) -> (result: Result<Recording, TranscribeError>)
    ensures
        is_loaded_recording(result, bytes@),
{
    match open_wav(bytes) {
        None => Err(unreadable()),
        Some(reader) => {
            let mut reader = reader;
            let format = header_format(&reader);
            match check_recording_format(format) {
                Err(e) => Err(e),
                Ok(layout) => {
                    let items = take_all(&mut reader);
                    Ok(Recording { layout, samples: readable_samples(&items) })
                },
            }
        },
    }
}

/// The recording of a live chunk in the bytes of a WAV file. The samples are
/// read only once the header has the rate the engine takes.
pub fn load_live_chunk(bytes: &[u8]) -> (result: Result<Recording, TranscribeError>)
    ensures
        is_loaded_live_chunk(result, bytes@),
{
    match open_wav(bytes) {
        None => Err(unreadable()),
        Some(reader) => {
            let mut reader = reader;
            let format = header_format(&reader);
            let items = if format.sample_rate == ENGINE_SAMPLE_RATE {
                take_all(&mut reader)
            } else {
                Vec::new()
            };
            live_recording_from(format, &items)
        },
    }
}

} // verus!
