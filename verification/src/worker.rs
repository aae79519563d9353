//! The work on one chunk, as far as it is not the engine's: what the engine
//! reports becomes a list of segments in the time of the whole recording.

use crate::error::{fails_with, ErrorKind, TranscribeError};
use crate::progress::TranscriptionProgress;
use crate::segment::{views, SegmentView, SubtitleSegment};
use crate::text::{trim, trimmed};
use vstd::prelude::*;

verus! {

/// One stretch of speech as the engine reports it: times in hundredths of a
/// second from the start of the audio the engine was given.
#[derive(Debug)]
pub struct RawSegment {
    pub start_cs: i64,
    pub end_cs: i64,
    pub text: String,
}

/// The mathematical value of a [`RawSegment`].
pub ghost struct RawSegmentView {
    pub start_cs: int,
    pub end_cs: int,
    pub text: Seq<char>,
}

impl View for RawSegment {
    type V = RawSegmentView;

    open spec fn view(&self) -> RawSegmentView {
        RawSegmentView {
            start_cs: self.start_cs as int,
            end_cs: self.end_cs as int,
            text: self.text@,
        }
    }
}

/// The values of a list of reported segments.
pub open spec fn raw_views(raw: Seq<RawSegment>) -> Seq<RawSegmentView> {
    raw.map_values(|s: RawSegment| s@)
}

/// How the work of an engine on one chunk ended.
#[derive(Debug)]
pub enum EngineOutcome {
    /// No engine could be set up from the model; why.
    LoadFailed(String),
    /// The engine failed while decoding; why.
    DecodeFailed(String),
    /// The engine decoded the chunk.
    Decoded(Vec<RawSegment>),
}

/// A time of the engine in milliseconds. A time before the start counts as
/// the start.
pub open spec fn millis_of(cs: int) -> nat {
    if cs <= 0 {
        0
    } else {
        (cs * 10) as nat
    }
}

/// The time in the recording of a time of the engine, for a chunk that starts
/// at `offset_ms`. Times too large for the type are held at its largest
/// value.
pub open spec fn absolute_time(offset_ms: nat, cs: int) -> nat {
    if offset_ms + millis_of(cs) > u64::MAX {
        u64::MAX as nat
    } else {
        offset_ms + millis_of(cs)
    }
}

/// The segments of a chunk that starts at `offset_ms`: every reported
/// segment whose trimmed text is not empty, with that text and with its
/// times moved by the offset, numbered in order.
pub open spec fn normalized(raw: Seq<RawSegmentView>, offset_ms: nat) -> Seq<SegmentView>
    decreases raw.len(),
{
    if raw.len() == 0 {
        Seq::empty()
    } else {
        let before = normalized(raw.drop_last(), offset_ms);
        let last = raw.last();
        if trim(last.text).len() == 0 {
            before
        } else {
            before.push(
                SegmentView {
                    index: before.len(),
                    start_time: absolute_time(offset_ms, last.start_cs),
                    end_time: absolute_time(offset_ms, last.end_cs),
                    text: trim(last.text),
                },
            )
        }
    }
}

/// No more segments come out than were reported, none has an empty text, and
/// none starts before the chunk does.
pub proof fn lemma_normalized_shape(raw: Seq<RawSegmentView>, offset_ms: nat)
    requires
        offset_ms <= u64::MAX,
    ensures
        normalized(raw, offset_ms).len() <= raw.len(),
        forall|i: int|
            0 <= i < normalized(raw, offset_ms).len() ==> {
                &&& (#[trigger] normalized(raw, offset_ms)[i]).text.len() > 0
                &&& normalized(raw, offset_ms)[i].index == i
                &&& normalized(raw, offset_ms)[i].start_time >= offset_ms
                &&& normalized(raw, offset_ms)[i].end_time >= offset_ms
            },
    decreases raw.len(),
{
    if raw.len() > 0 {
        lemma_normalized_shape(raw.drop_last(), offset_ms);
    }
}

fn to_absolute(offset_ms: u64, cs: i64) -> (ms: u64)
    ensures
        ms == absolute_time(offset_ms as nat, cs as int),
{
    if cs <= 0 {
        offset_ms
    } else {
        let sum: u128 = offset_ms as u128 + (cs as u128) * 10;
        if sum > u64::MAX as u128 {
            u64::MAX
        } else {
            sum as u64
        }
    }
}

/// The segments of a chunk that starts at `offset_ms`, from what the engine
/// reported of it.
pub fn normalize_segments(raw: &[RawSegment], offset_ms: u64) -> (segments: Vec<SubtitleSegment>)
    ensures
        views(segments@) == normalized(raw_views(raw@), offset_ms as nat),
{
    let mut segments: Vec<SubtitleSegment> = Vec::new();
    let mut i: usize = 0;
    assert(raw_views(raw@).take(0) == Seq::<RawSegmentView>::empty());
    assert(views(segments@) =~= normalized(raw_views(raw@).take(0), offset_ms as nat));
    while i < raw.len()
        invariant
            i <= raw.len(),
            segments.len() <= i,
            views(segments@) == normalized(raw_views(raw@).take(i as int), offset_ms as nat),
        decreases raw.len() - i,
    {
        let ghost was = segments@;
        let text = trimmed(raw[i].text.as_str());
        let empty = text.as_str().unicode_len() == 0;
        proof {
            let all = raw_views(raw@);
            assert(all.take(i + 1).drop_last() == all.take(i as int));
            assert(all.take(i + 1).last() == raw[i as int]@);
            assert(views(was).len() == was.len());
        }
        if !empty {
            segments.push(
                SubtitleSegment {
                    index: segments.len(),
                    start_time: to_absolute(offset_ms, raw[i].start_cs),
                    end_time: to_absolute(offset_ms, raw[i].end_cs),
                    text,
                },
            );
            assert(views(segments@) =~= views(was).push(segments[was.len() as int]@));
        }
        i += 1;
    }
    assert(raw_views(raw@).take(i as int) == raw_views(raw@));
    segments
}

/// Whether `result` is what a worker hands on for a chunk that starts at
/// `offset_ms` and whose engine ended with `outcome`.
pub open spec fn is_chunk_result(
    result: Result<Vec<SubtitleSegment>, TranscribeError>,
    outcome: EngineOutcome,
    offset_ms: nat,
) -> bool {
    match outcome {
        EngineOutcome::LoadFailed(why) => fails_with(result, ErrorKind::EngineLoadError, why@),
        EngineOutcome::DecodeFailed(why) => fails_with(result, ErrorKind::DecodeError, why@),
        EngineOutcome::Decoded(raw) => match result {
            Ok(segments) => views(segments@) == normalized(raw_views(raw@), offset_ms),
            Err(_) => false,
        },
    }
}

/// What a worker hands on for a chunk that starts at `offset_ms`: the
/// chunk's segments, or the failure of its engine.
pub fn complete_chunk(outcome: EngineOutcome, offset_ms: u64) -> (result: Result<
    Vec<SubtitleSegment>,
    TranscribeError,
>)
    ensures
        is_chunk_result(result, outcome, offset_ms as nat),
{
    match outcome {
        EngineOutcome::LoadFailed(why) => Err(
            TranscribeError::new(ErrorKind::EngineLoadError, why),
        ),
        EngineOutcome::DecodeFailed(why) => Err(TranscribeError::new(ErrorKind::DecodeError, why)),
        EngineOutcome::Decoded(raw) => Ok(normalize_segments(raw.as_slice(), offset_ms)),
    }
}

/// The language an engine is told to expect: `auto` to find it out, else
/// English.
pub open spec fn language_hint_text(auto_detect: bool) -> Seq<char> {
    if auto_detect {
        "auto"@
    } else {
        "en"@
    }
}

/// The language an engine is told to expect.
pub fn language_hint(auto_detect: bool) -> (hint: String)
    ensures
        hint@ == language_hint_text(auto_detect),
{
    if auto_detect {
        "auto".to_owned()
    } else {
        "en".to_owned()
    }
}

/// The language of a recording: what the engine found, or `unknown` where it
/// found nothing, if it was to find out; else English.
pub open spec fn resolved_language(auto_detect: bool, detected: Option<String>) -> Seq<char> {
    if auto_detect {
        match detected {
            Some(code) => code@,
            None => "unknown"@,
        }
    } else {
        "en"@
    }
}

/// The language of a recording.
pub fn resolve_language(auto_detect: bool, detected: Option<String>) -> (language: String)
    ensures
        language@ == resolved_language(auto_detect, detected),
{
    if auto_detect {
        match detected {
            Some(code) => code,
            None => "unknown".to_owned(),
        }
    } else {
        "en".to_owned()
    }
}

/// Whether `event` tells the listener that the recording is in `language`.
pub open spec fn tells_language(event: Option<TranscriptionProgress>, language: Seq<char>) -> bool {
    match event {
        Some(TranscriptionProgress::LanguageDetected { language: told }) => told@ == language,
        _ => false,
    }
}

/// The language of a job over many chunks: that of the first chunk whose
/// worker reports it.
#[derive(Debug)]
pub struct LanguageChoice {
    auto_detect: bool,
    settled: Option<String>,
}

impl LanguageChoice {
    /// Whether the engines are to find the language out.
    pub closed spec fn auto_detect(&self) -> bool {
        self.auto_detect
    }

    /// The language, once a worker has reported one.
    pub closed spec fn settled(&self) -> Option<Seq<char>> {
        match self.settled {
            Some(language) => Some(language@),
            None => None,
        }
    }

    /// The language of the job as it stands: the settled one, or the one of a
    /// job whose engines found nothing.
    pub open spec fn current(&self) -> Seq<char> {
        match self.settled() {
            Some(language) => language,
            None => resolved_language(self.auto_detect(), None),
        }
    }

    /// No language settled yet.
    pub fn new(auto_detect: bool) -> (choice: LanguageChoice)
        ensures
            choice.auto_detect() == auto_detect,
            choice.settled() is None,
    {
        LanguageChoice { auto_detect, settled: None }
    }

    /// Takes note of the language the engine of a chunk found. The first
    /// note settles the language of the job and gives the event for the
    /// listener; later notes change nothing.
    pub fn note(&mut self, detected: Option<String>) -> (event: Option<TranscriptionProgress>)
        ensures
            final(self).auto_detect() == old(self).auto_detect(),
            old(self).settled() is Some ==> {
                &&& final(self).settled() == old(self).settled()
                &&& event is None
            },
            old(self).settled() is None ==> {
                &&& final(self).settled() == Some(
                    resolved_language(old(self).auto_detect(), detected),
                )
                &&& tells_language(event, resolved_language(old(self).auto_detect(), detected))
            },
    {
        if self.settled.is_some() {
            return None;
        }
        let language = resolve_language(self.auto_detect, detected);
        self.settled = Some(language.clone());
        Some(TranscriptionProgress::LanguageDetected { language })
    }

    /// The language of the job.
    pub fn language(self) -> (language: String)
        ensures
            language@ == self.current(),
    {
        match self.settled {
            Some(language) => language,
            None => resolve_language(self.auto_detect, None),
        }
    }
}

} // verus!
