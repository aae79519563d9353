//! Transcription of short chunks of a live recording, one engine run each,
//! with the model kept between the runs.

use crate::error::{fails_with, ErrorKind, TranscribeError};
use crate::segment::{views, SegmentView};
use crate::text::{push_str, trim, trimmed};
use crate::worker::{normalize_segments, normalized, raw_views, EngineOutcome};
use vstd::prelude::*;

verus! {

/// One stretch of speech of a live chunk; the times are milliseconds from
/// the start of the chunk.
#[derive(Debug)]
pub struct TranscriptionSegment {
    pub start: u64,
    pub end: u64,
    pub text: String,
}

/// What one live chunk yielded.
#[derive(Debug)]
pub struct LiveTranscriptionResult {
    pub text: String,
    pub language: String,
    pub segments: Vec<TranscriptionSegment>,
}

/// Whether `live` says what `segment` says, but for the number.
pub open spec fn same_speech(live: TranscriptionSegment, segment: SegmentView) -> bool {
    &&& live.start == segment.start_time
    &&& live.end == segment.end_time
    &&& live.text@ == segment.text
}

/// The texts of the segments, each with a space behind it.
pub open spec fn spaced_text(segments: Seq<SegmentView>) -> Seq<char>
    decreases segments.len(),
{
    if segments.len() == 0 {
        Seq::empty()
    } else {
        spaced_text(segments.drop_last()) + segments.last().text + seq![' ']
    }
}

/// The language of a live chunk: what the engine found, or `unknown`.
pub open spec fn live_language(detected: Option<String>) -> Seq<char> {
    match detected {
        Some(code) => code@,
        None => "unknown"@,
    }
}

/// Whether `result` is what a live chunk yields whose engine ended with
/// `outcome` and found the language `detected`: the failure of the engine,
/// or the segments with a text, their texts in a row with spaces between,
/// and the language.
pub open spec fn is_live_result(
    result: Result<LiveTranscriptionResult, TranscribeError>,
    outcome: EngineOutcome,
    detected: Option<String>,
) -> bool {
    match outcome {
        EngineOutcome::LoadFailed(why) => fails_with(result, ErrorKind::EngineLoadError, why@),
        EngineOutcome::DecodeFailed(why) => fails_with(result, ErrorKind::DecodeError, why@),
        EngineOutcome::Decoded(raw) => {
            let segments = normalized(raw_views(raw@), 0);
            match result {
                Ok(r) => {
                    &&& r.segments.len() == segments.len()
                    &&& forall|i: int|
                        0 <= i < segments.len() ==> same_speech(
                            #[trigger] r.segments[i],
                            segments[i],
                        )
                    &&& r.text@ == trim(spaced_text(segments))
                    &&& r.language@ == live_language(detected)
                },
                Err(_) => false,
            }
        },
    }
}

/// What a live chunk yields, from how its engine ended and the language the
/// engine found.
pub fn transcribe_live_chunk(outcome: EngineOutcome, detected: Option<String>) -> (result: Result<
    LiveTranscriptionResult,
    TranscribeError,
>)
    ensures
        is_live_result(result, outcome, detected),
{
    let raw = match outcome {
        EngineOutcome::LoadFailed(why) => {
            return Err(TranscribeError::new(ErrorKind::EngineLoadError, why));
        },
        EngineOutcome::DecodeFailed(why) => {
            return Err(TranscribeError::new(ErrorKind::DecodeError, why));
        },
        EngineOutcome::Decoded(raw) => raw,
    };
    let normal = normalize_segments(raw.as_slice(), 0);
    let mut segments: Vec<TranscriptionSegment> = Vec::new();
    let mut full_text = String::new();
    let mut i: usize = 0;
    assert(views(normal@).take(0) == Seq::<SegmentView>::empty());
    while i < normal.len()
        invariant
            i <= normal.len(),
            segments.len() == i,
            forall|k: int| 0 <= k < i ==> same_speech(#[trigger] segments[k], views(normal@)[k]),
            full_text@ == spaced_text(views(normal@).take(i as int)),
        decreases normal.len() - i,
    {
        let ghost before = full_text@;
        let segment = &normal[i];
        push_str(&mut full_text, segment.text.as_str());
        full_text.push(' ');
        segments.push(
            TranscriptionSegment {
                start: segment.start_time,
                end: segment.end_time,
                text: segment.text.clone(),
            },
        );
        proof {
            let all = views(normal@);
            assert(all.take(i + 1).drop_last() == all.take(i as int));
            assert(all.take(i + 1).last() == normal[i as int]@);
            assert(full_text@ =~= before + normal[i as int]@.text + seq![' ']);
        }
        i += 1;
    }
    assert(views(normal@).take(i as int) == views(normal@));
    let language = match detected {
        Some(code) => code,
        None => "unknown".to_owned(),
    };
    Ok(LiveTranscriptionResult { text: trimmed(full_text.as_str()), language, segments })
}

/// The value that a borrowed model has.
pub open spec fn lent<C>(model: Option<&C>) -> Option<C> {
    match model {
        Some(c) => Some(*c),
        None => None,
    }
}

struct LoadedModel<C> {
    path: String,
    context: C,
}

/// The model that live chunks are decoded with, kept from one chunk to the
/// next so that it is loaded once.
///
/// `C` is the loaded model.
pub struct LiveTranscriptionContext<C> {
    loaded: Option<LoadedModel<C>>,
}

impl<C> LiveTranscriptionContext<C> {
    /// The path of the model that is kept, if one is.
    pub closed spec fn model_path(&self) -> Option<Seq<char>> {
        match self.loaded {
            Some(m) => Some(m.path@),
            None => None,
        }
    }

    /// The model that is kept, if one is.
    pub closed spec fn context(&self) -> Option<C> {
        match self.loaded {
            Some(m) => Some(m.context),
            None => None,
        }
    }

    /// Whether the model of `path` is kept.
    pub open spec fn holds(&self, path: Seq<char>) -> bool {
        self.model_path() == Some(path) && self.context() is Some
    }

    /// No model kept.
    pub fn new() -> (kept: Self)
        ensures
            kept.model_path() is None,
            kept.context() is None,
    {
        LiveTranscriptionContext { loaded: None }
    }

    /// Whether the model of `model_path` is kept, so that it need not be
    /// loaded.
    pub fn is_loaded(&self, model_path: &str) -> (kept: bool)
        ensures
            kept == self.holds(model_path@),
    {
        match &self.loaded {
            Some(m) => {
                let wanted = model_path.to_owned();
                m.path == wanted
            },
            None => false,
        }
    }

    /// The model of `model_path`: the one that is kept, if it is of this
    /// path; else `fresh`, the model just loaded from the path, which is kept
    /// from now on. Without either there is none, and what was kept stays.
    pub fn get_or_load(&mut self, model_path: &str, fresh: Option<C>) -> (model: Option<&C>)
        ensures
            old(self).holds(model_path@) ==> {
                &&& final(self).model_path() == old(self).model_path()
                &&& final(self).context() == old(self).context()
                &&& lent(model) == old(self).context()
            },
            !old(self).holds(model_path@) && fresh is Some ==> {
                &&& final(self).model_path() == Some(model_path@)
                &&& final(self).context() == fresh
                &&& lent(model) == fresh
            },
            !old(self).holds(model_path@) && fresh is None ==> {
                &&& final(self).model_path() == old(self).model_path()
                &&& final(self).context() == old(self).context()
                &&& model is None
            },
    {
        if !self.is_loaded(model_path) {
            match fresh {
                Some(context) => {
                    self.loaded = Some(LoadedModel { path: model_path.to_owned(), context });
                },
                None => {
                    return None;
                },
            }
        }
        match &self.loaded {
            Some(m) => Some(&m.context),
            None => None,
        }
    }
}

} // verus!
