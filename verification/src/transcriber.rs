//! Transcription of a whole recording in one engine run.

use crate::error::{fails_with, ErrorKind, TranscribeError};
use crate::segment::{views, SubtitleSegment};
use crate::worker::{
    complete_chunk, normalized, raw_views, resolve_language, resolved_language, EngineOutcome,
};
use vstd::prelude::*;

verus! {

/// Whether `result` is what one run over a whole recording yields: the
/// failure of the engine, or the language and the segments with a text, in
/// the engine's order and numbered in it.
pub open spec fn is_single_pass_result(
    result: Result<(String, Vec<SubtitleSegment>), TranscribeError>,
    outcome: EngineOutcome,
    auto_detect_language: bool,
    detected: Option<String>,
) -> bool {
    match outcome {
        EngineOutcome::LoadFailed(why) => fails_with(result, ErrorKind::EngineLoadError, why@),
        EngineOutcome::DecodeFailed(why) => fails_with(result, ErrorKind::DecodeError, why@),
        EngineOutcome::Decoded(raw) => match result {
            Ok((language, segments)) => {
                &&& language@ == resolved_language(auto_detect_language, detected)
                &&& views(segments@) == normalized(raw_views(raw@), 0)
            },
            Err(_) => false,
        },
    }
}

/// What one run over a whole recording yields, from how the engine ended and
/// the language it found.
pub fn transcribe_single_pass(
    outcome: EngineOutcome,
    auto_detect_language: bool,
    detected: Option<String>,
) -> (result: Result<(String, Vec<SubtitleSegment>), TranscribeError>)
    ensures
        is_single_pass_result(result, outcome, auto_detect_language, detected),
{
    match complete_chunk(outcome, 0) {
        Ok(segments) => Ok((resolve_language(auto_detect_language, detected), segments)),
        Err(e) => Err(e),
    }
}

} // verus!
