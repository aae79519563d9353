//! The failures a caller can be told of.

use crate::text::push_str;
use vstd::prelude::*;

verus! {

/// The kinds of failure.
#[derive(Debug, Clone, Copy, PartialEq, Eq, Structural)]
pub enum ErrorKind {
    /// The recording to transcribe does not exist.
    InputNotFound,
    /// The named model is not in the model store.
    ModelNotFound,
    /// The recording could not be converted to the sample format.
    ConversionError,
    /// The engine could not be set up from the model.
    EngineLoadError,
    /// The engine failed while decoding.
    DecodeError,
    /// No live session has the given id.
    SessionNotFound,
    /// A worker ended without reporting.
    TaskJoinError,
}

/// A failure: its kind and the detail that goes into the message (a path, a
/// model name, a session id, or what the collaborator reported).
#[derive(Debug)]
pub struct TranscribeError {
    pub kind: ErrorKind,
    pub detail: String,
}

/// What stands before the detail in the message of a failure.
pub open spec fn message_prefix(kind: ErrorKind) -> Seq<char> {
    match kind {
        ErrorKind::InputNotFound => "File not found: "@,
        ErrorKind::ModelNotFound => "Model '"@,
        ErrorKind::ConversionError => "Audio conversion failed: "@,
        ErrorKind::EngineLoadError => "Failed to load model: "@,
        ErrorKind::DecodeError => "Transcription failed: "@,
        ErrorKind::SessionNotFound => "Session not found: "@,
        ErrorKind::TaskJoinError => "Worker did not finish: "@,
    }
}

/// What stands behind the detail in the message of a failure.
pub open spec fn message_suffix(kind: ErrorKind) -> Seq<char> {
    match kind {
        ErrorKind::ModelNotFound => "' not found. Please download it first."@,
        _ => Seq::empty(),
    }
}

/// The message of a failure.
pub open spec fn message_text(kind: ErrorKind, detail: Seq<char>) -> Seq<char> {
    message_prefix(kind) + detail + message_suffix(kind)
}

/// Whether `result` is the failure of the given kind and detail.
pub open spec fn fails_with<T>(
    result: Result<T, TranscribeError>,
    kind: ErrorKind,
    detail: Seq<char>,
) -> bool {
    match result {
        Err(e) => e.kind == kind && e.detail@ == detail,
        Ok(_) => false,
    }
}

impl TranscribeError {
    /// A failure of the given kind.
    pub fn new(kind: ErrorKind, detail: String) -> (e: TranscribeError)
        ensures
            e.kind == kind,
            e.detail@ == detail@,
    {
        TranscribeError { kind, detail }
    }

    /// The failure as a sentence for the caller.
    pub fn message(&self) -> (m: String)
        ensures
            m@ == message_text(self.kind, self.detail@),
    {
        let mut m = String::new();
        match self.kind {
            ErrorKind::InputNotFound => push_str(&mut m, "File not found: "),
            ErrorKind::ModelNotFound => push_str(&mut m, "Model '"),
            ErrorKind::ConversionError => push_str(&mut m, "Audio conversion failed: "),
            ErrorKind::EngineLoadError => push_str(&mut m, "Failed to load model: "),
            ErrorKind::DecodeError => push_str(&mut m, "Transcription failed: "),
            ErrorKind::SessionNotFound => push_str(&mut m, "Session not found: "),
            ErrorKind::TaskJoinError => push_str(&mut m, "Worker did not finish: "),
        }
        push_str(&mut m, self.detail.as_str());
        match self.kind {
            ErrorKind::ModelNotFound => push_str(&mut m, "' not found. Please download it first."),
            _ => {},
        }
        assert(m@ =~= message_text(self.kind, self.detail@));
        m
    }
}

} // verus!
