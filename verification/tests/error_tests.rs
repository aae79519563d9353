use speech_pipeline::error::{ErrorKind, TranscribeError};

fn message(kind: ErrorKind, detail: &str) -> String {
    TranscribeError::new(kind, detail.to_string()).message()
}

#[test]
fn every_kind_has_its_message() {
    assert_eq!(message(ErrorKind::InputNotFound, "/tmp/a.mp3"), "File not found: /tmp/a.mp3");
    assert_eq!(
        message(ErrorKind::ModelNotFound, "base"),
        "Model 'base' not found. Please download it first."
    );
    assert_eq!(message(ErrorKind::ConversionError, "exit 1"), "Audio conversion failed: exit 1");
    assert_eq!(message(ErrorKind::EngineLoadError, "bad file"), "Failed to load model: bad file");
    assert_eq!(message(ErrorKind::DecodeError, "code -3"), "Transcription failed: code -3");
    assert_eq!(message(ErrorKind::SessionNotFound, "vosk-9"), "Session not found: vosk-9");
    assert_eq!(message(ErrorKind::TaskJoinError, "panicked"), "Worker did not finish: panicked");
}

#[test]
fn new_keeps_kind_and_detail() {
    let e = TranscribeError::new(ErrorKind::DecodeError, "why".to_string());
    assert_eq!(e.kind, ErrorKind::DecodeError);
    assert_eq!(e.detail, "why");
}
