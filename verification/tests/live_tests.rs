use speech_pipeline::error::ErrorKind;
use speech_pipeline::live_transcriber::{transcribe_live_chunk, LiveTranscriptionContext};
use speech_pipeline::worker::{EngineOutcome, RawSegment};

fn raw(start_cs: i64, end_cs: i64, text: &str) -> RawSegment {
    RawSegment { start_cs, end_cs, text: text.to_string() }
}

#[test]
fn the_result_of_a_live_chunk() {
    let outcome = EngineOutcome::Decoded(vec![raw(0, 120, " Hello"), raw(120, 125, "  "), raw(125, 300, "world. ")]);
    let r = transcribe_live_chunk(outcome, Some("en".to_string())).unwrap();
    assert_eq!(r.text, "Hello world.");
    assert_eq!(r.language, "en");
    let segments: Vec<(u64, u64, &str)> =
        r.segments.iter().map(|s| (s.start, s.end, s.text.as_str())).collect();
    assert_eq!(segments, vec![(0, 1200, "Hello"), (1250, 3000, "world.")]);
}

#[test]
fn a_live_chunk_without_speech() {
    let r = transcribe_live_chunk(EngineOutcome::Decoded(vec![raw(0, 5, " ")]), None).unwrap();
    assert_eq!(r.text, "");
    assert_eq!(r.language, "unknown");
    assert!(r.segments.is_empty());
}

#[test]
fn a_live_chunk_whose_engine_failed() {
    let e = transcribe_live_chunk(EngineOutcome::LoadFailed("a".to_string()), None).unwrap_err();
    assert_eq!((e.kind, e.detail.as_str()), (ErrorKind::EngineLoadError, "a"));
    let e = transcribe_live_chunk(EngineOutcome::DecodeFailed("b".to_string()), None).unwrap_err();
    assert_eq!((e.kind, e.detail.as_str()), (ErrorKind::DecodeError, "b"));
}

#[test]
fn a_model_is_loaded_once() {
    let mut kept: LiveTranscriptionContext<u32> = LiveTranscriptionContext::new();
    assert!(!kept.is_loaded("/m/tiny"));
    assert_eq!(kept.get_or_load("/m/tiny", None), None);
    assert!(!kept.is_loaded("/m/tiny"));
    assert_eq!(kept.get_or_load("/m/tiny", Some(1)), Some(&1));
    assert!(kept.is_loaded("/m/tiny"));
    // the model that is kept wins over one loaded again
    assert_eq!(kept.get_or_load("/m/tiny", Some(2)), Some(&1));
    assert_eq!(kept.get_or_load("/m/tiny", None), Some(&1));
}

#[test]
fn another_model_takes_the_place_of_the_one_kept() {
    let mut kept: LiveTranscriptionContext<u32> = LiveTranscriptionContext::new();
    kept.get_or_load("/m/tiny", Some(1));
    assert!(!kept.is_loaded("/m/base"));
    assert_eq!(kept.get_or_load("/m/base", None), None);
    assert!(kept.is_loaded("/m/tiny"));
    assert_eq!(kept.get_or_load("/m/base", Some(2)), Some(&2));
    assert!(kept.is_loaded("/m/base"));
    assert!(!kept.is_loaded("/m/tiny"));
}
