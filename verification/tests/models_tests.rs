use speech_pipeline::error::ErrorKind;
use speech_pipeline::models::{
    is_model_file, is_streaming_model_dir, model_file_name, model_or, preflight,
};

#[test]
fn the_file_of_a_model() {
    assert_eq!(model_file_name("base"), "ggml-base.bin");
    assert_eq!(model_file_name(""), "ggml-.bin");
    assert_eq!(model_file_name("large-v3"), "ggml-large-v3.bin");
}

#[test]
fn the_model_a_caller_names_or_the_fallback() {
    assert_eq!(model_or(Some("small".to_string()), "base"), "small");
    assert_eq!(model_or(None, "base"), "base");
    assert_eq!(model_or(None, "tiny"), "tiny");
    assert_eq!(model_or(Some(String::new()), "tiny"), "");
}

#[test]
fn files_that_hold_models() {
    for name in ["ggml-base.bin", "ggml-.bin", "ggml-a.bin.bin", "ggml-.bin.bin"] {
        assert!(is_model_file(name), "{}", name);
    }
    for name in ["", "ggml-", ".bin", "ggml.bin", "ggml-base.bin ", "GGML-base.bin", "xggml-base.bin", "ggml-base.BIN", "ggml-bin"] {
        assert!(!is_model_file(name), "{}", name);
    }
}

#[test]
fn directories_that_hold_streaming_models() {
    for name in ["vosk-model-", "vosk-model-small-en-us-0.15"] {
        assert!(is_streaming_model_dir(name), "{}", name);
    }
    for name in ["", "vosk-model", "vosk-", "a-vosk-model-x", "Vosk-model-x"] {
        assert!(!is_streaming_model_dir(name), "{}", name);
    }
}

#[test]
fn what_stands_in_the_way_of_a_job() {
    let e = preflight("/a.mp3", false, "base", false).unwrap_err();
    assert_eq!((e.kind, e.detail.as_str()), (ErrorKind::InputNotFound, "/a.mp3"));
    assert_eq!(e.message(), "File not found: /a.mp3");
    let e = preflight("/a.mp3", true, "base", false).unwrap_err();
    assert_eq!((e.kind, e.detail.as_str()), (ErrorKind::ModelNotFound, "base"));
    assert_eq!(e.message(), "Model 'base' not found. Please download it first.");
    assert!(preflight("/a.mp3", true, "base", true).is_ok());
    assert_eq!(preflight("/a.mp3", false, "base", true).unwrap_err().kind, ErrorKind::InputNotFound);
}
