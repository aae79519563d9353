use speech_pipeline::progress::{EventOrder, ProgressAggregator, TranscriptionProgress};

fn percent(event: Option<TranscriptionProgress>) -> u8 {
    match event {
        Some(TranscriptionProgress::Transcribing { progress }) => progress,
        other => panic!("no percentage: {:?}", other),
    }
}

#[test]
fn percent_is_the_share_of_finished_chunks_cut_off() {
    let mut p = ProgressAggregator::new(3);
    assert_eq!(p.percent(), 0);
    assert_eq!(percent(p.record_completion()), 33);
    assert_eq!(percent(p.record_completion()), 66);
    assert_eq!(percent(p.record_completion()), 100);
    assert!(p.is_complete());
}

#[test]
fn percents_never_go_down_and_end_at_100() {
    for total in 1usize..=257 {
        let mut p = ProgressAggregator::new(total);
        let mut last = 0u8;
        for done in 1..=total {
            let now = percent(p.record_completion());
            assert!(now >= last);
            assert_eq!(now as usize, 100 * done / total);
            assert_eq!(p.completed_chunks(), done);
            last = now;
        }
        assert_eq!(last, 100);
    }
}

#[test]
fn a_token_too_many_changes_nothing() {
    let mut p = ProgressAggregator::new(2);
    p.record_completion();
    p.record_completion();
    assert!(p.record_completion().is_none());
    assert_eq!(p.completed_chunks(), 2);
    assert_eq!(p.total_chunks(), 2);
    assert_eq!(p.percent(), 100);
}

#[test]
fn a_job_without_chunks_has_nothing_to_count() {
    let mut p = ProgressAggregator::new(0);
    assert!(p.is_complete());
    assert_eq!(p.percent(), 100);
    assert!(p.record_completion().is_none());
}

#[test]
fn percent_of_very_many_chunks() {
    let mut p = ProgressAggregator::new(usize::MAX);
    assert_eq!(percent(p.record_completion()), 0);
}

#[test]
fn stages_rise_in_the_order_of_a_job() {
    let events = vec![
        TranscriptionProgress::Converting { message: "Converting audio to WAV format...".to_string() },
        TranscriptionProgress::DetectingLanguage,
        TranscriptionProgress::LanguageDetected { language: "en".to_string() },
        TranscriptionProgress::Transcribing { progress: 50 },
        TranscriptionProgress::GeneratingSubtitles,
        TranscriptionProgress::Complete { subtitle_format: "SRT/VTT".to_string() },
    ];
    let stages: Vec<u8> = events.iter().map(|e| e.stage_number()).collect();
    assert_eq!(stages, vec![0, 1, 2, 3, 4, 5]);
}

#[test]
fn events_are_let_through_in_the_order_of_the_stages() {
    let mut order = EventOrder::new();
    assert!(order.record(&TranscriptionProgress::Converting { message: "m".to_string() }));
    assert!(!order.record(&TranscriptionProgress::Converting { message: "again".to_string() }));
    assert!(order.record(&TranscriptionProgress::LanguageDetected { language: "en".to_string() }));
    assert!(!order.record(&TranscriptionProgress::DetectingLanguage));
    assert!(order.record(&TranscriptionProgress::Transcribing { progress: 10 }));
    assert!(order.record(&TranscriptionProgress::Transcribing { progress: 10 }));
    assert!(order.record(&TranscriptionProgress::Transcribing { progress: 60 }));
    assert!(!order.record(&TranscriptionProgress::Transcribing { progress: 59 }));
    assert!(!order.record(&TranscriptionProgress::LanguageDetected { language: "fr".to_string() }));
    assert!(order.record(&TranscriptionProgress::GeneratingSubtitles));
    assert!(!order.record(&TranscriptionProgress::Transcribing { progress: 100 }));
    assert!(order.record(&TranscriptionProgress::Complete { subtitle_format: "SRT/VTT".to_string() }));
    assert!(!order.record(&TranscriptionProgress::Complete { subtitle_format: "SRT/VTT".to_string() }));
}

#[test]
fn the_first_event_may_be_any() {
    let mut order = EventOrder::new();
    assert!(order.record(&TranscriptionProgress::Transcribing { progress: 40 }));
    assert!(!order.record(&TranscriptionProgress::Transcribing { progress: 0 }));
    let mut order = EventOrder::new();
    assert!(order.record(&TranscriptionProgress::Complete { subtitle_format: "x".to_string() }));
    assert!(!order.record(&TranscriptionProgress::Converting { message: "m".to_string() }));
}
