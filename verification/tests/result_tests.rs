use speech_pipeline::result::{assemble, join_texts};
use speech_pipeline::segment::SubtitleSegment;

fn segment(start_time: u64, text: &str) -> SubtitleSegment {
    SubtitleSegment { index: 0, start_time, end_time: start_time + 1, text: text.to_string() }
}

#[test]
fn texts_are_joined_with_one_space() {
    assert_eq!(join_texts(&[]), "");
    assert_eq!(join_texts(&[segment(0, "one")]), "one");
    assert_eq!(join_texts(&[segment(0, "one"), segment(1, "two"), segment(2, "")]), "one two ");
    assert_eq!(join_texts(&[segment(0, " a "), segment(1, "b")]), " a  b");
}

#[test]
fn assembly_of_two_chunks() {
    let chunks = vec![vec![segment(2000, "world")], vec![segment(1000, "hello")]];
    let result = assemble(&chunks, "en".to_string());
    assert_eq!(result.text, "hello world");
    assert_eq!(result.language, "en");
    assert_eq!(result.segments.len(), 2);
    assert_eq!(result.segments[0].text, "hello");
    assert_eq!(result.segments[1].index, 1);
    assert_eq!(
        result.subtitles_srt,
        "1\n00:00:01,000 --> 00:00:01,001\nhello\n\n2\n00:00:02,000 --> 00:00:02,001\nworld\n\n"
    );
    assert_eq!(
        result.subtitles_vtt,
        "WEBVTT\n\n00:00:01.000 --> 00:00:01.001\nhello\n\n00:00:02.000 --> 00:00:02.001\nworld\n\n"
    );
}
