use speech_pipeline::formatter::{
    format_timestamp_srt, format_timestamp_vtt, generate_srt, generate_vtt,
};
use speech_pipeline::segment::SubtitleSegment;

fn segment(index: usize, start_time: u64, end_time: u64, text: &str) -> SubtitleSegment {
    SubtitleSegment { index, start_time, end_time, text: text.to_string() }
}

#[test]
fn srt_timestamp_of_one_hour_one_minute_one_second() {
    assert_eq!(format_timestamp_srt(3_661_234), "01:01:01,234");
}

#[test]
fn vtt_timestamp_of_one_hour_one_minute_one_second() {
    assert_eq!(format_timestamp_vtt(3_661_234), "01:01:01.234");
}

#[test]
fn timestamp_of_zero() {
    assert_eq!(format_timestamp_srt(0), "00:00:00,000");
    assert_eq!(format_timestamp_vtt(0), "00:00:00.000");
}

#[test]
fn timestamp_cuts_off_and_pads() {
    assert_eq!(format_timestamp_srt(59_999), "00:00:59,999");
    assert_eq!(format_timestamp_srt(60_000), "00:01:00,000");
    assert_eq!(format_timestamp_srt(3_599_999), "00:59:59,999");
    assert_eq!(format_timestamp_vtt(7), "00:00:00.007");
}

#[test]
fn timestamp_with_more_than_99_hours() {
    assert_eq!(format_timestamp_srt(100 * 3_600_000 + 5), "100:00:00,005");
    assert_eq!(format_timestamp_vtt(u64::MAX), "5124095576030:25:51.615");
}

#[test]
fn srt_of_two_segments() {
    let segments = vec![segment(0, 0, 1500, "  Hello there. "), segment(1, 1500, 61_250, "Bye")];
    assert_eq!(
        generate_srt(&segments),
        "1\n00:00:00,000 --> 00:00:01,500\nHello there.\n\n2\n00:00:01,500 --> 00:01:01,250\nBye\n\n"
    );
}

#[test]
fn vtt_of_two_segments() {
    let segments = vec![segment(0, 0, 1500, "  Hello there. "), segment(1, 1500, 61_250, "Bye")];
    assert_eq!(
        generate_vtt(&segments),
        "WEBVTT\n\n00:00:00.000 --> 00:00:01.500\nHello there.\n\n00:00:01.500 --> 00:01:01.250\nBye\n\n"
    );
}

#[test]
fn renderings_of_no_segments() {
    assert_eq!(generate_srt(&[]), "");
    assert_eq!(generate_vtt(&[]), "WEBVTT\n\n");
}

#[test]
fn srt_index_is_the_segments_index_plus_one() {
    let segments = vec![segment(41, 0, 1, "x")];
    assert_eq!(generate_srt(&segments), "42\n00:00:00,000 --> 00:00:00,001\nx\n\n");
    let last = vec![segment(usize::MAX, 0, 1, "x")];
    let expected = format!("{}\n00:00:00,000 --> 00:00:00,001\nx\n\n", usize::MAX as u128 + 1);
    assert_eq!(generate_srt(&last), expected);
}

#[test]
fn srt_keeps_inner_line_breaks_of_a_text() {
    let segments = vec![segment(0, 0, 1000, "\n two\nlines \n")];
    assert_eq!(generate_srt(&segments), "1\n00:00:00,000 --> 00:00:01,000\ntwo\nlines\n\n");
}

#[test]
fn srt_of_a_segment_without_text() {
    let segments = vec![segment(0, 0, 1000, "   ")];
    assert_eq!(generate_srt(&segments), "1\n00:00:00,000 --> 00:00:01,000\n\n\n");
    assert_eq!(generate_vtt(&segments), "WEBVTT\n\n00:00:00.000 --> 00:00:01.000\n\n\n");
}
