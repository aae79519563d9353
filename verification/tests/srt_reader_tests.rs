use speech_pipeline::formatter::generate_srt;
use speech_pipeline::merger::merge_segments;
use speech_pipeline::segment::SubtitleSegment;
use speech_pipeline::srt_reader::srt_index_lines;

fn segment(index: usize, start_time: u64, text: &str) -> SubtitleSegment {
    SubtitleSegment { index, start_time, end_time: start_time + 500, text: text.to_string() }
}

#[test]
fn index_lines_of_formatted_segments_count_up_from_one() {
    let segments: Vec<SubtitleSegment> =
        (0..12).map(|i| segment(i, 1000 * i as u64, "some text")).collect();
    let lines = srt_index_lines(&generate_srt(&segments));
    let numbers: Vec<u64> = lines.iter().map(|l| l.parse().unwrap()).collect();
    assert_eq!(numbers, (1..=12).collect::<Vec<u64>>());
}

#[test]
fn index_lines_of_a_merged_list_count_up_from_one() {
    let chunks = vec![
        vec![segment(7, 4000, "d"), segment(9, 100, "a")],
        vec![segment(0, 2000, "  "), segment(0, 3000, "two\nlines")],
    ];
    let merged = merge_segments(&chunks);
    let lines = srt_index_lines(&generate_srt(&merged));
    assert_eq!(lines, vec!["1", "2", "3", "4"]);
}

#[test]
fn index_lines_of_no_cues() {
    assert_eq!(srt_index_lines(""), Vec::<String>::new());
    assert_eq!(srt_index_lines("\n\n\n"), Vec::<String>::new());
}

#[test]
fn index_lines_pass_over_text_lines_that_look_like_numbers() {
    let srt = "1\n00:00:00,000 --> 00:00:01,000\n17\n42\n\n2\n00:00:01,000 --> 00:00:02,000\nx\n\n";
    assert_eq!(srt_index_lines(srt), vec!["1", "2"]);
}

#[test]
fn index_lines_of_text_that_ends_early() {
    assert_eq!(srt_index_lines("5"), vec!["5"]);
    assert_eq!(srt_index_lines("5\n00:00:00,000 --> 00:00:01,000"), vec!["5"]);
    assert_eq!(srt_index_lines("5\ntimes\ntext"), vec!["5"]);
    assert_eq!(srt_index_lines("5\ntimes\ntext\n\n\n\n6"), vec!["5", "6"]);
}

#[test]
fn an_empty_line_inside_a_text_starts_a_cue() {
    let segments = vec![segment(0, 0, "a\n\n9\nb")];
    assert_eq!(srt_index_lines(&generate_srt(&segments)), vec!["1", "9"]);
}
