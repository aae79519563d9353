use speech_pipeline::error::{ErrorKind, TranscribeError};
use speech_pipeline::pipeline::BatchJob;
use speech_pipeline::progress::TranscriptionProgress;
use speech_pipeline::segment::SubtitleSegment;

fn segment(start_time: u64, text: &str) -> SubtitleSegment {
    SubtitleSegment { index: 0, start_time, end_time: start_time + 900, text: text.to_string() }
}

fn percent(event: Option<TranscriptionProgress>) -> u8 {
    match event {
        Some(TranscriptionProgress::Transcribing { progress }) => progress,
        other => panic!("no percentage: {:?}", other),
    }
}

/// Runs a job of `total` chunks with `bound` slots; `pick` says which of the
/// workers at work reports next. Gives the most workers seen at work and the
/// percentages in the order of the reports.
fn run(total: usize, bound: usize, pick: &dyn Fn(usize, usize) -> usize) -> (usize, Vec<u8>, BatchJob) {
    let mut job = BatchJob::new(total, bound);
    let mut at_work: Vec<usize> = Vec::new();
    let mut most = 0;
    let mut percents = Vec::new();
    let mut step = 0;
    loop {
        while let Some(chunk) = job.next_chunk() {
            at_work.push(chunk);
            assert!(at_work.len() <= bound);
        }
        most = most.max(at_work.len());
        if at_work.is_empty() {
            break;
        }
        let who = pick(step, at_work.len());
        let chunk = at_work.remove(who);
        percents.push(percent(job.chunk_finished(Ok(vec![segment(1000 * chunk as u64, "t")]))));
        step += 1;
    }
    (most, percents, job)
}

#[test]
fn five_chunks_with_two_slots_never_have_three_workers() {
    let orders: Vec<Box<dyn Fn(usize, usize) -> usize>> = vec![
        Box::new(|_, _| 0),
        Box::new(|_, n| n - 1),
        Box::new(|step, n| step % n),
        Box::new(|step, n| (step * 7 + 1) % n),
    ];
    for pick in orders {
        let (most, percents, job) = run(5, 2, pick.as_ref());
        assert_eq!(most, 2);
        assert_eq!(percents, vec![20, 40, 60, 80, 100]);
        assert!(job.is_settled());
        let result = job.finish("en".to_string()).unwrap();
        let starts: Vec<u64> = result.segments.iter().map(|s| s.start_time).collect();
        assert_eq!(starts, vec![0, 1000, 2000, 3000, 4000]);
    }
}

#[test]
fn chunks_are_handed_out_in_order() {
    let mut job = BatchJob::new(3, 3);
    assert_eq!(job.next_chunk(), Some(0));
    assert_eq!(job.next_chunk(), Some(1));
    assert_eq!(job.next_chunk(), Some(2));
    assert_eq!(job.next_chunk(), None);
}

#[test]
fn no_chunk_is_handed_out_without_a_free_slot() {
    let mut job = BatchJob::new(3, 1);
    assert_eq!(job.next_chunk(), Some(0));
    assert_eq!(job.next_chunk(), None);
    assert!(!job.is_settled());
    job.chunk_finished(Ok(vec![]));
    assert_eq!(job.next_chunk(), Some(1));
}

#[test]
fn a_job_without_slots_never_starts() {
    let mut job = BatchJob::new(2, 0);
    assert_eq!(job.next_chunk(), None);
    assert!(!job.is_settled());
    let e = job.finish("en".to_string()).unwrap_err();
    assert_eq!(e.kind, ErrorKind::TaskJoinError);
    assert_eq!(e.detail, "a chunk was never finished");
}

#[test]
fn the_first_failure_is_the_failure_of_the_job() {
    let mut job = BatchJob::new(4, 2);
    assert_eq!(job.next_chunk(), Some(0));
    assert_eq!(job.next_chunk(), Some(1));
    let first = TranscribeError::new(ErrorKind::DecodeError, "first".to_string());
    assert_eq!(percent(job.chunk_finished(Err(first))), 25);
    assert_eq!(job.next_chunk(), None);
    assert!(!job.is_settled());
    let second = TranscribeError::new(ErrorKind::EngineLoadError, "second".to_string());
    assert_eq!(percent(job.chunk_finished(Err(second))), 50);
    assert!(job.is_settled());
    assert_eq!(job.next_chunk(), None);
    let e = job.finish("en".to_string()).unwrap_err();
    assert_eq!(e.kind, ErrorKind::DecodeError);
    assert_eq!(e.detail, "first");
}

#[test]
fn a_failure_outweighs_the_lists_of_the_other_chunks() {
    let mut job = BatchJob::new(2, 2);
    job.next_chunk();
    job.next_chunk();
    job.chunk_finished(Ok(vec![segment(0, "fine")]));
    job.chunk_finished(Err(TranscribeError::new(ErrorKind::EngineLoadError, "no".to_string())));
    let e = job.finish("en".to_string()).unwrap_err();
    assert_eq!(e.kind, ErrorKind::EngineLoadError);
}

#[test]
fn a_report_of_no_worker_changes_nothing() {
    let mut job = BatchJob::new(2, 2);
    assert!(job.chunk_finished(Ok(vec![segment(0, "ghost")])).is_none());
    assert_eq!(job.next_chunk(), Some(0));
    assert_eq!(percent(job.chunk_finished(Ok(vec![]))), 50);
    assert!(job.chunk_finished(Ok(vec![])).is_none());
}

#[test]
fn a_job_without_chunks_is_done_at_once() {
    let mut job = BatchJob::new(0, 2);
    assert_eq!(job.next_chunk(), None);
    assert!(job.is_settled());
    let result = job.finish("de".to_string()).unwrap();
    assert!(result.segments.is_empty());
    assert_eq!(result.text, "");
    assert_eq!(result.subtitles_srt, "");
    assert_eq!(result.subtitles_vtt, "WEBVTT\n\n");
    assert_eq!(result.language, "de");
}

#[test]
fn the_result_is_merged_and_rendered() {
    let mut job = BatchJob::new(2, 2);
    job.next_chunk();
    job.next_chunk();
    // the second chunk reports first
    job.chunk_finished(Ok(vec![segment(29_800, "again"), segment(31_000, "later")]));
    job.chunk_finished(Ok(vec![segment(0, "first"), segment(29_500, "again")]));
    let result = job.finish("en".to_string()).unwrap();
    assert_eq!(result.text, "first again later");
    assert_eq!(
        result.subtitles_srt,
        "1\n00:00:00,000 --> 00:00:00,900\nfirst\n\n2\n00:00:29,500 --> 00:00:30,400\nagain\n\n3\n00:00:31,000 --> 00:00:31,900\nlater\n\n"
    );
    assert_eq!(
        result.subtitles_vtt,
        "WEBVTT\n\n00:00:00.000 --> 00:00:00.900\nfirst\n\n00:00:29.500 --> 00:00:30.400\nagain\n\n00:00:31.000 --> 00:00:31.900\nlater\n\n"
    );
    let indices: Vec<usize> = result.segments.iter().map(|s| s.index).collect();
    assert_eq!(indices, vec![0, 1, 2]);
}

#[test]
fn a_job_called_off_hands_out_no_more_chunks() {
    let mut job = BatchJob::new(3, 2);
    assert_eq!(job.next_chunk(), Some(0));
    job.cancel();
    assert_eq!(job.next_chunk(), None);
    assert!(!job.is_settled());
    assert_eq!(percent(job.chunk_finished(Ok(vec![segment(0, "done")]))), 33);
    assert!(job.is_settled());
    assert_eq!(job.next_chunk(), None);
    let e = job.finish("en".to_string()).unwrap_err();
    assert_eq!((e.kind, e.detail.as_str()), (ErrorKind::TaskJoinError, "the job was cancelled"));
}

#[test]
fn calling_off_does_not_hide_an_earlier_failure() {
    let mut job = BatchJob::new(2, 2);
    job.next_chunk();
    job.chunk_finished(Err(TranscribeError::new(ErrorKind::DecodeError, "bad".to_string())));
    job.cancel();
    let e = job.finish("en".to_string()).unwrap_err();
    assert_eq!((e.kind, e.detail.as_str()), (ErrorKind::DecodeError, "bad"));
}
