//! The result of a batch job.

use crate::formatter::{generate_srt, generate_vtt, srt_text, vtt_text};
use crate::merger::{chunk_views, merge_segments, merged};
use crate::segment::{views, SegmentView, SubtitleSegment};
use crate::text::push_str;
use vstd::prelude::*;

verus! {

/// Everything a batch job yields.
#[derive(Debug)]
pub struct TranscriptionResult {
    /// The texts of all segments, with one space between neighbours.
    pub text: String,
    pub subtitles_srt: String,
    pub subtitles_vtt: String,
    pub language: String,
    pub segments: Vec<SubtitleSegment>,
}

/// The texts of the segments, with one space between neighbours.
pub open spec fn joined_text(segments: Seq<SegmentView>) -> Seq<char>
    decreases segments.len(),
{
    if segments.len() == 0 {
        Seq::empty()
    } else if segments.len() == 1 {
        segments[0].text
    } else {
        joined_text(segments.drop_last()) + seq![' '] + segments.last().text
    }
}

/// Whether `result` is what the segment lists of the chunks and the language
/// give: the merged list, its text, and its two renderings.
pub open spec fn is_assembly_of(
    result: TranscriptionResult,
    chunks: Seq<Seq<SegmentView>>,
    language: Seq<char>,
) -> bool {
    &&& views(result.segments@) == merged(chunks)
    &&& result.text@ == joined_text(merged(chunks))
    &&& result.subtitles_srt@ == srt_text(merged(chunks))
    &&& result.subtitles_vtt@ == vtt_text(merged(chunks))
    &&& result.language@ == language
}

/// The texts of the segments, with one space between neighbours.
pub fn join_texts(segments: &[SubtitleSegment]) -> (text: String)
    ensures
        text@ == joined_text(views(segments@)),
{
    let mut text = String::new();
    let mut i: usize = 0;
    assert(views(segments@).take(0) == Seq::<SegmentView>::empty());
    while i < segments.len()
        invariant
            i <= segments.len(),
            text@ == joined_text(views(segments@).take(i as int)),
        decreases segments.len() - i,
    {
        let ghost before = text@;
        if i > 0 {
            text.push(' ');
        }
        push_str(&mut text, segments[i].text.as_str());
        proof {
            let all = views(segments@);
            assert(all.take(i + 1).drop_last() == all.take(i as int));
            assert(all.take(i + 1).last() == segments[i as int]@);
            assert(all.take(i + 1)[0] == all[0]);
            if i == 0 {
                assert(text@ =~= segments[0]@.text);
            } else {
                assert(text@ =~= before + seq![' '] + segments[i as int]@.text);
            }
        }
        i += 1;
    }
    assert(views(segments@).take(i as int) == views(segments@));
    text
}

/// Puts the result of a job together from the segment lists of its chunks,
/// in whatever order they came in, and the language of the recording.
pub fn assemble(chunks: &Vec<Vec<SubtitleSegment>>, language: String) -> (result:
    TranscriptionResult)
    ensures
        is_assembly_of(result, chunk_views(chunks@), language@),
{
    let segments = merge_segments(chunks);
    let text = join_texts(segments.as_slice());
    let subtitles_srt = generate_srt(segments.as_slice());
    let subtitles_vtt = generate_vtt(segments.as_slice());
    TranscriptionResult { text, subtitles_srt, subtitles_vtt, language, segments }
}

} // verus!
