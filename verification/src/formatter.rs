//! Rendering of ordered segments as SubRip (SRT) and WebVTT text.

use crate::merger::numbered;
use crate::segment::{views, SegmentView, SubtitleSegment};
use crate::srt_reader::{cue_index_lines, is_cue_text, lemma_read_cue};
use crate::text::{
    is_digit, lemma_decimal_digits, lemma_decimal_value, lemma_trim_is_trimmed,
    lemma_zero_padded_digits, numeral_value,
};
use crate::text::{
    decimal, push_decimal, push_str, push_zero_padded, trim, trimmed, zero_padded,
};
use vstd::prelude::*;

verus! {

/// The time `millis` written as hours, minutes, seconds and milliseconds:
/// `HH:MM:SS`, then `separator`, then `mmm`. Each part is cut off, never
/// rounded; hours beyond 99 take the digits they need.
pub open spec fn timestamp(millis: nat, separator: char) -> Seq<char> {
    zero_padded(millis / 3_600_000, 2) + seq![':'] + zero_padded((millis % 3_600_000) / 60_000, 2)
        + seq![':'] + zero_padded((millis % 60_000) / 1000, 2) + seq![separator] + zero_padded(
        millis % 1000,
        3,
    )
}

/// The arrow between the two times of a cue.
pub open spec fn arrow() -> Seq<char> {
    seq![' ', '-', '-', '>', ' ']
}

/// The first line of a WebVTT file and the blank line after it.
pub open spec fn vtt_header() -> Seq<char> {
    seq!['W', 'E', 'B', 'V', 'T', 'T', '\n', '\n']
}

/// One SRT cue: the index counted from one, the two times, the trimmed text,
/// and a blank line.
pub open spec fn srt_block(s: SegmentView) -> Seq<char> {
    decimal(s.index + 1) + seq!['\n'] + timestamp(s.start_time, ',') + arrow() + timestamp(
        s.end_time,
        ',',
    ) + seq!['\n'] + trim(s.text) + seq!['\n', '\n']
}

/// One WebVTT cue: the two times, the trimmed text, and a blank line.
pub open spec fn vtt_block(s: SegmentView) -> Seq<char> {
    timestamp(s.start_time, '.') + arrow() + timestamp(s.end_time, '.') + seq!['\n'] + trim(s.text)
        + seq!['\n', '\n']
}

/// The SRT text of a list of segments: its cues in order.
pub open spec fn srt_text(segments: Seq<SegmentView>) -> Seq<char>
    decreases segments.len(),
{
    if segments.len() == 0 {
        Seq::empty()
    } else {
        srt_text(segments.drop_last()) + srt_block(segments.last())
    }
}

/// The cues of a WebVTT text, without the header.
pub open spec fn vtt_cues(segments: Seq<SegmentView>) -> Seq<char>
    decreases segments.len(),
{
    if segments.len() == 0 {
        Seq::empty()
    } else {
        vtt_cues(segments.drop_last()) + vtt_block(segments.last())
    }
}

/// The WebVTT text of a list of segments: the header, then its cues in order.
pub open spec fn vtt_text(segments: Seq<SegmentView>) -> Seq<char> {
    vtt_header() + vtt_cues(segments)
}

/// Whether `s` is all on one line.
pub open spec fn on_one_line(s: Seq<char>) -> bool {
    forall|i: int| 0 <= i < s.len() ==> s[i] != '\n'
}

/// Whether `text` has no empty line inside.
pub open spec fn has_no_empty_line(text: Seq<char>) -> bool {
    forall|i: int|
        0 <= i < text.len() - 1 ==> !(text[i] == '\n' && #[trigger] text[i + 1] == '\n')
}

/// The number lines that the SRT text of the segments has.
pub open spec fn srt_numbers(segments: Seq<SegmentView>) -> Seq<Seq<char>> {
    Seq::new(segments.len(), |i: int| decimal(segments[i].index + 1))
}

proof fn lemma_joined_on_one_line(a: Seq<char>, b: Seq<char>)
    requires
        on_one_line(a),
        on_one_line(b),
    ensures
        on_one_line(a + b),
{
    assert forall|i: int| 0 <= i < (a + b).len() implies (a + b)[i] != '\n' by {
        if i < a.len() {
            assert((a + b)[i] == a[i]);
        } else {
            assert((a + b)[i] == b[i - a.len()]);
        }
    }
}

proof fn lemma_padded_on_one_line(n: nat, width: nat)
    ensures
        on_one_line(zero_padded(n, width)),
{
    lemma_zero_padded_digits(n, width);
    assert forall|i: int| 0 <= i < zero_padded(n, width).len() implies zero_padded(n, width)[i]
        != '\n' by {
        assert(is_digit(zero_padded(n, width)[i]));
    }
}

/// A time is written on one line.
pub proof fn lemma_timestamp_on_one_line(millis: nat, separator: char)
    requires
        separator != '\n',
    ensures
        on_one_line(timestamp(millis, separator)),
{
    let h = zero_padded(millis / 3_600_000, 2);
    let m = zero_padded((millis % 3_600_000) / 60_000, 2);
    let s = zero_padded((millis % 60_000) / 1000, 2);
    let f = zero_padded(millis % 1000, 3);
    lemma_padded_on_one_line(millis / 3_600_000, 2);
    lemma_padded_on_one_line((millis % 3_600_000) / 60_000, 2);
    lemma_padded_on_one_line((millis % 60_000) / 1000, 2);
    lemma_padded_on_one_line(millis % 1000, 3);
    lemma_joined_on_one_line(h, seq![':']);
    lemma_joined_on_one_line(h + seq![':'], m);
    lemma_joined_on_one_line(h + seq![':'] + m, seq![':']);
    lemma_joined_on_one_line(h + seq![':'] + m + seq![':'], s);
    lemma_joined_on_one_line(h + seq![':'] + m + seq![':'] + s, seq![separator]);
    lemma_joined_on_one_line(h + seq![':'] + m + seq![':'] + s + seq![separator], f);
}

/// The SRT text of segments whose texts have no empty line inside, followed
/// by anything, reads back as the number lines of the segments and then
/// those of what follows.
pub proof fn lemma_srt_reads_back(segments: Seq<SegmentView>, rest: Seq<char>)
    requires
        forall|i: int| 0 <= i < segments.len() ==> has_no_empty_line(trim(segments[i].text)),
    ensures
        cue_index_lines(srt_text(segments) + rest) == srt_numbers(segments) + cue_index_lines(rest),
    decreases segments.len(),
{
    if segments.len() == 0 {
        assert(srt_text(segments) + rest =~= rest);
        assert(srt_numbers(segments) + cue_index_lines(rest) =~= cue_index_lines(rest));
    } else {
        let head = segments.drop_last();
        let last = segments.last();
        let number = decimal(last.index + 1);
        let times = timestamp(last.start_time, ',') + arrow() + timestamp(last.end_time, ',');
        let text = trim(last.text);
        let block = srt_block(last);
        assert(forall|i: int| 0 <= i < head.len() ==> head[i] == segments[i]);
        lemma_srt_reads_back(head, block + rest);
        lemma_decimal_digits(last.index + 1);
        assert forall|i: int| 0 <= i < number.len() implies number[i] != '\n' by {
            assert(is_digit(number[i]));
        }
        lemma_timestamp_on_one_line(last.start_time, ',');
        lemma_timestamp_on_one_line(last.end_time, ',');
        lemma_joined_on_one_line(timestamp(last.start_time, ','), arrow());
        lemma_joined_on_one_line(
            timestamp(last.start_time, ',') + arrow(),
            timestamp(last.end_time, ','),
        );
        lemma_trim_is_trimmed(last.text);
        assert(has_no_empty_line(trim(segments[segments.len() - 1].text)));
        assert(is_cue_text(text));
        lemma_read_cue(number, times, text, rest);
        assert(block + rest =~= number + seq!['\n'] + times + seq!['\n'] + text + seq![
            '\n',
            '\n',
        ] + rest);
        assert(srt_text(segments) + rest =~= srt_text(head) + (block + rest));
        assert(srt_numbers(segments) =~= srt_numbers(head).push(number));
        assert(srt_numbers(head) + (seq![number] + cue_index_lines(rest)) =~= srt_numbers(segments)
            + cue_index_lines(rest));
    }
}

/// Reading the cue numbers back out of the SRT text of a numbered list gives
/// 1, 2, 3, ... up to the length of the list, as long as no text has an empty
/// line inside.
pub proof fn lemma_srt_round_trip(segments: Seq<SegmentView>)
    requires
        numbered(segments),
        forall|i: int| 0 <= i < segments.len() ==> has_no_empty_line(trim(segments[i].text)),
    ensures
        cue_index_lines(srt_text(segments)).len() == segments.len(),
        forall|i: int|
            0 <= i < segments.len() ==> numeral_value(
                #[trigger] cue_index_lines(srt_text(segments))[i],
            ) == i + 1,
{
    lemma_srt_reads_back(segments, Seq::empty());
    assert(srt_text(segments) + Seq::<char>::empty() =~= srt_text(segments));
    assert(cue_index_lines(Seq::<char>::empty()) =~= Seq::<Seq<char>>::empty());
    assert(cue_index_lines(srt_text(segments)) =~= srt_numbers(segments));
    assert forall|i: int| 0 <= i < segments.len() implies numeral_value(
        #[trigger] cue_index_lines(srt_text(segments))[i],
    ) == i + 1 by {
        assert(segments[i].index == i);
        lemma_decimal_value((i + 1) as nat);
    }
}

fn push_timestamp(out: &mut String, millis: u64, separator: char)
    ensures
        final(out)@ == old(out)@ + timestamp(millis as nat, separator),
{
    push_zero_padded(out, (millis / 3_600_000) as u128, 2);
    out.push(':');
    push_zero_padded(out, ((millis % 3_600_000) / 60_000) as u128, 2);
    out.push(':');
    push_zero_padded(out, ((millis % 60_000) / 1000) as u128, 2);
    out.push(separator);
    push_zero_padded(out, (millis % 1000) as u128, 3);
    assert(out@ =~= old(out)@ + timestamp(millis as nat, separator));
}

fn push_arrow(out: &mut String)
    ensures
        final(out)@ == old(out)@ + arrow(),
{
    out.push(' ');
    out.push('-');
    out.push('-');
    out.push('>');
    out.push(' ');
    assert(out@ =~= old(out)@ + arrow());
}

fn push_text_line(out: &mut String, text: &String)
    ensures
        final(out)@ == old(out)@ + trim(text@) + seq!['\n', '\n'],
{
    let t = trimmed(text.as_str());
    push_str(out, t.as_str());
    out.push('\n');
    out.push('\n');
    assert(out@ =~= old(out)@ + trim(text@) + seq!['\n', '\n']);
}

/// The time `millis` in the form SRT uses: `HH:MM:SS,mmm`.
pub fn format_timestamp_srt(millis: u64) -> (stamp: String)
    ensures
        stamp@ == timestamp(millis as nat, ','),
{
    let mut stamp = String::new();
    push_timestamp(&mut stamp, millis, ',');
    assert(Seq::<char>::empty() + timestamp(millis as nat, ',') =~= timestamp(millis as nat, ','));
    stamp
}

/// The time `millis` in the form WebVTT uses: `HH:MM:SS.mmm`.
pub fn format_timestamp_vtt(millis: u64) -> (stamp: String)
    ensures
        stamp@ == timestamp(millis as nat, '.'),
{
    let mut stamp = String::new();
    push_timestamp(&mut stamp, millis, '.');
    assert(Seq::<char>::empty() + timestamp(millis as nat, '.') =~= timestamp(millis as nat, '.'));
    stamp
}

/// The segments as SRT text.
pub fn generate_srt(segments: &[SubtitleSegment]) -> (srt: String)
    ensures
        srt@ == srt_text(views(segments@)),
{
    let mut srt = String::new();
    let mut i: usize = 0;
    while i < segments.len()
        invariant
            i <= segments.len(),
            srt@ == srt_text(views(segments@).take(i as int)),
        decreases segments.len() - i,
    {
        let ghost before = srt@;
        let segment = &segments[i];
        push_decimal(&mut srt, segment.index as u128 + 1);
        srt.push('\n');
        push_timestamp(&mut srt, segment.start_time, ',');
        push_arrow(&mut srt);
        push_timestamp(&mut srt, segment.end_time, ',');
        srt.push('\n');
        push_text_line(&mut srt, &segment.text);
        proof {
            let all = views(segments@);
            assert(all.take(i + 1).drop_last() == all.take(i as int));
            assert(all.take(i + 1).last() == segment@);
            assert(srt@ =~= before + srt_block(segment@));
        }
        i += 1;
    }
    assert(views(segments@).take(i as int) == views(segments@));
    srt
}

/// The segments as WebVTT text.
pub fn generate_vtt(segments: &[SubtitleSegment]) -> (vtt: String)
    ensures
        vtt@ == vtt_text(views(segments@)),
{
    let mut vtt = String::new();
    vtt.push('W');
    vtt.push('E');
    vtt.push('B');
    vtt.push('V');
    vtt.push('T');
    vtt.push('T');
    vtt.push('\n');
    vtt.push('\n');
    assert(vtt@ =~= vtt_header() + vtt_cues(views(segments@).take(0)));
    let mut i: usize = 0;
    while i < segments.len()
        invariant
            i <= segments.len(),
            vtt@ == vtt_header() + vtt_cues(views(segments@).take(i as int)),
        decreases segments.len() - i,
    {
        let ghost before = vtt@;
        let segment = &segments[i];
        push_timestamp(&mut vtt, segment.start_time, '.');
        push_arrow(&mut vtt);
        push_timestamp(&mut vtt, segment.end_time, '.');
        vtt.push('\n');
        push_text_line(&mut vtt, &segment.text);
        proof {
            let all = views(segments@);
            assert(all.take(i + 1).drop_last() == all.take(i as int));
            assert(all.take(i + 1).last() == segment@);
            assert(vtt@ =~= before + vtt_block(segment@));
            assert(vtt@ =~= vtt_header() + vtt_cues(all.take(i + 1)));
        }
        i += 1;
    }
    assert(views(segments@).take(i as int) == views(segments@));
    vtt
}

} // verus!
