//! Assembly of the segment lists of all chunks into one ordered list.
//!
//! Chunks overlap, so a phrase spoken near a boundary is recognised twice.
//! The merger puts all segments in order of their start, drops a segment that
//! repeats the one kept before it, and numbers what is left.

use crate::segment::{views, SegmentView, SubtitleSegment};
use crate::text::{trim, trimmed};
use vstd::prelude::*;

verus! {

/// Two starts closer than this many milliseconds may belong to one utterance.
pub const DUPLICATE_WINDOW_MS: u64 = 1000;

/// The lists of all chunks, one after the other.
pub open spec fn flatten(chunks: Seq<Seq<SegmentView>>) -> Seq<SegmentView>
    decreases chunks.len(),
{
    if chunks.len() == 0 {
        Seq::empty()
    } else {
        flatten(chunks.drop_last()) + chunks.last()
    }
}

/// `sorted` with `s` put behind every segment that starts no later than `s`.
pub open spec fn insert_by_start(sorted: Seq<SegmentView>, s: SegmentView) -> Seq<SegmentView>
    decreases sorted.len(),
{
    if sorted.len() == 0 {
        seq![s]
    } else if sorted.last().start_time <= s.start_time {
        sorted.push(s)
    } else {
        insert_by_start(sorted.drop_last(), s).push(sorted.last())
    }
}

/// The segments in order of their start; segments with the same start keep
/// the order they came in.
pub open spec fn sort_by_start(segments: Seq<SegmentView>) -> Seq<SegmentView>
    decreases segments.len(),
{
    if segments.len() == 0 {
        Seq::empty()
    } else {
        insert_by_start(sort_by_start(segments.drop_last()), segments.last())
    }
}

/// Whether `b` repeats `a`: the starts are less than a second apart and the
/// trimmed texts are the same.
pub open spec fn repeats(a: SegmentView, b: SegmentView) -> bool {
    let gap = if a.start_time >= b.start_time {
        a.start_time - b.start_time
    } else {
        b.start_time - a.start_time
    };
    gap < DUPLICATE_WINDOW_MS as int && trim(a.text) == trim(b.text)
}

/// The segments without those that repeat the segment kept just before.
pub open spec fn dedup(segments: Seq<SegmentView>) -> Seq<SegmentView>
    decreases segments.len(),
{
    if segments.len() == 0 {
        Seq::empty()
    } else {
        let kept = dedup(segments.drop_last());
        if kept.len() > 0 && repeats(kept.last(), segments.last()) {
            kept
        } else {
            kept.push(segments.last())
        }
    }
}

/// The segments, each numbered with its position.
pub open spec fn reindex(segments: Seq<SegmentView>) -> Seq<SegmentView> {
    Seq::new(
        segments.len(),
        |i: int|
            SegmentView {
                index: i as nat,
                start_time: segments[i].start_time,
                end_time: segments[i].end_time,
                text: segments[i].text,
            },
    )
}

/// The merged list of the chunks' lists.
pub open spec fn merged(chunks: Seq<Seq<SegmentView>>) -> Seq<SegmentView> {
    reindex(dedup(sort_by_start(flatten(chunks))))
}

/// Whether the starts never go down along the list.
pub open spec fn ordered_by_start(segments: Seq<SegmentView>) -> bool {
    forall|i: int, j: int|
        0 <= i <= j < segments.len() ==> segments[i].start_time <= segments[j].start_time
}

/// Whether each segment is numbered with its position.
pub open spec fn numbered(segments: Seq<SegmentView>) -> bool {
    forall|i: int| 0 <= i < segments.len() ==> (#[trigger] segments[i]).index == i
}

/// The values of the lists of all chunks.
pub open spec fn chunk_views(chunks: Seq<Vec<SubtitleSegment>>) -> Seq<Seq<SegmentView>> {
    chunks.map_values(|c: Vec<SubtitleSegment>| views(c@))
}

/// Where `insert_by_start` puts a segment: at `p`, when everything before `p`
/// starts no later and everything from `p` on starts later.
pub proof fn lemma_insert_position(sorted: Seq<SegmentView>, s: SegmentView, p: int)
    requires
        0 <= p <= sorted.len(),
        p > 0 ==> sorted[p - 1].start_time <= s.start_time,
        forall|k: int| p <= k < sorted.len() ==> sorted[k].start_time > s.start_time,
    ensures
        insert_by_start(sorted, s) == sorted.insert(p, s),
    decreases sorted.len(),
{
    if sorted.len() == 0 {
        assert(sorted.insert(p, s) == seq![s]);
    } else if p == sorted.len() {
        assert(sorted.insert(p, s) == sorted.push(s));
    } else {
        lemma_insert_position(sorted.drop_last(), s, p);
        assert(sorted.insert(p, s) == sorted.drop_last().insert(p, s).push(sorted.last()));
    }
}

/// Inserting into an ordered list keeps it ordered and adds exactly the new
/// segment.
pub proof fn lemma_insert_ordered(sorted: Seq<SegmentView>, s: SegmentView)
    requires
        ordered_by_start(sorted),
    ensures
        ordered_by_start(insert_by_start(sorted, s)),
        insert_by_start(sorted, s).len() == sorted.len() + 1,
        insert_by_start(sorted, s).to_multiset() == sorted.to_multiset().insert(s),
    decreases sorted.len(),
{
    broadcast use vstd::seq_lib::group_to_multiset_ensures;

    if sorted.len() == 0 {
        assert(seq![s] == Seq::<SegmentView>::empty().push(s));
        assert(sorted == Seq::<SegmentView>::empty());
    } else if sorted.last().start_time <= s.start_time {
    } else {
        let head = sorted.drop_last();
        lemma_insert_ordered(head, s);
        let inner = insert_by_start(head, s);
        let out = inner.push(sorted.last());
        assert(sorted == head.push(sorted.last()));
        assert forall|i: int, j: int| 0 <= i <= j < out.len() implies out[i].start_time
            <= out[j].start_time by {
            if j < inner.len() {
            } else if i < inner.len() {
                assert(inner.to_multiset().count(inner[i]) > 0);
                if inner[i] != s {
                    assert(head.to_multiset().count(inner[i]) > 0);
                    let k = choose|k: int| 0 <= k < head.len() && head[k] == inner[i];
                    assert(sorted[k].start_time <= sorted[sorted.len() - 1].start_time);
                }
            }
        }
        assert(out.to_multiset() == sorted.to_multiset().insert(s));
    }
}

/// Sorting yields an ordered list with the same segments.
pub proof fn lemma_sort_orders(segments: Seq<SegmentView>)
    ensures
        ordered_by_start(sort_by_start(segments)),
        sort_by_start(segments).len() == segments.len(),
        sort_by_start(segments).to_multiset() == segments.to_multiset(),
    decreases segments.len(),
{
    broadcast use vstd::seq_lib::group_to_multiset_ensures;

    if segments.len() == 0 {
        assert(segments == Seq::<SegmentView>::empty());
    } else {
        lemma_sort_orders(segments.drop_last());
        lemma_insert_ordered(sort_by_start(segments.drop_last()), segments.last());
        assert(segments == segments.drop_last().push(segments.last()));
    }
}

/// Sorting leaves an ordered list as it is: segments with equal starts are
/// never exchanged.
pub proof fn lemma_sort_keeps_ordered(segments: Seq<SegmentView>)
    requires
        ordered_by_start(segments),
    ensures
        sort_by_start(segments) == segments,
    decreases segments.len(),
{
    if segments.len() > 0 {
        let head = segments.drop_last();
        assert(ordered_by_start(head)) by {
            assert forall|i: int, j: int| 0 <= i <= j < head.len() implies head[i].start_time
                <= head[j].start_time by {
                assert(segments[i].start_time <= segments[j].start_time);
            }
        }
        lemma_sort_keeps_ordered(head);
        if head.len() > 0 {
            assert(segments[head.len() - 1].start_time <= segments[head.len() as int].start_time);
        }
        assert(head.push(segments.last()) == segments);
    } else {
        assert(segments == Seq::<SegmentView>::empty());
    }
}

/// Dropping repeats keeps the order and never makes the list longer; of a
/// non-empty list the first segment always stays.
pub proof fn lemma_dedup_ordered(segments: Seq<SegmentView>)
    requires
        ordered_by_start(segments),
    ensures
        ordered_by_start(dedup(segments)),
        dedup(segments).len() <= segments.len(),
        segments.len() > 0 ==> dedup(segments).len() > 0 && dedup(segments)[0] == segments[0],
        forall|i: int|
            0 <= i < dedup(segments).len() ==> segments.contains(#[trigger] dedup(segments)[i]),
        forall|i: int|
            0 < i < dedup(segments).len() ==> !repeats(
                dedup(segments)[i - 1],
                #[trigger] dedup(segments)[i],
            ),
        dedup(segments).len() > 0 ==> dedup(segments).last().start_time
            <= segments.last().start_time,
    decreases segments.len(),
{
    if segments.len() > 0 {
        let head = segments.drop_last();
        assert(ordered_by_start(head)) by {
            assert forall|i: int, j: int| 0 <= i <= j < head.len() implies head[i].start_time
                <= head[j].start_time by {
                assert(segments[i].start_time <= segments[j].start_time);
            }
        }
        lemma_dedup_ordered(head);
        let kept = dedup(head);
        let out = dedup(segments);
        if head.len() > 0 {
            assert(head.last() == segments[head.len() - 1]);
            assert(segments[head.len() - 1].start_time <= segments[segments.len() - 1].start_time);
        }
        assert forall|i: int| 0 <= i < out.len() implies segments.contains(#[trigger] out[i]) by {
            if i < kept.len() {
                assert(head.contains(kept[i]));
                let k = choose|k: int| 0 <= k < head.len() && head[k] == kept[i];
                assert(segments[k] == kept[i]);
            } else {
                assert(segments[segments.len() - 1] == out[i]);
            }
        }
    }
}

/// Numbering keeps everything but the numbers.
pub proof fn lemma_reindex_numbers(segments: Seq<SegmentView>)
    ensures
        numbered(reindex(segments)),
        reindex(segments).len() == segments.len(),
        ordered_by_start(segments) ==> ordered_by_start(reindex(segments)),
{
}

/// The merged list is in order of start, and its segments are numbered
/// 0, 1, 2, ... in that order.
pub proof fn lemma_merged_is_ordered_and_numbered(chunks: Seq<Seq<SegmentView>>)
    ensures
        ordered_by_start(merged(chunks)),
        numbered(merged(chunks)),
        merged(chunks).len() <= flatten(chunks).len(),
{
    let flat = flatten(chunks);
    lemma_sort_orders(flat);
    lemma_dedup_ordered(sort_by_start(flat));
    lemma_reindex_numbers(dedup(sort_by_start(flat)));
}

/// Without any segment to merge the merged list is empty: this holds of no
/// chunks at all and of chunks that are all empty.
pub proof fn lemma_merged_of_nothing(chunks: Seq<Seq<SegmentView>>)
    requires
        forall|i: int| 0 <= i < chunks.len() ==> (#[trigger] chunks[i]).len() == 0,
    ensures
        merged(chunks) == Seq::<SegmentView>::empty(),
    decreases chunks.len(),
{
    lemma_flatten_of_nothing(chunks);
    assert(sort_by_start(Seq::<SegmentView>::empty()) == Seq::<SegmentView>::empty());
    assert(dedup(Seq::<SegmentView>::empty()) == Seq::<SegmentView>::empty());
    assert(reindex(Seq::<SegmentView>::empty()) == Seq::<SegmentView>::empty());
}

proof fn lemma_flatten_of_nothing(chunks: Seq<Seq<SegmentView>>)
    requires
        forall|i: int| 0 <= i < chunks.len() ==> (#[trigger] chunks[i]).len() == 0,
    ensures
        flatten(chunks) == Seq::<SegmentView>::empty(),
    decreases chunks.len(),
{
    if chunks.len() > 0 {
        lemma_flatten_of_nothing(chunks.drop_last());
        assert(chunks.last().len() == 0);
        assert(flatten(chunks) =~= Seq::<SegmentView>::empty());
    }
}

/// Two segments that start less than a second apart with the same text, and
/// nothing else, merge into one.
pub proof fn lemma_repeat_collapses(a: SegmentView, b: SegmentView)
    requires
        repeats(a, b),
        a.start_time <= b.start_time,
    ensures
        merged(seq![seq![a], seq![b]]).len() == 1,
        merged(seq![seq![a], seq![b]])[0].start_time == a.start_time,
        merged(seq![seq![a], seq![b]])[0].text == a.text,
{
    let chunks = seq![seq![a], seq![b]];
    assert(chunks.drop_last() == seq![seq![a]]);
    assert(seq![seq![a]].drop_last() == Seq::<Seq<SegmentView>>::empty());
    reveal_with_fuel(flatten, 3);
    assert(flatten(chunks) =~= seq![a, b]);
    let two = seq![a, b];
    assert(two.drop_last() == seq![a]);
    assert(seq![a].drop_last() == Seq::<SegmentView>::empty());
    reveal_with_fuel(sort_by_start, 3);
    reveal_with_fuel(insert_by_start, 3);
    assert(sort_by_start(seq![a]) == seq![a]);
    assert(sort_by_start(two) == two);
    reveal_with_fuel(dedup, 3);
    assert(dedup(seq![a]) == seq![a]);
    assert(dedup(two) == seq![a]);
}

fn is_repeat(a: &SubtitleSegment, b: &SubtitleSegment) -> (r: bool)
    ensures
        r == repeats(a@, b@),
{
    let gap: u64 = if a.start_time >= b.start_time {
        a.start_time - b.start_time
    } else {
        b.start_time - a.start_time
    };
    if gap < DUPLICATE_WINDOW_MS {
        let ta = trimmed(a.text.as_str());
        let tb = trimmed(b.text.as_str());
        ta == tb
    } else {
        false
    }
}

fn collect(chunks: &Vec<Vec<SubtitleSegment>>) -> (flat: Vec<SubtitleSegment>)
    ensures
        views(flat@) == flatten(chunk_views(chunks@)),
{
    let mut flat: Vec<SubtitleSegment> = Vec::new();
    let mut c: usize = 0;
    assert(chunk_views(chunks@).take(0) == Seq::<Seq<SegmentView>>::empty());
    assert(views(flat@) =~= flatten(chunk_views(chunks@).take(0)));
    while c < chunks.len()
        invariant
            c <= chunks.len(),
            views(flat@) == flatten(chunk_views(chunks@).take(c as int)),
        decreases chunks.len() - c,
    {
        let chunk = &chunks[c];
        let ghost before = views(flat@);
        let mut k: usize = 0;
        assert(views(chunk@).take(0) == Seq::<SegmentView>::empty());
        assert(before + views(chunk@).take(0) == before);
        while k < chunk.len()
            invariant
                k <= chunk.len(),
                views(flat@) == before + views(chunk@).take(k as int),
            decreases chunk.len() - k,
        {
            let ghost was = flat@;
            flat.push(chunk[k].duplicate());
            assert(views(flat@) =~= views(was).push(chunk[k as int]@));
            assert(views(chunk@).take(k + 1) =~= views(chunk@).take(k as int).push(
                chunk[k as int]@,
            ));
            assert(views(flat@) =~= before + views(chunk@).take(k + 1));
            k += 1;
        }
        proof {
            let all = chunk_views(chunks@);
            assert(views(chunk@).take(k as int) == views(chunk@));
            assert(all.take(c + 1).drop_last() == all.take(c as int));
            assert(all.take(c + 1).last() == views(chunk@));
        }
        c += 1;
    }
    assert(chunk_views(chunks@).take(c as int) == chunk_views(chunks@));
    flat
}

fn sort(flat: &Vec<SubtitleSegment>) -> (sorted: Vec<SubtitleSegment>)
    ensures
        views(sorted@) == sort_by_start(views(flat@)),
{
    let mut sorted: Vec<SubtitleSegment> = Vec::new();
    let mut i: usize = 0;
    assert(views(flat@).take(0) == Seq::<SegmentView>::empty());
    assert(views(sorted@) =~= sort_by_start(views(flat@).take(0)));
    while i < flat.len()
        invariant
            i <= flat.len(),
            sorted.len() == i,
            views(sorted@) == sort_by_start(views(flat@).take(i as int)),
        decreases flat.len() - i,
    {
        let start = flat[i].start_time;
        let mut p: usize = sorted.len();
        while p > 0 && sorted[p - 1].start_time > start
            invariant
                p <= sorted.len(),
                forall|k: int| p <= k < sorted.len() ==> sorted[k].start_time > start,
            decreases p,
        {
            p -= 1;
        }
        let ghost was = sorted@;
        sorted.insert(p, flat[i].duplicate());
        proof {
            let all = views(flat@);
            lemma_insert_position(views(was), flat[i as int]@, p as int);
            assert(views(sorted@) =~= views(was).insert(p as int, flat[i as int]@));
            assert(all.take(i + 1).drop_last() == all.take(i as int));
            assert(all.take(i + 1).last() == flat[i as int]@);
        }
        i += 1;
    }
    assert(views(flat@).take(i as int) == views(flat@));
    sorted
}

fn dedup_and_number(sorted: &Vec<SubtitleSegment>) -> (out: Vec<SubtitleSegment>)
    ensures
        views(out@) == reindex(dedup(views(sorted@))),
{
    let mut out: Vec<SubtitleSegment> = Vec::new();
    let mut i: usize = 0;
    assert(views(sorted@).take(0) == Seq::<SegmentView>::empty());
    assert(views(out@) =~= reindex(dedup(views(sorted@).take(0))));
    while i < sorted.len()
        invariant
            i <= sorted.len(),
            out.len() <= i,
            views(out@) == reindex(dedup(views(sorted@).take(i as int))),
        decreases sorted.len() - i,
    {
        let ghost all = views(sorted@);
        let ghost kept = dedup(all.take(i as int));
        let n = out.len();
        let repeat = n > 0 && is_repeat(&out[n - 1], &sorted[i]);
        proof {
            assert(all.take(i + 1).drop_last() == all.take(i as int));
            assert(all.take(i + 1).last() == sorted[i as int]@);
            assert(views(out@).len() == n);
            assert(reindex(kept).len() == kept.len());
            if n > 0 {
                assert(views(out@)[n - 1] == out[n - 1]@);
                assert(out[n - 1]@ == reindex(kept)[n - 1]);
                assert(kept.last() == kept[n - 1]);
                assert(repeats(out[n - 1]@, sorted[i as int]@) == repeats(
                    kept.last(),
                    sorted[i as int]@,
                ));
            }
        }
        if !repeat {
            let ghost was = out@;
            let segment = &sorted[i];
            out.push(
                SubtitleSegment {
                    index: n,
                    start_time: segment.start_time,
                    end_time: segment.end_time,
                    text: segment.text.clone(),
                },
            );
            proof {
                let grown = kept.push(sorted[i as int]@);
                assert(views(was).len() == n);
                assert(views(out@).len() == n + 1);
                assert forall|k: int| 0 <= k < n + 1 implies views(out@)[k] == reindex(
                    grown,
                )[k] by {
                    if k < n {
                        assert(views(out@)[k] == views(was)[k]);
                        assert(views(was)[k] == reindex(kept)[k]);
                        assert(grown[k] == kept[k]);
                    } else {
                        assert(views(out@)[k] == out[k]@);
                    }
                }
                assert(views(out@) =~= reindex(grown));
            }
        }
        i += 1;
    }
    assert(views(sorted@).take(i as int) == views(sorted@));
    out
}

/// Merges the segment lists of all chunks: all segments in order of start,
/// without repeats, numbered from zero.
///
/// The chunks may come in any order; segments with the same start stay in the
/// order in which the lists give them.
pub fn merge_segments(chunks: &Vec<Vec<SubtitleSegment>>) -> (out: Vec<SubtitleSegment>)
    ensures
        views(out@) == merged(chunk_views(chunks@)),
        ordered_by_start(views(out@)),
        numbered(views(out@)),
{
    let flat = collect(chunks);
    let sorted = sort(&flat);
    let out = dedup_and_number(&sorted);
    proof {
        lemma_merged_is_ordered_and_numbered(chunk_views(chunks@));
    }
    out
}

} // verus!
