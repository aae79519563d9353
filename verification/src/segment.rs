//! Timed pieces of recognised text.
//!
//! Every time in this library is a whole number of milliseconds.

use vstd::prelude::*;

verus! {

/// One subtitle: a piece of text with the span of the recording it belongs to.
///
/// `index` is the position of the segment in the list it is displayed in; it
/// is assigned again whenever lists are merged and identifies nothing.
#[derive(Debug)]
pub struct SubtitleSegment {
    pub index: usize,
    /// Milliseconds from the start of the recording.
    pub start_time: u64,
    /// Milliseconds from the start of the recording.
    pub end_time: u64,
    pub text: String,
}

/// The mathematical value of a [`SubtitleSegment`].
pub ghost struct SegmentView {
    pub index: nat,
    pub start_time: nat,
    pub end_time: nat,
    pub text: Seq<char>,
}

impl View for SubtitleSegment {
    type V = SegmentView;

    open spec fn view(&self) -> SegmentView {
        SegmentView {
            index: self.index as nat,
            start_time: self.start_time as nat,
            end_time: self.end_time as nat,
            text: self.text@,
        }
    }
}

/// The values of a list of segments.
pub open spec fn views(segments: Seq<SubtitleSegment>) -> Seq<SegmentView> {
    segments.map_values(|s: SubtitleSegment| s@)
}

impl SubtitleSegment {
    /// A copy of the segment.
    pub fn duplicate(&self) -> (copy: SubtitleSegment)
        ensures
            copy@ == self@,
    {
        SubtitleSegment {
            index: self.index,
            start_time: self.start_time,
            end_time: self.end_time,
            text: self.text.clone(),
        }
    }
}

} // verus!
