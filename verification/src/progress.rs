//! Progress of a batch job: the events a listener sees, and the count of
//! finished chunks behind the percentage.

use vstd::prelude::*;

verus! {

/// What a listener is told while a job runs.
#[derive(Debug)]
pub enum TranscriptionProgress {
    Converting { message: String },
    DetectingLanguage,
    LanguageDetected { language: String },
    /// `progress` is the share of finished chunks, from 0 to 100.
    Transcribing { progress: u8 },
    GeneratingSubtitles,
    Complete { subtitle_format: String },
}

impl TranscriptionProgress {
    /// The place of the event's stage in a job: events of one job come with
    /// stages that never go down.
    pub open spec fn stage(&self) -> nat {
        match self {
            TranscriptionProgress::Converting { .. } => 0,
            TranscriptionProgress::DetectingLanguage => 1,
            TranscriptionProgress::LanguageDetected { .. } => 2,
            TranscriptionProgress::Transcribing { .. } => 3,
            TranscriptionProgress::GeneratingSubtitles => 4,
            TranscriptionProgress::Complete { .. } => 5,
        }
    }

    /// The place of the event's stage in a job.
    pub fn stage_number(&self) -> (n: u8)
        ensures
            n == self.stage(),
    {
        match self {
            TranscriptionProgress::Converting { .. } => 0,
            TranscriptionProgress::DetectingLanguage => 1,
            TranscriptionProgress::LanguageDetected { .. } => 2,
            TranscriptionProgress::Transcribing { .. } => 3,
            TranscriptionProgress::GeneratingSubtitles => 4,
            TranscriptionProgress::Complete { .. } => 5,
        }
    }
}

/// The percentage an event carries; only `Transcribing` carries one.
pub open spec fn percent_in(event: TranscriptionProgress) -> nat {
    match event {
        TranscriptionProgress::Transcribing { progress } => progress as nat,
        _ => 0,
    }
}

/// Whether `next` may come after `last` in one job: its stage is a later one,
/// or both tell of transcribing and the percentage has not gone down.
pub open spec fn may_follow(last: TranscriptionProgress, next: TranscriptionProgress) -> bool {
    last.stage() < next.stage() || (last is Transcribing && next is Transcribing && percent_in(last)
        <= percent_in(next))
}

/// Watches over the order of the events of one job: an event that would go
/// back to an earlier stage, or repeat one, or lower the percentage, is not
/// let through.
#[derive(Debug)]
pub struct EventOrder {
    started: bool,
    stage: u8,
    percent: u8,
}

impl EventOrder {
    /// Whether an event has been let through.
    pub closed spec fn started(&self) -> bool {
        self.started
    }

    /// The stage of the last event let through.
    pub closed spec fn last_stage(&self) -> nat {
        self.stage as nat
    }

    /// The percentage of the last event let through.
    pub closed spec fn last_percent(&self) -> nat {
        self.percent as nat
    }

    /// Whether `event` may come next.
    pub open spec fn admits(&self, event: TranscriptionProgress) -> bool {
        !self.started() || self.last_stage() < event.stage() || (self.last_stage() == 3
            && event is Transcribing && self.last_percent() <= percent_in(event))
    }

    /// The order of a job that has not told anything yet.
    pub fn new() -> (order: EventOrder)
        ensures
            !order.started(),
    {
        EventOrder { started: false, stage: 0, percent: 0 }
    }

    /// Says whether `event` may come next, and takes note of it if it may.
    pub fn record(&mut self, event: &TranscriptionProgress) -> (admitted: bool)
        ensures
            admitted == old(self).admits(*event),
            admitted ==> final(self).started() && final(self).last_stage() == event.stage()
                && final(self).last_percent() == percent_in(*event),
            !admitted ==> *final(self) == *old(self),
            old(self).started() ==> final(self).last_stage() >= old(self).last_stage(),
            old(self).started() && old(self).last_stage() == 3 && final(self).last_stage() == 3
                ==> final(self).last_percent() >= old(self).last_percent(),
    {
        let stage = event.stage_number();
        let percent: u8 = match event {
            TranscriptionProgress::Transcribing { progress } => *progress,
            _ => 0,
        };
        if !self.started || self.stage < stage || (self.stage == 3 && stage == 3 && self.percent
            <= percent) {
            self.started = true;
            self.stage = stage;
            self.percent = percent;
            true
        } else {
            false
        }
    }
}

/// What `record` lets through after an event is what may follow that event.
pub proof fn lemma_admitted_events_follow(
    order: EventOrder,
    last: TranscriptionProgress,
    next: TranscriptionProgress,
)
    requires
        order.started(),
        order.last_stage() == last.stage(),
        order.last_percent() == percent_in(last),
    ensures
        order.admits(next) == may_follow(last, next),
{
}

/// The share of `completed` in `total`, in whole percent, cut off. A job
/// without chunks has nothing left to do.
pub open spec fn percent_of(completed: nat, total: nat) -> nat {
    if total == 0 {
        100
    } else {
        100 * completed / total
    }
}

/// The percentages a listener sees while `total` chunks finish one by one,
/// in whatever order.
pub open spec fn observed_percents(total: nat) -> Seq<nat> {
    Seq::new(total, |i: int| percent_of((i + 1) as nat, total))
}

/// More finished chunks never give a smaller percentage, no percentage is
/// over 100, and all chunks finished give 100.
pub proof fn lemma_percent_monotone(earlier: nat, later: nat, total: nat)
    requires
        earlier <= later <= total,
    ensures
        percent_of(earlier, total) <= percent_of(later, total) <= 100,
        percent_of(total, total) == 100,
{
    if total > 0 {
        assert(100 * earlier / total <= 100 * later / total) by (nonlinear_arith)
            requires
                earlier <= later,
                total > 0,
        ;
        assert(100 * later / total <= 100 * total / total) by (nonlinear_arith)
            requires
                later <= total,
                total > 0,
        ;
        assert(100 * total / total == 100) by (nonlinear_arith)
            requires
                total > 0,
        ;
    }
}

/// The percentages a listener sees never go down, and the last one is 100.
pub proof fn lemma_observed_percents_rise(total: nat)
    ensures
        forall|i: int, j: int|
            0 <= i <= j < total ==> observed_percents(total)[i] <= observed_percents(total)[j],
        total > 0 ==> observed_percents(total).last() == 100,
{
    assert forall|i: int, j: int| 0 <= i <= j < total implies observed_percents(total)[i]
        <= observed_percents(total)[j] by {
        lemma_percent_monotone((i + 1) as nat, (j + 1) as nat, total);
    }
    if total > 0 {
        lemma_percent_monotone(total, total, total);
    }
}

/// Whether `event` tells the listener that `percent` percent of the chunks
/// have finished.
pub open spec fn reports(event: Option<TranscriptionProgress>, percent: nat) -> bool {
    match event {
        Some(TranscriptionProgress::Transcribing { progress }) => progress == percent,
        _ => false,
    }
}

/// Counts the chunks of a job that have finished.
#[derive(Debug)]
pub struct ProgressAggregator {
    total: usize,
    completed: usize,
}

impl ProgressAggregator {
    #[verifier::type_invariant]
    spec fn counted(self) -> bool {
        self.completed <= self.total
    }

    /// The number of chunks of the job.
    pub closed spec fn total(&self) -> nat {
        self.total as nat
    }

    /// The number of chunks that have finished so far.
    pub closed spec fn completed(&self) -> nat {
        self.completed as nat
    }

    /// A count for a job of `total` chunks, none of them finished.
    pub fn new(total: usize) -> (p: ProgressAggregator)
        ensures
            p.total() == total,
            p.completed() == 0,
    {
        ProgressAggregator { total, completed: 0 }
    }

    /// Takes note that one more chunk has finished, well or badly, and gives
    /// the event for the listener. Once every chunk has been counted, a
    /// further call changes nothing and gives no event.
    pub fn record_completion(&mut self) -> (event: Option<TranscriptionProgress>)
        ensures
            final(self).total() == old(self).total(),
            final(self).completed() <= final(self).total(),
            old(self).completed() < old(self).total() ==> {
                &&& final(self).completed() == old(self).completed() + 1
                &&& reports(event, percent_of(final(self).completed(), final(self).total()))
            },
            old(self).completed() >= old(self).total() ==> {
                &&& final(self).completed() == old(self).completed()
                &&& event is None
            },
    {
        proof {
            use_type_invariant(&*self);
        }
        if self.completed < self.total {
            self.completed = self.completed + 1;
            Some(TranscriptionProgress::Transcribing { progress: self.percent() })
        } else {
            None
        }
    }

    /// The share of finished chunks, in whole percent.
    pub fn percent(&self) -> (p: u8)
        ensures
            p == percent_of(self.completed(), self.total()),
            p <= 100,
    {
        proof {
            use_type_invariant(self);
            lemma_percent_monotone(self.completed as nat, self.total as nat, self.total as nat);
        }
        if self.total == 0 {
            100
        } else {
            (100 * (self.completed as u128) / (self.total as u128)) as u8
        }
    }

    /// The number of chunks that have finished so far.
    pub fn completed_chunks(&self) -> (n: usize)
        ensures
            n == self.completed(),
            n <= self.total(),
    {
        proof {
            use_type_invariant(self);
        }
        self.completed
    }

    /// The number of chunks of the job.
    pub fn total_chunks(&self) -> (n: usize)
        ensures
            n == self.total(),
    {
        self.total
    }

    /// Whether every chunk has finished.
    pub fn is_complete(&self) -> (done: bool)
        ensures
            done == (self.completed() == self.total()),
    {
        self.completed == self.total
    }
}

} // verus!
