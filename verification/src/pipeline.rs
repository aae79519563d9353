//! The course of a batch job: which chunk is handed to a worker next, what
//! is done with what a worker reports, and what the job yields in the end.
//!
//! The job decides and counts; running the workers is the caller's part. A
//! chunk is handed out only with a free slot, so there are never more
//! workers at work than there are slots. The first failure is the job's
//! failure: no further chunk is handed out after it, and the job yields it
//! instead of a result.

use crate::error::{fails_with, ErrorKind, TranscribeError};
use crate::gate::ConcurrencyGate;
use crate::merger::chunk_views;
use crate::progress::{percent_of, reports, ProgressAggregator, TranscriptionProgress};
use crate::result::{assemble, is_assembly_of, TranscriptionResult};
use crate::segment::{views, SegmentView, SubtitleSegment};
use vstd::prelude::*;

verus! {

/// A batch job over the chunks of one recording.
pub struct BatchJob {
    gate: ConcurrencyGate,
    progress: ProgressAggregator,
    next: usize,
    results: Vec<Vec<SubtitleSegment>>,
    failure: Option<TranscribeError>,
}

impl BatchJob {
    /// Whether the counts of the job agree: every chunk handed out is either
    /// at work or finished, no more chunks are at work than there are
    /// slots, and as long as nothing failed every finished chunk has its
    /// list. Every job that `new` made and that only the methods of this type
    /// have worked on is.
    pub closed spec fn wf(&self) -> bool {
        &&& self.next <= self.progress.total()
        &&& self.gate.held() + self.progress.completed() == self.next
        &&& self.gate.held() <= self.gate.bound()
        &&& self.progress.completed() <= self.progress.total()
        &&& self.failure is None ==> self.results.len() == self.progress.completed()
    }

    /// The number of chunks of the job.
    pub closed spec fn total(&self) -> nat {
        self.progress.total()
    }

    /// The most workers that may be at work at one time.
    pub closed spec fn bound(&self) -> nat {
        self.gate.bound()
    }

    /// The number of chunks handed out so far.
    pub closed spec fn dispatched(&self) -> nat {
        self.next as nat
    }

    /// The number of workers at work.
    pub closed spec fn in_flight(&self) -> nat {
        self.gate.held()
    }

    /// The number of chunks whose worker has reported.
    pub closed spec fn completed(&self) -> nat {
        self.progress.completed()
    }

    /// The first failure a worker reported, if any did.
    pub closed spec fn failure(&self) -> Option<TranscribeError> {
        self.failure
    }

    /// The segment lists reported so far, in the order of the reports.
    pub closed spec fn collected(&self) -> Seq<Seq<SegmentView>> {
        chunk_views(self.results@)
    }

    /// Whether the job has come to rest: no worker is at work, and a worker
    /// has failed or every chunk has finished.
    pub open spec fn settled(&self) -> bool {
        self.in_flight() == 0 && (self.failure() is Some || self.completed() == self.total())
    }

    /// There are never more workers at work than there are slots, and
    /// never more chunks handed out than the job has; every chunk handed out
    /// is at work or finished; and as long as no worker has failed, every
    /// finished chunk has its list among those collected.
    pub proof fn lemma_workers_bounded(&self)
        requires
            self.wf(),
        ensures
            self.in_flight() <= self.bound(),
            self.in_flight() + self.completed() == self.dispatched(),
            self.dispatched() <= self.total(),
            self.failure() is None ==> self.collected().len() == self.completed(),
    {
    }

    /// A job over `total_chunks` chunks that lets `bound` workers work at one
    /// time.
    pub fn new(total_chunks: usize, bound: usize) -> (job: BatchJob)
        ensures
            job.wf(),
            job.total() == total_chunks,
            job.bound() == bound,
            job.dispatched() == 0,
            job.in_flight() == 0,
            job.completed() == 0,
            job.failure() is None,
            job.collected() == Seq::<Seq<SegmentView>>::empty(),
    {
        let job = BatchJob {
            gate: ConcurrencyGate::new(bound),
            progress: ProgressAggregator::new(total_chunks),
            next: 0,
            results: Vec::new(),
            failure: None,
        };
        assert(job.collected() =~= Seq::<Seq<SegmentView>>::empty());
        job
    }

    /// The chunk to hand to a worker now, if there is one: the next chunk in
    /// order, as long as nothing has failed, a chunk is left, and a slot is
    /// free. The slot is taken with it.
    pub fn next_chunk(&mut self) -> (chunk: Option<usize>)
        requires
            old(self).wf(),
        ensures
            final(self).wf(),
            final(self).total() == old(self).total(),
            final(self).bound() == old(self).bound(),
            final(self).completed() == old(self).completed(),
            final(self).failure() == old(self).failure(),
            final(self).collected() == old(self).collected(),
            final(self).in_flight() <= final(self).bound(),
            chunk is Some <==> {
                &&& old(self).failure() is None
                &&& old(self).dispatched() < old(self).total()
                &&& old(self).in_flight() < old(self).bound()
            },
            chunk matches Some(index) ==> {
                &&& index == old(self).dispatched()
                &&& final(self).dispatched() == old(self).dispatched() + 1
                &&& final(self).in_flight() == old(self).in_flight() + 1
            },
            chunk is None ==> {
                &&& final(self).dispatched() == old(self).dispatched()
                &&& final(self).in_flight() == old(self).in_flight()
            },
    {
        if self.failure.is_some() || self.next >= self.progress.total_chunks() {
            return None;
        }
        if self.gate.try_acquire() {
            let index = self.next;
            self.next = index + 1;
            Some(index)
        } else {
            None
        }
    }

    /// Takes the report of a worker: its slot is free again, its chunk is
    /// counted, and the listener's event is given. A list of segments is kept
    /// unless the job has failed; a failure is kept if it is the first. A
    /// report that no worker at work can have sent changes nothing and gives
    /// no event.
    pub fn chunk_finished(
        &mut self,
        outcome: Result<Vec<SubtitleSegment>, TranscribeError>,
    ) -> (event: Option<TranscriptionProgress>)
        requires
            old(self).wf(),
        ensures
            final(self).wf(),
            final(self).total() == old(self).total(),
            final(self).bound() == old(self).bound(),
            final(self).dispatched() == old(self).dispatched(),
            final(self).in_flight() <= final(self).bound(),
            old(self).in_flight() == 0 ==> {
                &&& event is None
                &&& final(self).in_flight() == 0
                &&& final(self).completed() == old(self).completed()
                &&& final(self).failure() == old(self).failure()
                &&& final(self).collected() == old(self).collected()
            },
            old(self).in_flight() > 0 ==> {
                &&& final(self).in_flight() == old(self).in_flight() - 1
                &&& final(self).completed() == old(self).completed() + 1
                &&& reports(event, percent_of(final(self).completed(), final(self).total()))
                &&& match outcome {
                    Ok(segments) => {
                        &&& final(self).failure() == old(self).failure()
                        &&& final(self).collected() == if old(self).failure() is None {
                            old(self).collected().push(views(segments@))
                        } else {
                            old(self).collected()
                        }
                    },
                    Err(e) => {
                        &&& final(self).collected() == old(self).collected()
                        &&& final(self).failure() == if old(self).failure() is None {
                            Some(e)
                        } else {
                            old(self).failure()
                        }
                    },
                }
            },
    {
        if !self.gate.release() {
            return None;
        }
        let event = self.progress.record_completion();
        match outcome {
            Ok(segments) => {
                if self.failure.is_none() {
                    self.results.push(segments);
                    assert(self.collected() =~= old(self).collected().push(views(segments@)));
                }
            },
            Err(e) => {
                if self.failure.is_none() {
                    self.failure = Some(e);
                }
            },
        }
        event
    }

    /// Calls the job off: no further chunk is handed out, and unless a worker
    /// has failed before, the job yields the failure of a job called off. The
    /// workers at work still report, and their slots come free as they do.
    pub fn cancel(&mut self)
        requires
            old(self).wf(),
        ensures
            final(self).wf(),
            final(self).total() == old(self).total(),
            final(self).bound() == old(self).bound(),
            final(self).dispatched() == old(self).dispatched(),
            final(self).in_flight() == old(self).in_flight(),
            final(self).completed() == old(self).completed(),
            final(self).collected() == old(self).collected(),
            old(self).failure() is Some ==> final(self).failure() == old(self).failure(),
            old(self).failure() is None ==> (final(self).failure() matches Some(e) && e.kind
                == ErrorKind::TaskJoinError && e.detail@ == cancelled_detail()),
    {
        if self.failure.is_none() {
            self.failure = Some(
                TranscribeError::new(ErrorKind::TaskJoinError, "the job was cancelled".to_owned()),
            );
        }
    }

    /// Whether the job has come to rest.
    pub fn is_settled(&self) -> (settled: bool)
        requires
            self.wf(),
        ensures
            settled == self.settled(),
    {
        !self.gate.has_holder() && (self.failure.is_some() || self.progress.is_complete())
    }

    /// What the job yields for a recording in `language`: the first failure
    /// if a worker failed; else, if a chunk never finished, the failure of a
    /// worker that ended without reporting; else the result put together from
    /// all lists.
    pub fn finish(self, language: String) -> (result: Result<TranscriptionResult, TranscribeError>)
        requires
            self.wf(),
        ensures
            match self.failure() {
                Some(e) => result == Err::<TranscriptionResult, TranscribeError>(e),
                None => if self.completed() < self.total() {
                    fails_with(result, ErrorKind::TaskJoinError, unfinished_detail())
                } else {
                    result matches Ok(r) && is_assembly_of(r, self.collected(), language@)
                },
            },
    {
        match self.failure {
            Some(e) => Err(e),
            None => {
                if !self.progress.is_complete() {
                    Err(
                        TranscribeError::new(
                            ErrorKind::TaskJoinError,
                            "a chunk was never finished".to_owned(),
                        ),
                    )
                } else {
                    Ok(assemble(&self.results, language))
                }
            },
        }
    }
}

/// The detail of the failure of a job that was called off.
pub open spec fn cancelled_detail() -> Seq<char> {
    "the job was cancelled"@
}

/// The detail of the failure of a job that is asked for its result before
/// every chunk has finished.
pub open spec fn unfinished_detail() -> Seq<char> {
    "a chunk was never finished"@
}

} // verus!
