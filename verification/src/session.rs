//! Live recognition sessions.
//!
//! A session owns one streaming recogniser and is fed audio frame by frame.
//! The table of sessions hands out the ids, finds the session for each
//! frame, and forgets a session when it ends. The recogniser itself is driven
//! by the caller: the table lends it out for a frame, and the session turns
//! what the recogniser reported into the result for that frame.

use crate::error::{fails_with, ErrorKind, TranscribeError};
use crate::text::{decimal, lemma_decimal_injective, push_decimal};
use vstd::prelude::*;

verus! {

/// What one audio frame of a live session yielded.
#[derive(Debug)]
pub struct VoskTranscriptionResult {
    pub text: String,
    /// `true` while the utterance is still going on and `text` may change.
    pub is_partial: bool,
}

/// What the recogniser reported after it was fed one frame.
#[derive(Debug)]
pub enum FrameOutcome {
    /// An utterance ended with this frame; the text of the whole utterance,
    /// if the recogniser has a single best one.
    Finalized(Option<String>),
    /// The utterance goes on; the best guess so far.
    Running(String),
    /// The frame could not be decoded.
    Failed,
}

/// The stages of a session's life. `Finalized` is the last one.
#[derive(Debug, Clone, Copy, PartialEq, Eq, Structural)]
pub enum SessionState {
    Active,
    Finalized,
}

/// The text that a frame's outcome stands for.
pub open spec fn frame_text(frame: FrameOutcome) -> Seq<char> {
    match frame {
        FrameOutcome::Finalized(Some(text)) => text@,
        FrameOutcome::Finalized(None) => Seq::empty(),
        FrameOutcome::Running(text) => text@,
        FrameOutcome::Failed => Seq::empty(),
    }
}

/// Whether the text of a frame's outcome may still change: it may not once
/// the utterance has ended.
pub open spec fn frame_is_partial(frame: FrameOutcome) -> bool {
    !(frame is Finalized)
}

/// The result of a frame: final text where an utterance ended, the guess so
/// far while it goes on, and an empty guess where the frame failed, so that
/// one bad frame does not end the stream.
pub fn classify_frame(frame: FrameOutcome) -> (result: VoskTranscriptionResult)
    ensures
        result.text@ == frame_text(frame),
        result.is_partial == frame_is_partial(frame),
{
    match frame {
        FrameOutcome::Finalized(Some(text)) => VoskTranscriptionResult { text, is_partial: false },
        FrameOutcome::Finalized(None) => VoskTranscriptionResult {
            text: String::new(),
            is_partial: false,
        },
        FrameOutcome::Running(text) => VoskTranscriptionResult { text, is_partial: true },
        FrameOutcome::Failed => VoskTranscriptionResult { text: String::new(), is_partial: true },
    }
}

/// Whether `result` is the result of a frame with the given outcome.
pub open spec fn is_result_of(
    result: Result<VoskTranscriptionResult, TranscribeError>,
    frame: FrameOutcome,
) -> bool {
    match result {
        Ok(r) => r.text@ == frame_text(frame) && r.is_partial == frame_is_partial(frame),
        Err(_) => false,
    }
}

/// The text left over when a stream ends: what the recogniser still had, or
/// nothing.
pub open spec fn trailing_text(last: Option<String>) -> Seq<char> {
    match last {
        Some(text) => text@,
        None => Seq::empty(),
    }
}

/// The id of the session with the given number.
pub open spec fn session_name(number: nat) -> Seq<char> {
    seq!['v', 'o', 's', 'k', '-'] + decimal(number)
}

/// Sessions with different numbers have different ids.
pub proof fn lemma_session_names_differ(a: nat, b: nat)
    requires
        a != b,
    ensures
        session_name(a) != session_name(b),
{
    if session_name(a) == session_name(b) {
        assert(session_name(a).skip(5) == decimal(a));
        assert(session_name(b).skip(5) == decimal(b));
        lemma_decimal_injective(a, b);
    }
}

fn session_id(number: u64) -> (id: String)
    ensures
        id@ == session_name(number as nat),
{
    let mut id = String::new();
    id.push('v');
    id.push('o');
    id.push('s');
    id.push('k');
    id.push('-');
    push_decimal(&mut id, number as u128);
    assert(id@ =~= session_name(number as nat));
    id
}

fn not_found(session_id: &str) -> (e: TranscribeError)
    ensures
        e.kind == ErrorKind::SessionNotFound,
        e.detail@ == session_id@,
{
    TranscribeError::new(ErrorKind::SessionNotFound, session_id.to_owned())
}

/// One live session: its id, its recogniser, and the stage of its life.
///
/// `R` is the recogniser. Nothing but the session holds it, and it ends with
/// the session.
#[derive(Debug)]
pub struct VoskLiveSession<R> {
    id: String,
    recognizer: R,
    sample_rate: u32,
    state: SessionState,
}

impl<R> VoskLiveSession<R> {
    /// The id of the session.
    pub closed spec fn id(&self) -> Seq<char> {
        self.id@
    }

    /// The recogniser of the session.
    pub closed spec fn recognizer(&self) -> R {
        self.recognizer
    }

    /// The number of samples a second of the audio the session is fed.
    pub closed spec fn sample_rate(&self) -> nat {
        self.sample_rate as nat
    }

    /// The stage of the session's life.
    pub closed spec fn state(&self) -> SessionState {
        self.state
    }

    /// Whether the session is what `old` became by work on its recogniser
    /// alone.
    pub open spec fn same_but_recognizer(&self, old: &Self) -> bool {
        &&& self.id() == old.id()
        &&& self.sample_rate() == old.sample_rate()
        &&& self.state() == old.state()
    }

    /// An active session with the given id, for audio of `sample_rate`
    /// samples a second.
    pub fn new(id: String, recognizer: R, sample_rate: u32) -> (session: Self)
        ensures
            session.id() == id@,
            session.recognizer() == recognizer,
            session.sample_rate() == sample_rate,
            session.state() == SessionState::Active,
    {
        VoskLiveSession { id, recognizer, sample_rate, state: SessionState::Active }
    }

    /// The result of one frame, from what the recogniser reported of it. A
    /// session that has ended takes no frames: it answers as one that cannot
    /// be found.
    pub fn process_chunk(&mut self, frame: FrameOutcome) -> (result: Result<
        VoskTranscriptionResult,
        TranscribeError,
    >)
        ensures
            *final(self) == *old(self),
            old(self).state() == SessionState::Active ==> is_result_of(result, frame),
            old(self).state() == SessionState::Finalized ==> fails_with(
                result,
                ErrorKind::SessionNotFound,
                old(self).id(),
            ),
    {
        match self.state {
            SessionState::Active => Ok(classify_frame(frame)),
            SessionState::Finalized => Err(not_found(self.id.as_str())),
        }
    }

    /// Ends the session and gives its last text: `trailing`, which is what
    /// the recogniser still had when the stream stopped, or nothing. A
    /// session ends once; after that it answers as one that cannot be found.
    pub fn finalize(&mut self, trailing: Option<String>) -> (result: Result<
        String,
        TranscribeError,
    >)
        ensures
            final(self).state() == SessionState::Finalized,
            final(self).id() == old(self).id(),
            final(self).sample_rate() == old(self).sample_rate(),
            final(self).recognizer() == old(self).recognizer(),
            old(self).state() == SessionState::Active ==> (result matches Ok(text) && text@
                == trailing_text(trailing)),
            old(self).state() == SessionState::Finalized ==> fails_with(
                result,
                ErrorKind::SessionNotFound,
                old(self).id(),
            ),
    {
        match self.state {
            SessionState::Active => {
                self.state = SessionState::Finalized;
                match trailing {
                    Some(text) => Ok(text),
                    None => Ok(String::new()),
                }
            },
            SessionState::Finalized => Err(not_found(self.id.as_str())),
        }
    }

    /// The recogniser, to feed it a frame or to ask it for its last text.
    pub fn recognizer_mut(&mut self) -> (recognizer: &mut R)
        ensures
            *recognizer == old(self).recognizer(),
            final(self).recognizer() == *final(recognizer),
            final(self).same_but_recognizer(old(self)),
    {
        &mut self.recognizer
    }

    /// The id of the session.
    pub fn session_id(&self) -> (id: &String)
        ensures
            id@ == self.id(),
    {
        &self.id
    }

    /// The number of samples a second of the audio the session is fed.
    pub fn samples_per_second(&self) -> (rate: u32)
        ensures
            rate == self.sample_rate(),
    {
        self.sample_rate
    }

    /// Whether the session still takes frames.
    pub fn is_active(&self) -> (active: bool)
        ensures
            active == (self.state() == SessionState::Active),
    {
        match self.state {
            SessionState::Active => true,
            SessionState::Finalized => false,
        }
    }
}

struct Entry<R> {
    number: u64,
    session: VoskLiveSession<R>,
}

/// The table of live sessions.
///
/// Ids are `vosk-1`, `vosk-2`, ... in the order in which sessions start, and
/// no id is given twice, whether its session has ended or not.
pub struct VoskSessionManager<R> {
    entries: Vec<Entry<R>>,
    next_id: u64,
}

impl<R> VoskSessionManager<R> {
    /// Whether the table is in order: each session is active and carries the
    /// id of its number, and the numbers rise along the table and stay below
    /// the next one. Every table that `new` made and that only the methods of
    /// this type have worked on is.
    pub closed spec fn wf(&self) -> bool {
        &&& self.next_id >= 1
        &&& forall|i: int|
            0 <= i < self.entries.len() ==> {
                &&& 1 <= (#[trigger] self.entries[i]).number < self.next_id
                &&& self.entries[i].session.id@ == session_name(self.entries[i].number as nat)
                &&& self.entries[i].session.state == SessionState::Active
            }
        &&& forall|i: int, j: int|
            0 <= i < j < self.entries.len() ==> self.entries[i].number < self.entries[j].number
    }

    /// The sessions of the table, in the order in which they started.
    pub closed spec fn sessions(&self) -> Seq<VoskLiveSession<R>> {
        self.entries@.map_values(|e: Entry<R>| e.session)
    }

    /// The number that the id of the next session will carry.
    pub closed spec fn next_number(&self) -> nat {
        self.next_id as nat
    }

    /// Whether the table has a session with the given id.
    pub open spec fn contains(&self, id: Seq<char>) -> bool {
        exists|i: int| 0 <= i < self.sessions().len() && (#[trigger] self.sessions()[i]).id() == id
    }

    /// A table without sessions.
    pub fn new() -> (manager: Self)
        ensures
            manager.wf(),
            manager.sessions().len() == 0,
            manager.next_number() == 1,
    {
        VoskSessionManager { entries: Vec::new(), next_id: 1 }
    }

    fn find(&self, session_id: &str) -> (at: Option<usize>)
        ensures
            match at {
                Some(i) => i < self.entries.len() && self.entries[i as int].session.id@
                    == session_id@,
                None => !self.contains(session_id@),
            },
    {
        let wanted = session_id.to_owned();
        let mut i: usize = 0;
        while i < self.entries.len()
            invariant
                i <= self.entries.len(),
                wanted@ == session_id@,
                forall|k: int| 0 <= k < i ==> self.entries[k].session.id@ != session_id@,
            decreases self.entries.len() - i,
        {
            if self.entries[i].session.id == wanted {
                return Some(i);
            }
            i += 1;
        }
        assert forall|k: int| 0 <= k < self.sessions().len() implies (
        #[trigger] self.sessions()[k]).id() != session_id@ by {
            assert(self.sessions()[k] == self.entries[k].session);
        }
        None
    }

    /// Starts a session around `recognizer`, for audio of `sample_rate`
    /// samples a second, and gives its id. The id is new: no session of this
    /// table has had it before. Once the numbers are used up, no session is
    /// started.
    pub fn start_session(&mut self, recognizer: R, sample_rate: u32) -> (id: Option<String>)
        requires
            old(self).wf(),
        ensures
            final(self).wf(),
            old(self).next_number() < u64::MAX ==> (id matches Some(name) && {
                &&& name@ == session_name(old(self).next_number())
                &&& !old(self).contains(name@)
                &&& final(self).sessions().len() == old(self).sessions().len() + 1
                &&& final(self).sessions().drop_last() == old(self).sessions()
                &&& final(self).sessions().last().id() == name@
                &&& final(self).sessions().last().recognizer() == recognizer
                &&& final(self).sessions().last().sample_rate() == sample_rate
                &&& final(self).sessions().last().state() == SessionState::Active
                &&& final(self).next_number() == old(self).next_number() + 1
            }),
            old(self).next_number() >= u64::MAX ==> {
                &&& id is None
                &&& final(self).sessions() == old(self).sessions()
                &&& final(self).next_number() == old(self).next_number()
            },
    {
        if self.next_id == u64::MAX {
            return None;
        }
        let number = self.next_id;
        let name = session_id(number);
        let session = VoskLiveSession::new(name.clone(), recognizer, sample_rate);
        proof {
            assert forall|k: int| 0 <= k < self.sessions().len() implies (
            #[trigger] self.sessions()[k]).id() != name@ by {
                assert(self.sessions()[k] == self.entries[k].session);
                lemma_session_names_differ(self.entries[k].number as nat, number as nat);
            }
        }
        let ghost before = self.entries@;
        self.entries.push(Entry { number, session });
        self.next_id = number + 1;
        proof {
            assert(self.sessions().drop_last() =~= old(self).sessions());
            assert(self.sessions().last() == self.entries[before.len() as int].session);
        }
        Some(name)
    }

    /// The recogniser of the session with the given id, to look at.
    pub fn recognizer(&self, session_id: &str) -> (found: Result<&R, TranscribeError>)
        requires
            self.wf(),
        ensures
            !self.contains(session_id@) ==> fails_with(
                found,
                ErrorKind::SessionNotFound,
                session_id@,
            ),
            self.contains(session_id@) ==> (found matches Ok(recognizer) && forall|k: int|
                0 <= k < self.sessions().len() && (#[trigger] self.sessions()[k]).id()
                    == session_id@ ==> *recognizer == self.sessions()[k].recognizer()),
    {
        match self.find(session_id) {
            Some(i) => {
                proof {
                    assert forall|k: int|
                        0 <= k < self.entries.len() && k != i implies self.entries[k].session.id@
                        != session_id@ by {
                        lemma_session_names_differ(
                            self.entries[k].number as nat,
                            self.entries[i as int].number as nat,
                        );
                    }
                    assert(self.sessions()[i as int] == self.entries[i as int].session);
                    assert forall|k: int|
                        0 <= k < self.sessions().len() && (#[trigger] self.sessions()[k]).id()
                            == session_id@ implies k == i by {
                        assert(self.sessions()[k] == self.entries[k].session);
                    }
                }
                Ok(&self.entries[i].session.recognizer)
            },
            None => Err(not_found(session_id)),
        }
    }

    /// The recogniser of the session with the given id, to feed it a frame.
    pub fn recognizer_mut(&mut self, session_id: &str) -> (found: Result<&mut R, TranscribeError>)
        requires
            old(self).wf(),
        ensures
            final(self).wf(),
            final(self).next_number() == old(self).next_number(),
            final(self).sessions().len() == old(self).sessions().len(),
            !old(self).contains(session_id@) ==> fails_with(
                found,
                ErrorKind::SessionNotFound,
                session_id@,
            ) && final(self).sessions() == old(self).sessions(),
            old(self).contains(session_id@) ==> (found matches Ok(recognizer) && forall|k: int|
                0 <= k < old(self).sessions().len() ==> if old(self).sessions()[k].id()
                    == session_id@ {
                    &&& *recognizer == old(self).sessions()[k].recognizer()
                    &&& (#[trigger] final(self).sessions()[k]).recognizer() == *final(recognizer)
                    &&& final(self).sessions()[k].same_but_recognizer(&old(self).sessions()[k])
                } else {
                    final(self).sessions()[k] == old(self).sessions()[k]
                }),
    {
        match self.find(session_id) {
            Some(i) => {
                proof {
                    assert forall|k: int|
                        0 <= k < self.entries.len() && k != i implies self.entries[k].session.id@
                        != session_id@ by {
                        lemma_session_names_differ(
                            self.entries[k].number as nat,
                            self.entries[i as int].number as nat,
                        );
                    }
                    assert(self.sessions()[i as int] == self.entries[i as int].session);
                }
                Ok(&mut self.entries[i].session.recognizer)
            },
            None => Err(not_found(session_id)),
        }
    }

    /// The result of one frame of the session with the given id, from what
    /// its recogniser reported of the frame.
    pub fn process_chunk(&mut self, session_id: &str, frame: FrameOutcome) -> (result: Result<
        VoskTranscriptionResult,
        TranscribeError,
    >)
        requires
            old(self).wf(),
        ensures
            final(self).wf(),
            final(self).sessions() == old(self).sessions(),
            final(self).next_number() == old(self).next_number(),
            old(self).contains(session_id@) ==> is_result_of(result, frame),
            !old(self).contains(session_id@) ==> fails_with(
                result,
                ErrorKind::SessionNotFound,
                session_id@,
            ),
    {
        match self.find(session_id) {
            Some(i) => {
                assert(self.sessions()[i as int] == self.entries[i as int].session);
                Ok(classify_frame(frame))
            },
            None => Err(not_found(session_id)),
        }
    }

    /// Takes the session with the given id out of the table and hands it
    /// over, still active, so that its recogniser can be asked for its last
    /// text and the session be finalized. From then on the table has no
    /// session with this id.
    pub fn end_session(&mut self, session_id: &str) -> (result: Result<
        VoskLiveSession<R>,
        TranscribeError,
    >)
        requires
            old(self).wf(),
        ensures
            final(self).wf(),
            final(self).next_number() == old(self).next_number(),
            !final(self).contains(session_id@),
            !old(self).contains(session_id@) ==> fails_with(
                result,
                ErrorKind::SessionNotFound,
                session_id@,
            ) && final(self).sessions() == old(self).sessions(),
            old(self).contains(session_id@) ==> (result matches Ok(session) && {
                &&& session.id() == session_id@
                &&& session.state() == SessionState::Active
                &&& exists|i: int|
                    0 <= i < old(self).sessions().len() && old(self).sessions()[i] == session
                        && final(self).sessions() == old(self).sessions().remove(i)
            }),
    {
        match self.find(session_id) {
            Some(i) => {
                proof {
                    assert forall|k: int|
                        0 <= k < self.entries.len() && k != i implies self.entries[k].session.id@
                        != session_id@ by {
                        lemma_session_names_differ(
                            self.entries[k].number as nat,
                            self.entries[i as int].number as nat,
                        );
                    }
                    assert(self.sessions()[i as int] == self.entries[i as int].session);
                }
                let entry = self.entries.remove(i);
                proof {
                    assert(self.sessions() =~= old(self).sessions().remove(i as int));
                    assert forall|k: int| 0 <= k < self.sessions().len() implies (
                    #[trigger] self.sessions()[k]).id() != session_id@ by {
                        if k < i {
                            assert(self.sessions()[k] == old(self).entries[k].session);
                        } else {
                            assert(self.sessions()[k] == old(self).entries[k + 1].session);
                        }
                    }
                }
                Ok(entry.session)
            },
            None => Err(not_found(session_id)),
        }
    }

    /// The number of sessions in the table.
    pub fn active_sessions(&self) -> (n: usize)
        ensures
            n == self.sessions().len(),
    {
        self.entries.len()
    }

    /// Whether the table has a session with the given id.
    pub fn has_session(&self, session_id: &str) -> (found: bool)
        ensures
            found == self.contains(session_id@),
    {
        match self.find(session_id) {
            Some(i) => {
                assert(self.sessions()[i as int] == self.entries[i as int].session);
                true
            },
            None => false,
        }
    }
}

} // verus!
