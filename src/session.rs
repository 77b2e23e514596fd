//! The tracing child's control flow as a state machine: the caller performs
//! each action (a system call, a wait, a write) and hands back what happened.
use vstd::prelude::*;

use crate::pipeline::EventPipeline;
use crate::text::{document, serialize_entries};

verus! {

/// Where the child stands.
#[derive(Debug, Clone, Copy, PartialEq, Eq, Structural)]
pub enum Stage {
    /// The watch channel is being opened.
    Starting,
    /// The mount is being marked on the open channel.
    Marking,
    /// The termination channel is being registered.
    Bridging,
    /// Blocked in the wait over the watch and termination channels.
    Watching,
    /// Pending records are being drained from the watch channel.
    Draining,
    /// Done: the child exits.
    Finished,
}

/// What one wait over the two channels reported.
#[derive(Debug, Clone, Copy, PartialEq, Eq)]
pub enum PollOutcome {
    /// Some channel is ready: which ones are readable.
    Ready { watch: bool, termination: bool },
    /// The wait returned without any channel ready.
    Nothing,
    /// The wait was interrupted and may be retried.
    Interrupted,
    /// The wait failed (the OS error code).
    Failed(i32),
}

/// What happened after the last action.
#[derive(Debug, Clone, Copy, PartialEq, Eq)]
pub enum SessionEvent {
    /// The watch channel was opened (its descriptor) or not (the OS error code).
    Initialized(Result<i32, i32>),
    /// The mount was marked, or not.
    Marked(Result<(), i32>),
    /// The termination channel was registered, or not.
    TerminationRegistered(Result<(), i32>),
    /// A wait returned.
    Polled(PollOutcome),
    /// All pending records were drained and processed.
    Drained,
}

/// Why the child stops without emitting a document.
#[derive(Debug, Clone, Copy, PartialEq, Eq)]
pub enum Failure {
    /// The watch channel could not be opened (the OS error code).
    Init(i32),
    /// The mount could not be marked (the OS error code).
    Mark(i32),
    /// The termination channel could not be registered (the OS error code).
    Termination(i32),
    /// The wait failed for another reason than an interruption.
    Wait(i32),
    /// The wait returned with no channel ready.
    NothingReady,
    /// An event arrived that the current stage does not expect.
    OutOfOrder,
}

/// What the caller is to do next.
#[derive(Debug, Clone, PartialEq, Eq)]
pub enum Action {
    /// Mark the mount that holds `path` on the watch channel `fd`.
    Mark { fd: i32, path: String },
    /// Register the termination channel.
    RegisterTermination,
    /// Wait, with no timeout, until the watch channel `fd` or the termination
    /// channel is readable.
    Wait { fd: i32 },
    /// Read and process the pending records of the watch channel `fd`.
    Drain { fd: i32 },
    /// Write this document to standard output, flush it, and exit.
    Emit(String),
    /// Exit without emitting anything.
    Exit(Failure),
}

/// The stage after `e` arrives in stage `st`. A termination notification
/// ends the wait loop at once, even with records pending, so that nothing is
/// drained once termination was seen; any failure or unexpected event ends
/// the session.
pub open spec fn next_stage(st: Stage, e: SessionEvent) -> Stage {
    match (st, e) {
        (Stage::Starting, SessionEvent::Initialized(Ok(_))) => Stage::Marking,
        (Stage::Marking, SessionEvent::Marked(Ok(_))) => Stage::Bridging,
        (Stage::Bridging, SessionEvent::TerminationRegistered(Ok(_))) => Stage::Watching,
        (Stage::Watching, SessionEvent::Polled(PollOutcome::Ready { watch, termination })) => {
            if termination {
                Stage::Finished
            } else if watch {
                Stage::Draining
            } else {
                Stage::Watching
            }
        },
        (Stage::Watching, SessionEvent::Polled(PollOutcome::Interrupted)) => Stage::Watching,
        (Stage::Draining, SessionEvent::Drained) => Stage::Watching,
        _ => Stage::Finished,
    }
}

/// Whether `e` arriving in stage `st` emits the document: only a termination
/// notification seen by the wait does.
pub open spec fn emits(st: Stage, e: SessionEvent) -> bool {
    st == Stage::Watching && e matches SessionEvent::Polled(
        PollOutcome::Ready { termination: true, .. },
    )
}

/// Whether `e` arriving in stage `st` opens the watch channel, which is
/// then to be marked.
pub open spec fn marks(st: Stage, e: SessionEvent) -> bool {
    st == Stage::Starting && e matches SessionEvent::Initialized(Ok(_))
}

/// The action that `e` arriving in stage `st` calls for, when it neither
/// emits nor marks: `fd` is the watch channel.
pub open spec fn spec_action(st: Stage, e: SessionEvent, fd: i32) -> Action {
    match (st, e) {
        (Stage::Starting, SessionEvent::Initialized(Err(c))) => Action::Exit(Failure::Init(c)),
        (Stage::Marking, SessionEvent::Marked(Ok(_))) => Action::RegisterTermination,
        (Stage::Marking, SessionEvent::Marked(Err(c))) => Action::Exit(Failure::Mark(c)),
        (Stage::Bridging, SessionEvent::TerminationRegistered(Ok(_))) => Action::Wait { fd },
        (Stage::Bridging, SessionEvent::TerminationRegistered(Err(c))) => Action::Exit(
            Failure::Termination(c),
        ),
        (Stage::Watching, SessionEvent::Polled(PollOutcome::Ready { watch, .. })) => {
            if watch {
                Action::Drain { fd }
            } else {
                Action::Wait { fd }
            }
        },
        (Stage::Watching, SessionEvent::Polled(PollOutcome::Interrupted)) => Action::Wait { fd },
        (Stage::Watching, SessionEvent::Polled(PollOutcome::Nothing)) => Action::Exit(
            Failure::NothingReady,
        ),
        (Stage::Watching, SessionEvent::Polled(PollOutcome::Failed(c))) => Action::Exit(
            Failure::Wait(c),
        ),
        (Stage::Draining, SessionEvent::Drained) => Action::Wait { fd },
        _ => Action::Exit(Failure::OutOfOrder),
    }
}

/// The number of documents emitted when the events `es` arrive in turn,
/// starting in stage `st`.
pub open spec fn emissions(st: Stage, es: Seq<SessionEvent>) -> nat
    decreases es.len(),
{
    if es.len() == 0 {
        0
    } else {
        (if emits(st, es[0]) {
            1nat
        } else {
            0nat
        }) + emissions(next_stage(st, es[0]), es.drop_first())
    }
}

/// The tracing child: the stage it is in, its watch channel, the path whose
/// mount it watches, and whether it has emitted its document.
pub struct Session {
    stage: Stage,
    fd: i32,
    target: String,
    emitted: bool,
}

/// The mount watched when no path is given.
pub open spec fn default_target() -> Seq<char> {
    "/"@
}

impl Session {
    pub closed spec fn stage(&self) -> Stage {
        self.stage
    }

    pub closed spec fn watch_fd(&self) -> i32 {
        self.fd
    }

    pub closed spec fn target_path(&self) -> Seq<char> {
        self.target@
    }

    pub closed spec fn has_emitted(&self) -> bool {
        self.emitted
    }

    /// Once the document is emitted the session is over.
    pub open spec fn wf(&self) -> bool {
        self.has_emitted() ==> self.stage() == Stage::Finished
    }

    /// A session that will watch the mount holding `target`, or `/`.
    pub fn new(target: Option<String>) -> (r: Session)
        ensures
            r.wf(),
            r.stage() == Stage::Starting,
            !r.has_emitted(),
            r.target_path() == match target {
                Some(t) => t@,
                None => default_target(),
            },
    {
        let target = match target {
            Some(t) => t,
            None => String::from_str("/"),
        };
        Session { stage: Stage::Starting, fd: -1, target, emitted: false }
    }

    pub fn stage_now(&self) -> (r: Stage)
        ensures
            r == self.stage(),
    {
        self.stage
    }

    /// The path whose mount is watched.
    pub fn target(&self) -> (r: &String)
        ensures
            r@ == self.target_path(),
    {
        &self.target
    }

    /// Handles the outcome of opening the watch channel: on success the
    /// channel is kept and the target's mount is to be marked on it; on
    /// failure the child exits. Outside the starting stage the outcome is out
    /// of order and the child exits too.
    pub fn start_fanotify(&mut self, init: Result<i32, i32>) -> (r: Action)
        ensures
            old(self).wf() ==> final(self).wf(),
            final(self).stage() == next_stage(old(self).stage(), SessionEvent::Initialized(init)),
            final(self).target_path() == old(self).target_path(),
            final(self).has_emitted() == old(self).has_emitted(),
            if old(self).stage() != Stage::Starting {
                &&& final(self).watch_fd() == old(self).watch_fd()
                &&& r == Action::Exit(Failure::OutOfOrder)
            } else {
                match init {
                    Ok(fd) => {
                        &&& final(self).watch_fd() == fd
                        &&& r matches Action::Mark { fd: f, path } && f == fd && path@ == old(
                            self,
                        ).target_path()
                    },
                    Err(c) => {
                        &&& final(self).watch_fd() == old(self).watch_fd()
                        &&& r == Action::Exit(Failure::Init(c))
                    },
                }
            },
    {
        if self.stage != Stage::Starting {
            self.stage = Stage::Finished;
            return Action::Exit(Failure::OutOfOrder);
        }
        match init {
            Ok(fd) => {
                self.fd = fd;
                self.stage = Stage::Marking;
                Action::Mark { fd, path: self.target.clone() }
            },
            Err(c) => {
                self.stage = Stage::Finished;
                Action::Exit(Failure::Init(c))
            },
        }
    }

    /// Advances the session by one event. `events` are the entries recorded
    /// so far, which a termination notification emits.
    pub fn step(&mut self, e: SessionEvent, events: &EventPipeline) -> (r: Action)
        ensures
            old(self).wf() ==> final(self).wf(),
            final(self).stage() == next_stage(old(self).stage(), e),
            final(self).target_path() == old(self).target_path(),
            final(self).has_emitted() == (old(self).has_emitted() || emits(old(self).stage(), e)),
            final(self).watch_fd() == if marks(old(self).stage(), e) {
                e->Initialized_0->Ok_0
            } else {
                old(self).watch_fd()
            },
            if emits(old(self).stage(), e) {
                r matches Action::Emit(d) && d@ == document(events@)
            } else if marks(old(self).stage(), e) {
                r matches Action::Mark { fd: f, path } && f == e->Initialized_0->Ok_0 && path@
                    == old(self).target_path()
            } else {
                r == spec_action(old(self).stage(), e, old(self).watch_fd())
            },
    {
        let fd = self.fd;
        match (self.stage, e) {
            (Stage::Starting, SessionEvent::Initialized(init)) => self.start_fanotify(init),
            (Stage::Marking, SessionEvent::Marked(Ok(_))) => {
                self.stage = Stage::Bridging;
                Action::RegisterTermination
            },
            (Stage::Marking, SessionEvent::Marked(Err(c))) => {
                self.stage = Stage::Finished;
                Action::Exit(Failure::Mark(c))
            },
            (Stage::Bridging, SessionEvent::TerminationRegistered(Ok(_))) => {
                self.stage = Stage::Watching;
                Action::Wait { fd }
            },
            (Stage::Bridging, SessionEvent::TerminationRegistered(Err(c))) => {
                self.stage = Stage::Finished;
                Action::Exit(Failure::Termination(c))
            },
            (Stage::Watching, SessionEvent::Polled(PollOutcome::Ready { watch, termination })) => {
                if termination {
                    self.stage = Stage::Finished;
                    self.emitted = true;
                    Action::Emit(serialize_entries(events.entries()))
                } else if watch {
                    self.stage = Stage::Draining;
                    Action::Drain { fd }
                } else {
                    Action::Wait { fd }
                }
            },
            (Stage::Watching, SessionEvent::Polled(PollOutcome::Interrupted)) => Action::Wait { fd },
            (Stage::Watching, SessionEvent::Polled(PollOutcome::Nothing)) => {
                self.stage = Stage::Finished;
                Action::Exit(Failure::NothingReady)
            },
            (Stage::Watching, SessionEvent::Polled(PollOutcome::Failed(c))) => {
                self.stage = Stage::Finished;
                Action::Exit(Failure::Wait(c))
            },
            (Stage::Draining, SessionEvent::Drained) => {
                self.stage = Stage::Watching;
                Action::Wait { fd }
            },
            _ => {
                self.stage = Stage::Finished;
                Action::Exit(Failure::OutOfOrder)
            },
        }
    }
}

/// Once finished, a session emits nothing more, whatever arrives.
pub proof fn lemma_finished_emits_nothing(es: Seq<SessionEvent>)
    ensures
        emissions(Stage::Finished, es) == 0,
    decreases es.len(),
{
    if es.len() > 0 {
        lemma_finished_emits_nothing(es.drop_first());
    }
}

/// Whatever events arrive, and from whatever stage, the document is emitted
/// at most once, and only on a termination notification.
pub proof fn lemma_emits_at_most_once(st: Stage, es: Seq<SessionEvent>)
    ensures
        emissions(st, es) <= 1,
        forall|i: int| 0 <= i < es.len() ==> emits(st, es[i]) ==> (es[i] matches SessionEvent::Polled(
            PollOutcome::Ready { termination: true, .. },
        )),
    decreases es.len(),
{
    if es.len() > 0 {
        if emits(st, es[0]) {
            lemma_finished_emits_nothing(es.drop_first());
        } else {
            lemma_emits_at_most_once(next_stage(st, es[0]), es.drop_first());
        }
    }
}

/// A child whose start fails (the watch channel, the mark or the
/// termination channel) exits at once and emits nothing, whatever follows.
pub proof fn lemma_failed_start_emits_nothing(
    st: Stage,
    e: SessionEvent,
    es: Seq<SessionEvent>,
    fd: i32,
)
    requires
        match (st, e) {
            (Stage::Starting, SessionEvent::Initialized(Err(_))) => true,
            (Stage::Marking, SessionEvent::Marked(Err(_))) => true,
            (Stage::Bridging, SessionEvent::TerminationRegistered(Err(_))) => true,
            _ => false,
        },
    ensures
        next_stage(st, e) == Stage::Finished,
        spec_action(st, e, fd) matches Action::Exit(_),
        emissions(st, seq![e] + es) == 0,
{
    lemma_finished_emits_nothing(es);
    assert((seq![e] + es).drop_first() =~= es);
}

} // verus!
