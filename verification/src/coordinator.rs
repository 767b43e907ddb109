//! The per-URL coordinator, as a state machine.
//!
//! Probing the server, opening files and streaming parts are the caller's
//! part. The caller reports what happened as an event; the coordinator moves
//! to its next state and says what to do next.

use crate::journal::ProgressFile;
use vstd::prelude::*;

verus! {

/// Where a download stands.
#[derive(Clone, Copy, Debug, PartialEq, Eq, Structural)]
pub enum State {
    Init,
    Probed,
    Prepared,
    Streaming,
    Finalizing,
    Done,
    Failed,
}

/// What the caller reports.
#[derive(Clone, Copy, Debug, PartialEq, Eq, Structural)]
pub enum Event {
    /// The metadata probe came back, with the size if the server gave one.
    ProbeOk { size: Option<usize> },
    /// The metadata probe failed for good.
    ProbeFailed,
    /// The destination is open and the journal is loaded or created.
    PrepareOk,
    /// The destination could not be prepared.
    PrepareFailed,
    /// The ranges are planned; `parts` of them still have to be fetched.
    Planned { parts: usize },
    /// One worker is over.
    PartOver { ok: bool },
    /// The destination is flushed and the journal saved for the last time.
    Finalized,
    /// The user asked to stop.
    Cancelled,
}

/// What the caller is to do next.
#[derive(Clone, Copy, Debug, PartialEq, Eq, Structural)]
pub enum Action {
    /// Open the destination, allocate `preallocate` bytes if the size is
    /// known, and load or create the journal.
    Prepare { preallocate: Option<usize> },
    /// Plan the ranges and report how many are left to fetch.
    Plan,
    /// Stream the whole body front to back: the size is unknown.
    FetchWhole,
    /// Start the workers for the ranges that are left.
    FetchParts,
    /// Keep waiting for workers.
    Wait,
    /// Stop the workers that still run and flush the destination; save the
    /// journal if `save_journal`. A download of unknown size has no journal.
    Finalize { save_journal: bool },
    /// Report success; delete the journal if `delete_journal`.
    ReportSuccess { delete_journal: bool },
    /// Report failure; the journal stays for the next run.
    ReportError,
    /// The event does not fit the state: nothing to do.
    Nothing,
}

/// What a coordinator holds.
pub struct CoordinatorView {
    pub state: State,
    pub size: Option<usize>,
    pub outstanding: int,
    pub failed: int,
    pub cancelled: bool,
}

/// The state that follows `c` on `e`.
pub open spec fn next_view(c: CoordinatorView, e: Event) -> CoordinatorView {
    match (c.state, e) {
        (State::Init, Event::ProbeOk { size }) => CoordinatorView {
            state: State::Probed,
            size: size,
            ..c
        },
        (State::Init, Event::ProbeFailed) => CoordinatorView { state: State::Failed, ..c },
        (State::Probed, Event::PrepareOk) => match c.size {
            Some(_) => CoordinatorView { state: State::Prepared, ..c },
            None => CoordinatorView { state: State::Streaming, outstanding: 1, ..c },
        },
        (State::Probed, Event::PrepareFailed) => CoordinatorView { state: State::Failed, ..c },
        (State::Prepared, Event::Planned { parts }) => if parts == 0 {
            CoordinatorView { state: State::Finalizing, ..c }
        } else {
            CoordinatorView { state: State::Streaming, outstanding: parts as int, ..c }
        },
        (State::Streaming, Event::PartOver { ok }) => CoordinatorView {
            state: if c.outstanding == 1 {
                State::Finalizing
            } else {
                State::Streaming
            },
            outstanding: c.outstanding - 1,
            failed: if ok {
                c.failed
            } else {
                c.failed + 1
            },
            ..c
        },
        (State::Finalizing, Event::Finalized) => CoordinatorView {
            state: if c.failed == 0 && !c.cancelled {
                State::Done
            } else {
                State::Failed
            },
            ..c
        },
        (State::Done, Event::Cancelled) => c,
        (State::Failed, Event::Cancelled) => c,
        (State::Finalizing, Event::Cancelled) => CoordinatorView { cancelled: true, ..c },
        (_, Event::Cancelled) => CoordinatorView {
            state: State::Finalizing,
            cancelled: true,
            ..c
        },
        _ => c,
    }
}

/// What is to be done when `c` meets `e`.
pub open spec fn action_of(c: CoordinatorView, e: Event) -> Action {
    match (c.state, e) {
        (State::Init, Event::ProbeOk { size }) => Action::Prepare { preallocate: size },
        (State::Init, Event::ProbeFailed) => Action::ReportError,
        (State::Probed, Event::PrepareOk) => match c.size {
            Some(_) => Action::Plan,
            None => Action::FetchWhole,
        },
        (State::Probed, Event::PrepareFailed) => Action::ReportError,
        (State::Prepared, Event::Planned { parts }) => if parts == 0 {
            Action::Finalize { save_journal: c.size is Some }
        } else {
            Action::FetchParts
        },
        (State::Streaming, Event::PartOver { ok }) => if c.outstanding == 1 {
            Action::Finalize { save_journal: c.size is Some }
        } else {
            Action::Wait
        },
        (State::Finalizing, Event::Finalized) => if c.failed == 0 && !c.cancelled {
            Action::ReportSuccess { delete_journal: c.size is Some }
        } else {
            Action::ReportError
        },
        (State::Done, Event::Cancelled) => Action::Nothing,
        (State::Failed, Event::Cancelled) => Action::Nothing,
        (State::Finalizing, Event::Cancelled) => Action::Nothing,
        (_, Event::Cancelled) => Action::Finalize { save_journal: c.size is Some },
        _ => Action::Nothing,
    }
}

/// The orchestration state of one download.
#[derive(Clone, Copy, Debug)]
pub struct Coordinator {
    state: State,
    size: Option<usize>,
    outstanding: usize,
    failed: usize,
    cancelled: bool,
}

impl View for Coordinator {
    type V = CoordinatorView;

    closed spec fn view(&self) -> CoordinatorView {
        CoordinatorView {
            state: self.state,
            size: self.size,
            outstanding: self.outstanding as int,
            failed: self.failed as int,
            cancelled: self.cancelled,
        }
    }
}

/// The invariant of a coordinator: workers are outstanding only while
/// streaming, the size is known once the probe is over, and a download is
/// done only if no part failed and nobody cancelled it.
pub open spec fn consistent(c: CoordinatorView) -> bool {
    &&& 0 <= c.outstanding <= usize::MAX
    &&& 0 <= c.failed
    &&& c.failed + c.outstanding <= usize::MAX
    &&& c.state == State::Streaming ==> c.outstanding >= 1
    &&& (c.state == State::Finalizing || c.state == State::Done) ==> (c.outstanding == 0
        || c.cancelled)
    &&& c.state == State::Done ==> c.failed == 0 && !c.cancelled
    &&& (c.state == State::Init || c.state == State::Probed || c.state == State::Prepared) ==> (
    c.outstanding == 0 && c.failed == 0)
    &&& c.state == State::Prepared ==> c.size is Some
}

/// Every step keeps a coordinator consistent.
pub proof fn lemma_step_consistent(c: CoordinatorView, e: Event)
    requires
        consistent(c),
    ensures
        consistent(next_view(c, e)),
{
}

/// A download ends well only if every range that had to be fetched was
/// fetched: no step leads to `Done` once a part has failed or the download
/// was cancelled.
pub proof fn lemma_done_means_complete(c: CoordinatorView, e: Event)
    requires
        consistent(c),
        next_view(c, e).state == State::Done,
    ensures
        next_view(c, e).failed == 0,
        !next_view(c, e).cancelled,
        c.state == State::Done || action_of(c, e) == (Action::ReportSuccess {
            delete_journal: c.size is Some,
        }),
{
}

impl Coordinator {
    /// The coordinator's invariant.
    pub open spec fn wf(&self) -> bool {
        consistent(self@)
    }

    /// A coordinator that has not probed yet.
    pub fn new() -> (c: Coordinator)
        ensures
            c.wf(),
            c@.state == State::Init,
            c@.size is None,
            c@.outstanding == 0,
            c@.failed == 0,
            !c@.cancelled,
    {
        Coordinator { state: State::Init, size: None, outstanding: 0, failed: 0, cancelled: false }
    }

    /// Where the download stands.
    pub fn state(&self) -> (s: State)
        ensures
            s == self@.state,
    {
        self.state
    }

    /// The size of the download, once the probe has given one.
    pub fn size(&self) -> (s: Option<usize>)
        ensures
            s == self@.size,
    {
        self.size
    }

    /// Workers that are not over yet.
    pub fn outstanding(&self) -> (n: usize)
        ensures
            n == self@.outstanding,
    {
        self.outstanding
    }

    /// Workers that failed.
    pub fn failed(&self) -> (n: usize)
        ensures
            n == self@.failed,
    {
        self.failed
    }

    /// Takes an event, moves to the next state and says what to do.
    pub fn step(&mut self, event: Event) -> (action: Action)
        requires
            old(self).wf(),
        ensures
            final(self).wf(),
            final(self)@ == next_view(old(self)@, event),
            action == action_of(old(self)@, event),
    {
        let ghost before = self@;
        proof {
            lemma_step_consistent(before, event);
        }
        match event {
            Event::ProbeOk { size } => match self.state {
                State::Init => {
                    self.state = State::Probed;
                    self.size = size;
                    Action::Prepare { preallocate: size }
                },
                _ => Action::Nothing,
            },
            Event::ProbeFailed => match self.state {
                State::Init => {
                    self.state = State::Failed;
                    Action::ReportError
                },
                _ => Action::Nothing,
            },
            Event::PrepareOk => match self.state {
                State::Probed => match self.size {
                    Some(_) => {
                        self.state = State::Prepared;
                        Action::Plan
                    },
                    None => {
                        self.state = State::Streaming;
                        self.outstanding = 1;
                        Action::FetchWhole
                    },
                },
                _ => Action::Nothing,
            },
            Event::PrepareFailed => match self.state {
                State::Probed => {
                    self.state = State::Failed;
                    Action::ReportError
                },
                _ => Action::Nothing,
            },
            Event::Planned { parts } => match self.state {
                State::Prepared => if parts == 0 {
                    self.state = State::Finalizing;
                    Action::Finalize { save_journal: self.size.is_some() }
                } else {
                    self.state = State::Streaming;
                    self.outstanding = parts;
                    Action::FetchParts
                },
                _ => Action::Nothing,
            },
            Event::PartOver { ok } => match self.state {
                State::Streaming => {
                    let last = self.outstanding == 1;
                    self.outstanding = self.outstanding - 1;
                    if !ok {
                        self.failed = self.failed + 1;
                    }
                    if last {
                        self.state = State::Finalizing;
                        Action::Finalize { save_journal: self.size.is_some() }
                    } else {
                        Action::Wait
                    }
                },
                _ => Action::Nothing,
            },
            Event::Finalized => match self.state {
                State::Finalizing => if self.failed == 0 && !self.cancelled {
                    self.state = State::Done;
                    Action::ReportSuccess { delete_journal: self.size.is_some() }
                } else {
                    self.state = State::Failed;
                    Action::ReportError
                },
                _ => Action::Nothing,
            },
            Event::Cancelled => match self.state {
                State::Done => Action::Nothing,
                State::Failed => Action::Nothing,
                State::Finalizing => {
                    self.cancelled = true;
                    Action::Nothing
                },
                _ => {
                    self.state = State::Finalizing;
                    self.cancelled = true;
                    Action::Finalize { save_journal: self.size.is_some() }
                },
            },
        }
    }
}

/// The ranges to request for a download that resumes from `journal`: the
/// ranges of `plan` that the journal does not hold as completed, and no
/// others.
pub fn requests_for(journal: &ProgressFile, plan: &Vec<[usize; 2]>) -> (todo: Vec<[usize; 2]>)
    ensures
        todo@ == plan@.filter(|r: [usize; 2]| !journal.completed(r[0] as int, r[1] as int)),
        forall|i: int|
            0 <= i < todo@.len() ==> plan@.contains(#[trigger] todo@[i]) && !journal.completed(
                todo@[i][0] as int,
                todo@[i][1] as int,
            ),
{
    let todo = journal.remaining(plan);
    proof {
        let keep = |r: [usize; 2]| !journal.completed(r[0] as int, r[1] as int);
        assert forall|i: int| 0 <= i < todo@.len() implies plan@.contains(#[trigger] todo@[i])
            && !journal.completed(todo@[i][0] as int, todo@[i][1] as int) by {
            plan@.lemma_filter_pred(keep, i);
            assert(plan@.filter(keep).contains(todo@[i]));
            plan@.lemma_filter_contains_rev(keep, todo@[i]);
        }
    }
    todo
}

/// Whether a download resumes from a stored journal: the journal has to be
/// there, for a download of the size that the server now reports, and the
/// destination has to exist.
pub fn resumes(stored_total: Option<usize>, size: Option<usize>, destination_exists: bool) -> (b:
    bool)
    ensures
        b == (destination_exists && stored_total is Some && stored_total == size),
{
    match (stored_total, size) {
        (Some(stored), Some(now)) => destination_exists && stored == now,
        _ => false,
    }
}

} // verus!
