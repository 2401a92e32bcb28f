//! Handling of one stream entry: marker checks and writes, the child runner
//! with its timeout, and the outcome. The handling is a state machine: each
//! call of `step` takes what happened and names what to do next, and the
//! caller performs that against the broker and the operating system.
use vstd::prelude::*;
use crate::entry_id::{decimal, push_decimal};
use crate::keys::{ascii_bytes, push_ascii, try_string_from_bytes, utf8_lossy};
use crate::value::StreamEntry;

verus! {

/// Poll interval while the child runner is alive, in milliseconds.
pub const RUNNER_POLL_MS: u64 = 100;

/// How handling an entry ended.
#[derive(Clone, Copy, Debug, PartialEq, Eq, Structural)]
pub enum Outcome {
    /// The entry has no job ID; it is skipped for good.
    Malformed,
    /// A completion marker already exists.
    Skipped,
    /// The runner succeeded (or its result was already present).
    Completed,
    /// The processing marker could not be written.
    NotMarked,
    /// The runner failed; the failure is recorded on the job.
    RunnerFailed,
}

/// The answer of the completion check from its two lookups: the entry's
/// completion marker, and (asked only where the marker is absent) membership
/// in the legacy set; `None` for a lookup that failed.
pub fn completion_from(marker: Option<bool>, legacy: Option<bool>) -> (r: Option<bool>)
    ensures
        r == (match marker {
            Some(true) => Some(true),
            Some(false) => legacy,
            None => None,
        }),
{
    match marker {
        Some(true) => Some(true),
        Some(false) => legacy,
        None => None,
    }
}

/// The cursor moves past the entry after this outcome.
pub open spec fn advances(o: Outcome) -> bool {
    o == Outcome::Malformed || o == Outcome::Skipped || o == Outcome::Completed
}

/// Whether the outcome lets the cursor move past the entry.
pub fn outcome_advances(o: Outcome) -> (r: bool)
    ensures
        r == advances(o),
{
    match o {
        Outcome::Malformed | Outcome::Skipped | Outcome::Completed => true,
        _ => false,
    }
}

/// Why the runner failed.
pub enum Failure {
    SpawnFailed,
    ExitStatus(Option<i32>),
    Timeout(u64),
    WaitFailed(Vec<u8>),
    NoResult,
}

/// What the poll of a running child found.
pub enum RunnerStatus {
    Exited { success: bool, code: Option<i32> },
    Running { elapsed_ms: u64 },
    WaitFailed(Vec<u8>),
}

/// What happened since the last step.
pub enum Event {
    /// Handling begins.
    Begin,
    /// The completion check answered; `None` where it failed.
    CompletedChecked(Option<bool>),
    /// The processing marker write succeeded or failed.
    ProcessingMarked(bool),
    /// A best-effort write finished, whatever its result.
    Written,
    /// The job's `result_url` was read; `None` where missing or unreadable.
    ResultUrlRead(Option<String>),
    /// The child runner was or was not started.
    Spawned(bool),
    Polled(RunnerStatus),
    /// A requested sleep is over.
    Woke,
    /// The child was told to terminate.
    Killed,
}

/// What to do next.
#[derive(Clone, Copy, Debug, PartialEq, Eq, Structural)]
pub enum Action {
    /// Ask whether the completion marker, or legacy set membership, exists.
    CheckCompleted,
    /// Write the processing marker `{jid, ts_ms}` with its time to live.
    MarkProcessing,
    /// Best effort: set the job's status to processing and its processing entry.
    SetJobProcessing,
    /// Read the job's `result_url`.
    ReadResultUrl,
    /// Start the child runner for the job, stdin closed.
    SpawnRunner,
    /// See whether the child has exited.
    PollRunner,
    Sleep(u64),
    /// Terminate the child.
    KillRunner,
    /// Write the completion marker and delete the processing marker, best effort.
    MarkCompleted,
    /// Best effort: set the job's status to completed.
    SetJobCompleted,
    /// Best effort: set the job's status to failed and its error to `failure_message`.
    RecordFailure,
    /// Handling is over.
    Finish(Outcome),
}

#[derive(Clone, Copy, Debug, PartialEq, Eq, Structural)]
pub enum Stage {
    Start,
    CheckingCompleted,
    MarkingProcessing,
    AnnouncingProcessing,
    CheckingShortcut,
    Spawning,
    Polling,
    Sleeping,
    Killing,
    CheckingResult,
    MarkingCompleted,
    AnnouncingCompleted,
    RecordingFailure,
    Finished(Outcome),
}

/// The handling of one entry.
pub struct Dispatch {
    pub entry_id: Vec<u8>,
    /// The job ID; `None` where the entry has no non-empty `id` field.
    pub jid: Option<String>,
    pub timeout_s: u64,
    pub stage: Stage,
    pub failure: Option<Failure>,
    /// A completion marker write has been requested.
    pub completion_marked: bool,
    /// The child runner has been started.
    pub spawned: bool,
}

/// The value of the last field whose key is `id`.
pub open spec fn jid_bytes(fields: Seq<(Seq<u8>, Seq<u8>)>) -> Option<Seq<u8>>
    decreases fields.len(),
{
    if fields.len() == 0 {
        None
    } else if fields.last().0 == seq![105u8, 100u8] {
        Some(fields.last().1)
    } else {
        jid_bytes(fields.drop_last())
    }
}

/// The job ID of an entry, decoded: none where the `id` field is missing or empty.
pub open spec fn jid_spec(fields: Seq<(Seq<u8>, Seq<u8>)>) -> Option<Seq<char>> {
    match jid_bytes(fields) {
        Some(b) => if b.len() > 0 {
            Some(utf8_lossy(b))
        } else {
            None
        },
        None => None,
    }
}

/// The action that a stage waits to have performed.
pub open spec fn awaited(d: Dispatch) -> Action {
    match d.stage {
        Stage::Start => Action::CheckCompleted,
        Stage::CheckingCompleted => Action::CheckCompleted,
        Stage::MarkingProcessing => Action::MarkProcessing,
        Stage::AnnouncingProcessing => Action::SetJobProcessing,
        Stage::CheckingShortcut => Action::ReadResultUrl,
        Stage::Spawning => Action::SpawnRunner,
        Stage::Polling => Action::PollRunner,
        Stage::Sleeping => Action::Sleep(RUNNER_POLL_MS),
        Stage::Killing => Action::KillRunner,
        Stage::CheckingResult => Action::ReadResultUrl,
        Stage::MarkingCompleted => Action::MarkCompleted,
        Stage::AnnouncingCompleted => Action::SetJobCompleted,
        Stage::RecordingFailure => Action::RecordFailure,
        Stage::Finished(o) => Action::Finish(o),
    }
}

pub open spec fn url_present(u: Option<String>) -> bool {
    match u {
        Some(s) => s@.len() > 0,
        None => false,
    }
}

pub open spec fn at(d: Dispatch, stage: Stage) -> Dispatch {
    Dispatch { stage, ..d }
}

pub open spec fn failing(d: Dispatch, stage: Stage, f: Failure) -> Dispatch {
    Dispatch { stage, failure: Some(f), ..d }
}

/// The next state and action after `ev`. An event that the stage does not
/// wait for changes nothing and asks again for the awaited action.
pub open spec fn next(d: Dispatch, ev: Event) -> (Dispatch, Action) {
    match (d.stage, ev) {
        (Stage::Start, Event::Begin) => if d.jid.is_none() {
            (at(d, Stage::Finished(Outcome::Malformed)), Action::Finish(Outcome::Malformed))
        } else {
            (at(d, Stage::CheckingCompleted), Action::CheckCompleted)
        },
        (Stage::CheckingCompleted, Event::CompletedChecked(c)) => if c == Some(true) {
            (at(d, Stage::Finished(Outcome::Skipped)), Action::Finish(Outcome::Skipped))
        } else {
            (at(d, Stage::MarkingProcessing), Action::MarkProcessing)
        },
        (Stage::MarkingProcessing, Event::ProcessingMarked(ok)) => if ok {
            (at(d, Stage::AnnouncingProcessing), Action::SetJobProcessing)
        } else {
            (at(d, Stage::Finished(Outcome::NotMarked)), Action::Finish(Outcome::NotMarked))
        },
        (Stage::AnnouncingProcessing, Event::Written) => (
            at(d, Stage::CheckingShortcut),
            Action::ReadResultUrl,
        ),
        (Stage::CheckingShortcut, Event::ResultUrlRead(u)) => if url_present(u) {
            (
                Dispatch { stage: Stage::MarkingCompleted, completion_marked: true, ..d },
                Action::MarkCompleted,
            )
        } else {
            (at(d, Stage::Spawning), Action::SpawnRunner)
        },
        (Stage::Spawning, Event::Spawned(ok)) => if ok {
            (Dispatch { stage: Stage::Polling, spawned: true, ..d }, Action::PollRunner)
        } else {
            (failing(d, Stage::RecordingFailure, Failure::SpawnFailed), Action::RecordFailure)
        },
        (Stage::Polling, Event::Polled(st)) => match st {
            RunnerStatus::Exited { success, code } => if success {
                (at(d, Stage::CheckingResult), Action::ReadResultUrl)
            } else {
                (
                    failing(d, Stage::RecordingFailure, Failure::ExitStatus(code)),
                    Action::RecordFailure,
                )
            },
            RunnerStatus::Running { elapsed_ms } => if elapsed_ms >= d.timeout_s * 1000 {
                (failing(d, Stage::Killing, Failure::Timeout(d.timeout_s)), Action::KillRunner)
            } else {
                (at(d, Stage::Sleeping), Action::Sleep(RUNNER_POLL_MS))
            },
            RunnerStatus::WaitFailed(reason) => (
                failing(d, Stage::Killing, Failure::WaitFailed(reason)),
                Action::KillRunner,
            ),
        },
        (Stage::Sleeping, Event::Woke) => (at(d, Stage::Polling), Action::PollRunner),
        (Stage::Killing, Event::Killed) => (at(d, Stage::RecordingFailure), Action::RecordFailure),
        (Stage::CheckingResult, Event::ResultUrlRead(u)) => if url_present(u) {
            (
                Dispatch { stage: Stage::MarkingCompleted, completion_marked: true, ..d },
                Action::MarkCompleted,
            )
        } else {
            (failing(d, Stage::RecordingFailure, Failure::NoResult), Action::RecordFailure)
        },
        (Stage::MarkingCompleted, Event::Written) => (
            at(d, Stage::AnnouncingCompleted),
            Action::SetJobCompleted,
        ),
        (Stage::AnnouncingCompleted, Event::Written) => (
            at(d, Stage::Finished(Outcome::Completed)),
            Action::Finish(Outcome::Completed),
        ),
        (Stage::RecordingFailure, Event::Written) => (
            at(d, Stage::Finished(Outcome::RunnerFailed)),
            Action::Finish(Outcome::RunnerFailed),
        ),
        _ => (d, awaited(d)),
    }
}

fn extract_jid(fields: &Vec<(Vec<u8>, Vec<u8>)>) -> (r: Option<String>)
    ensures
        match r {
            Some(s) => jid_spec(fields@.map_values(|p: (Vec<u8>, Vec<u8>)| (p.0@, p.1@))) == Some(
                s@,
            ),
            None => jid_spec(fields@.map_values(|p: (Vec<u8>, Vec<u8>)| (p.0@, p.1@))).is_none(),
        },
{
    let ghost view = fields@.map_values(|p: (Vec<u8>, Vec<u8>)| (p.0@, p.1@));
    let mut found: Option<usize> = None;
    let mut i: usize = 0;
    while i < fields.len()
        invariant
            i <= fields@.len(),
            view == fields@.map_values(|p: (Vec<u8>, Vec<u8>)| (p.0@, p.1@)),
            match found {
                Some(k) => k < i && jid_bytes(view.subrange(0, i as int)) == Some(fields@[k as int].1@),
                None => jid_bytes(view.subrange(0, i as int)).is_none(),
            },
        decreases fields@.len() - i,
    {
        let key = &fields[i].0;
        let is_id = key.len() == 2 && key[0] == 105 && key[1] == 100;
        proof {
            let pre = view.subrange(0, i as int + 1);
            assert(pre.drop_last() =~= view.subrange(0, i as int));
            assert(pre.last() == view[i as int]);
            if is_id {
                assert(key@ =~= seq![105u8, 100u8]);
            } else {
                assert(key@ != seq![105u8, 100u8] ==> view[i as int].0 != seq![105u8, 100u8]);
                if key@ == seq![105u8, 100u8] {
                    assert(key@[0] == 105 && key@[1] == 100 && key@.len() == 2);
                }
            }
        }
        if is_id {
            found = Some(i);
        }
        i = i + 1;
    }
    assert(view.subrange(0, fields@.len() as int) =~= view);
    match found {
        Some(k) => {
            let v = &fields[k].1;
            if v.len() == 0 {
                None
            } else {
                Some(try_string_from_bytes(v.as_slice()))
            }
        },
        None => None,
    }
}

impl Dispatch {
    /// Starts handling `entry`, with the runner's timeout in seconds.
    pub fn new(entry: StreamEntry, timeout_s: u64) -> (d: Dispatch)
        ensures
            d.entry_id@ == entry.id@,
            match d.jid {
                Some(s) => jid_spec(entry@.fields) == Some(s@),
                None => jid_spec(entry@.fields).is_none(),
            },
            d.timeout_s == timeout_s,
            d.stage == Stage::Start,
            d.failure.is_none(),
            !d.completion_marked,
            !d.spawned,
    {
        let jid = extract_jid(&entry.fields);
        Dispatch {
            entry_id: entry.id,
            jid,
            timeout_s,
            stage: Stage::Start,
            failure: None,
            completion_marked: false,
            spawned: false,
        }
    }

    /// Takes `ev` and returns what to do next.
    pub fn step(&mut self, ev: Event) -> (a: Action)
        ensures
            (*final(self), a) == next(*old(self), ev),
    {
        let stage = self.stage;
        match (stage, ev) {
            (Stage::Start, Event::Begin) => {
                if self.jid.is_none() {
                    self.stage = Stage::Finished(Outcome::Malformed);
                    Action::Finish(Outcome::Malformed)
                } else {
                    self.stage = Stage::CheckingCompleted;
                    Action::CheckCompleted
                }
            },
            (Stage::CheckingCompleted, Event::CompletedChecked(c)) => {
                if c == Some(true) {
                    self.stage = Stage::Finished(Outcome::Skipped);
                    Action::Finish(Outcome::Skipped)
                } else {
                    self.stage = Stage::MarkingProcessing;
                    Action::MarkProcessing
                }
            },
            (Stage::MarkingProcessing, Event::ProcessingMarked(ok)) => {
                if ok {
                    self.stage = Stage::AnnouncingProcessing;
                    Action::SetJobProcessing
                } else {
                    self.stage = Stage::Finished(Outcome::NotMarked);
                    Action::Finish(Outcome::NotMarked)
                }
            },
            (Stage::AnnouncingProcessing, Event::Written) => {
                self.stage = Stage::CheckingShortcut;
                Action::ReadResultUrl
            },
            (Stage::CheckingShortcut, Event::ResultUrlRead(u)) => {
                if present(&u) {
                    self.stage = Stage::MarkingCompleted;
                    self.completion_marked = true;
                    Action::MarkCompleted
                } else {
                    self.stage = Stage::Spawning;
                    Action::SpawnRunner
                }
            },
            (Stage::Spawning, Event::Spawned(ok)) => {
                if ok {
                    self.stage = Stage::Polling;
                    self.spawned = true;
                    Action::PollRunner
                } else {
                    self.stage = Stage::RecordingFailure;
                    self.failure = Some(Failure::SpawnFailed);
                    Action::RecordFailure
                }
            },
            (Stage::Polling, Event::Polled(st)) => match st {
                RunnerStatus::Exited { success, code } => {
                    if success {
                        self.stage = Stage::CheckingResult;
                        Action::ReadResultUrl
                    } else {
                        self.stage = Stage::RecordingFailure;
                        self.failure = Some(Failure::ExitStatus(code));
                        Action::RecordFailure
                    }
                },
                RunnerStatus::Running { elapsed_ms } => {
                    if elapsed_ms / 1000 >= self.timeout_s {
                        self.stage = Stage::Killing;
                        self.failure = Some(Failure::Timeout(self.timeout_s));
                        Action::KillRunner
                    } else {
                        self.stage = Stage::Sleeping;
                        Action::Sleep(RUNNER_POLL_MS)
                    }
                },
                RunnerStatus::WaitFailed(reason) => {
                    self.stage = Stage::Killing;
                    self.failure = Some(Failure::WaitFailed(reason));
                    Action::KillRunner
                },
            },
            (Stage::Sleeping, Event::Woke) => {
                self.stage = Stage::Polling;
                Action::PollRunner
            },
            (Stage::Killing, Event::Killed) => {
                self.stage = Stage::RecordingFailure;
                Action::RecordFailure
            },
            (Stage::CheckingResult, Event::ResultUrlRead(u)) => {
                if present(&u) {
                    self.stage = Stage::MarkingCompleted;
                    self.completion_marked = true;
                    Action::MarkCompleted
                } else {
                    self.stage = Stage::RecordingFailure;
                    self.failure = Some(Failure::NoResult);
                    Action::RecordFailure
                }
            },
            (Stage::MarkingCompleted, Event::Written) => {
                self.stage = Stage::AnnouncingCompleted;
                Action::SetJobCompleted
            },
            (Stage::AnnouncingCompleted, Event::Written) => {
                self.stage = Stage::Finished(Outcome::Completed);
                Action::Finish(Outcome::Completed)
            },
            (Stage::RecordingFailure, Event::Written) => {
                self.stage = Stage::Finished(Outcome::RunnerFailed);
                Action::Finish(Outcome::RunnerFailed)
            },
            _ => self.awaited_action(),
        }
    }

    fn awaited_action(&self) -> (a: Action)
        ensures
            a == awaited(*self),
    {
        match self.stage {
            Stage::Start => Action::CheckCompleted,
            Stage::CheckingCompleted => Action::CheckCompleted,
            Stage::MarkingProcessing => Action::MarkProcessing,
            Stage::AnnouncingProcessing => Action::SetJobProcessing,
            Stage::CheckingShortcut => Action::ReadResultUrl,
            Stage::Spawning => Action::SpawnRunner,
            Stage::Polling => Action::PollRunner,
            Stage::Sleeping => Action::Sleep(RUNNER_POLL_MS),
            Stage::Killing => Action::KillRunner,
            Stage::CheckingResult => Action::ReadResultUrl,
            Stage::MarkingCompleted => Action::MarkCompleted,
            Stage::AnnouncingCompleted => Action::SetJobCompleted,
            Stage::RecordingFailure => Action::RecordFailure,
            Stage::Finished(o) => Action::Finish(o),
        }
    }
}

fn present(u: &Option<String>) -> (r: bool)
    ensures
        r == url_present(*u),
{
    match u {
        Some(s) => s.unicode_len() > 0,
        None => false,
    }
}

/// Text of a signed integer.
pub open spec fn int_text(v: i32) -> Seq<u8> {
    if v < 0 {
        seq![45u8] + decimal((-v) as nat)
    } else {
        decimal(v as nat)
    }
}

/// Debug text of an exit code: `Some(<code>)` or `None`.
pub open spec fn code_text(c: Option<i32>) -> Seq<u8> {
    match c {
        Some(v) => ascii_bytes("Some("@) + int_text(v) + ascii_bytes(")"@),
        None => ascii_bytes("None"@),
    }
}

/// The error recorded on the job for a failure.
pub open spec fn failure_text(f: Failure) -> Seq<u8> {
    match f {
        Failure::SpawnFailed => ascii_bytes("failed to spawn python runner"@),
        Failure::ExitStatus(c) => ascii_bytes("python runner failed with status "@) + code_text(c),
        Failure::Timeout(t) => ascii_bytes("python runner timeout after "@) + decimal(t as nat)
            + ascii_bytes("s"@),
        Failure::WaitFailed(reason) => ascii_bytes("python runner wait error: "@) + reason@,
        Failure::NoResult => ascii_bytes("runner produced no result"@),
    }
}

fn push_int(out: &mut Vec<u8>, v: i32)
    ensures
        final(out)@ == old(out)@ + int_text(v),
{
    if v < 0 {
        out.push(45);
        let m: u64 = (-(v as i64)) as u64;
        push_decimal(out, m);
        assert(final(out)@ =~= old(out)@ + int_text(v));
    } else {
        push_decimal(out, v as u64);
    }
}

/// The error text recorded on the job for `f`.
pub fn failure_message(f: &Failure) -> (r: Vec<u8>)
    ensures
        r@ == failure_text(*f),
{
    let mut r: Vec<u8> = Vec::new();
    match f {
        Failure::SpawnFailed => {
            proof {
                reveal_strlit("failed to spawn python runner");
            }
            push_ascii(&mut r, "failed to spawn python runner");
        },
        Failure::ExitStatus(c) => {
            proof {
                reveal_strlit("python runner failed with status ");
                reveal_strlit("Some(");
                reveal_strlit(")");
                reveal_strlit("None");
            }
            push_ascii(&mut r, "python runner failed with status ");
            let ghost r0 = r@;
            match c {
                Some(v) => {
                    push_ascii(&mut r, "Some(");
                    push_int(&mut r, *v);
                    push_ascii(&mut r, ")");
                    assert(r@ =~= r0 + code_text(*c));
                },
                None => {
                    push_ascii(&mut r, "None");
                },
            }
            assert(r@ =~= failure_text(*f));
        },
        Failure::Timeout(t) => {
            proof {
                reveal_strlit("python runner timeout after ");
                reveal_strlit("s");
            }
            push_ascii(&mut r, "python runner timeout after ");
            push_decimal(&mut r, *t);
            push_ascii(&mut r, "s");
        },
        Failure::WaitFailed(reason) => {
            proof {
                reveal_strlit("python runner wait error: ");
            }
            push_ascii(&mut r, "python runner wait error: ");
            crate::keys::push_bytes(&mut r, reason.as_slice());
        },
        Failure::NoResult => {
            proof {
                reveal_strlit("runner produced no result");
            }
            push_ascii(&mut r, "runner produced no result");
        },
    }
    r
}

impl Dispatch {
    /// The error to record on the job: the text of the failure, if any.
    pub fn failure_message(&self) -> (r: Option<Vec<u8>>)
        ensures
            match self.failure {
                Some(f) => r.is_some() && r.unwrap()@ == failure_text(f),
                None => r.is_none(),
            },
    {
        match &self.failure {
            Some(f) => Some(failure_message(f)),
            None => None,
        }
    }

    /// The outcome, once handling is over.
    pub fn outcome(&self) -> (r: Option<Outcome>)
        ensures
            r == (match self.stage {
                Stage::Finished(o) => Some(o),
                _ => None::<Outcome>,
            }),
    {
        match self.stage {
            Stage::Finished(o) => Some(o),
            _ => None,
        }
    }
}

/// What holds of a handling in every state it reaches from `new`: a
/// completion marker was asked for before the stages that follow it, and the
/// runner was started before the stages that watch it and never before the
/// result check that precedes it.
pub open spec fn wf(d: Dispatch) -> bool {
    &&& (d.stage == Stage::MarkingCompleted || d.stage == Stage::AnnouncingCompleted || d.stage
        == Stage::Finished(Outcome::Completed)) ==> d.completion_marked
    &&& (d.stage == Stage::Polling || d.stage == Stage::Sleeping || d.stage == Stage::CheckingResult)
        ==> d.spawned
    &&& (d.stage == Stage::Start || d.stage == Stage::CheckingCompleted || d.stage
        == Stage::MarkingProcessing || d.stage == Stage::AnnouncingProcessing || d.stage
        == Stage::CheckingShortcut || d.stage == Stage::Spawning) ==> !d.spawned
    &&& d.stage == Stage::Finished(Outcome::Malformed) ==> d.jid.is_none()
    &&& d.stage == Stage::Start ==> !d.completion_marked
}

/// A new handling is well formed, and every step keeps it so.
pub proof fn lemma_wf_preserved(d: Dispatch, ev: Event)
    requires
        wf(d),
    ensures
        wf(next(d, ev).0),
{
}

/// The cursor may move past an entry only where its completion marker was
/// found, where a completion marker write was asked for, or where the entry
/// has no job ID.
pub proof fn lemma_advance_only_after_completion(d: Dispatch, ev: Event)
    requires
        wf(d),
        next(d, ev).1 == Action::Finish(Outcome::Skipped) || next(d, ev).1 == Action::Finish(
            Outcome::Completed,
        ) || next(d, ev).1 == Action::Finish(Outcome::Malformed),
    ensures
        next(d, ev).1 == Action::Finish(Outcome::Skipped) ==> (d.stage == Stage::Finished(
            Outcome::Skipped,
        ) || (d.stage == Stage::CheckingCompleted && ev == Event::CompletedChecked(Some(true)))),
        next(d, ev).1 == Action::Finish(Outcome::Completed) ==> d.completion_marked,
        next(d, ev).1 == Action::Finish(Outcome::Malformed) ==> d.jid.is_none(),
{
}

/// The runner is never started where the job's `result_url` was found
/// present: a start is asked for only right after a read found it absent, or
/// again while that start is awaited.
pub proof fn lemma_spawn_only_without_result(d: Dispatch, ev: Event)
    requires
        next(d, ev).1 == Action::SpawnRunner,
    ensures
        d.stage == Stage::Spawning || (d.stage == Stage::CheckingShortcut && (match ev {
            Event::ResultUrlRead(u) => !url_present(u),
            _ => false,
        })),
{
}

/// A present `result_url` at the start of the work completes the entry
/// without starting the runner.
pub proof fn lemma_present_result_short_circuits(d: Dispatch, url: String)
    requires
        d.stage == Stage::CheckingShortcut,
        url@.len() > 0,
    ensures
        next(d, Event::ResultUrlRead(Some(url))).1 == Action::MarkCompleted,
        !next(d, Event::ResultUrlRead(Some(url))).0.spawned || d.spawned,
{
}

/// Within one handling the runner is started at most once: once started, no
/// step asks to start it again.
pub proof fn lemma_spawn_at_most_once(d: Dispatch, ev: Event)
    requires
        wf(d),
        d.spawned,
    ensures
        next(d, ev).1 != Action::SpawnRunner,
{
}

/// `ev` reports a successful exit of the runner to a handling that watches it.
pub open spec fn successful_exit(d: Dispatch, ev: Event) -> bool {
    d.stage == Stage::Polling && match ev {
        Event::Polled(RunnerStatus::Exited { success, code }) => success,
        _ => false,
    }
}

/// A read of the job's `result_url` reports what the job record holds
/// (`url_set`: a non-empty `result_url`).
pub open spec fn honest(d: Dispatch, ev: Event, url_set: bool) -> bool {
    (d.stage == Stage::CheckingShortcut || d.stage == Stage::CheckingResult) ==> match ev {
        Event::ResultUrlRead(u) => url_present(u) == url_set,
        _ => true,
    }
}

/// The job record after `ev`: a runner that exits successfully has written
/// its `result_url`, and nothing removes it.
pub open spec fn url_after(d: Dispatch, ev: Event, url_set: bool) -> bool {
    url_set || successful_exit(d, ev)
}

/// A run of handlings of one entry across crashes: each element delivers an
/// event to the current handling, or (`None`) the worker restarts and a new
/// handling `fresh` begins; every result read is honest.
pub open spec fn honest_run(d: Dispatch, fresh: Dispatch, url_set: bool, steps: Seq<Option<Event>>) -> bool
    decreases steps.len(),
{
    if steps.len() == 0 {
        true
    } else {
        match steps[0] {
            Some(ev) => honest(d, ev, url_set) && honest_run(
                next(d, ev).0,
                fresh,
                url_after(d, ev, url_set),
                steps.drop_first(),
            ),
            None => honest_run(fresh, fresh, url_set, steps.drop_first()),
        }
    }
}

/// The number of successful runner exits in such a run.
pub open spec fn successes(d: Dispatch, fresh: Dispatch, url_set: bool, steps: Seq<Option<Event>>) -> nat
    decreases steps.len(),
{
    if steps.len() == 0 {
        0
    } else {
        match steps[0] {
            Some(ev) => (if successful_exit(d, ev) { 1nat } else { 0nat }) + successes(
                next(d, ev).0,
                fresh,
                url_after(d, ev, url_set),
                steps.drop_first(),
            ),
            None => successes(fresh, fresh, url_set, steps.drop_first()),
        }
    }
}

spec fn may_start_runner(d: Dispatch) -> bool {
    d.stage == Stage::Spawning || d.stage == Stage::Polling || d.stage == Stage::Sleeping
}

proof fn lemma_successes_bounded(d: Dispatch, fresh: Dispatch, url_set: bool, steps: Seq<Option<Event>>)
    requires
        fresh.stage == Stage::Start,
        honest_run(d, fresh, url_set, steps),
        url_set ==> !may_start_runner(d),
    ensures
        successes(d, fresh, url_set, steps) <= (if url_set { 0nat } else { 1nat }),
    decreases steps.len(),
{
    if steps.len() > 0 {
        match steps[0] {
            Some(ev) => {
                lemma_successes_bounded(
                    next(d, ev).0,
                    fresh,
                    url_after(d, ev, url_set),
                    steps.drop_first(),
                );
            },
            None => {
                lemma_successes_bounded(fresh, fresh, url_set, steps.drop_first());
            },
        }
    }
}

/// Across any number of crashes and replays of an entry, the runner exits
/// successfully at most once, provided result reads are honest and a runner
/// that succeeds has written `result_url`; and never where `result_url` was
/// already set.
pub proof fn lemma_runner_succeeds_at_most_once(
    fresh: Dispatch,
    url_set: bool,
    steps: Seq<Option<Event>>,
)
    requires
        fresh.stage == Stage::Start,
        honest_run(fresh, fresh, url_set, steps),
    ensures
        successes(fresh, fresh, url_set, steps) <= 1,
        url_set ==> successes(fresh, fresh, url_set, steps) == 0,
{
    lemma_successes_bounded(fresh, fresh, url_set, steps);
}

/// A completion check reports what the broker holds (`marker`: the entry's
/// completion marker exists).
pub open spec fn honest_check(d: Dispatch, ev: Event, marker: bool) -> bool {
    d.stage == Stage::CheckingCompleted ==> match ev {
        Event::CompletedChecked(Some(found)) => found == marker,
        _ => true,
    }
}

/// The marker after `ev`: the acknowledged completion marker write has landed.
pub open spec fn marker_after(d: Dispatch, ev: Event, marker: bool) -> bool {
    marker || (d.stage == Stage::MarkingCompleted && ev == Event::Written)
}

/// Some step of the run lets the cursor pass the entry while its completion
/// marker is absent and it has a job ID.
pub open spec fn passes_unmarked(d: Dispatch, fresh: Dispatch, marker: bool, steps: Seq<Option<Event>>) -> bool
    decreases steps.len(),
{
    if steps.len() == 0 {
        false
    } else {
        match steps[0] {
            Some(ev) => {
                let (d2, a) = next(d, ev);
                let bad = match a {
                    Action::Finish(o) => advances(o) && !marker_after(d, ev, marker) && d.jid.is_some(),
                    _ => false,
                };
                bad || passes_unmarked(d2, fresh, marker_after(d, ev, marker), steps.drop_first())
            },
            None => passes_unmarked(fresh, fresh, marker, steps.drop_first()),
        }
    }
}

/// Completion checks in the run are honest.
pub open spec fn honest_checks(d: Dispatch, fresh: Dispatch, marker: bool, steps: Seq<Option<Event>>) -> bool
    decreases steps.len(),
{
    if steps.len() == 0 {
        true
    } else {
        match steps[0] {
            Some(ev) => honest_check(d, ev, marker) && honest_checks(
                next(d, ev).0,
                fresh,
                marker_after(d, ev, marker),
                steps.drop_first(),
            ),
            None => honest_checks(fresh, fresh, marker, steps.drop_first()),
        }
    }
}

spec fn marker_inv(d: Dispatch, marker: bool) -> bool {
    &&& (d.stage == Stage::AnnouncingCompleted || d.stage == Stage::Finished(Outcome::Completed)
        || d.stage == Stage::Finished(Outcome::Skipped)) ==> marker
    &&& d.stage == Stage::Finished(Outcome::Malformed) ==> d.jid.is_none()
}

proof fn lemma_never_passes_unmarked(d: Dispatch, fresh: Dispatch, marker: bool, steps: Seq<Option<Event>>)
    requires
        fresh.stage == Stage::Start,
        marker_inv(d, marker),
        honest_checks(d, fresh, marker, steps),
    ensures
        !passes_unmarked(d, fresh, marker, steps),
    decreases steps.len(),
{
    if steps.len() > 0 {
        match steps[0] {
            Some(ev) => {
                lemma_never_passes_unmarked(
                    next(d, ev).0,
                    fresh,
                    marker_after(d, ev, marker),
                    steps.drop_first(),
                );
            },
            None => {
                lemma_never_passes_unmarked(fresh, fresh, marker, steps.drop_first());
            },
        }
    }
}

/// After any sequence of crashes and restarts, the cursor passes an entry
/// only where its completion marker exists or the entry has no job ID,
/// provided completion checks are honest and acknowledged marker writes land.
pub proof fn lemma_cursor_passes_only_marked(fresh: Dispatch, marker: bool, steps: Seq<Option<Event>>)
    requires
        fresh.stage == Stage::Start,
        honest_checks(fresh, fresh, marker, steps),
    ensures
        !passes_unmarked(fresh, fresh, marker, steps),
{
    lemma_never_passes_unmarked(fresh, fresh, marker, steps);
}

/// The completion check, when answered, reports that the marker exists.
pub open spec fn reports_marker(d: Dispatch, ev: Event) -> bool {
    d.stage == Stage::CheckingCompleted ==> match ev {
        Event::CompletedChecked(c) => c == Some(true),
        _ => true,
    }
}

/// Some step of a run of replays asks to start the runner, or ends a
/// handling otherwise than as skipped or malformed.
pub open spec fn replay_does_work(d: Dispatch, fresh: Dispatch, steps: Seq<Option<Event>>) -> bool
    decreases steps.len(),
{
    if steps.len() == 0 {
        false
    } else {
        match steps[0] {
            Some(ev) => {
                let a = next(d, ev).1;
                (a == Action::SpawnRunner || a == Action::Finish(Outcome::Completed) || a
                    == Action::Finish(Outcome::RunnerFailed) || a == Action::Finish(Outcome::NotMarked))
                    || replay_does_work(next(d, ev).0, fresh, steps.drop_first())
            },
            None => replay_does_work(fresh, fresh, steps.drop_first()),
        }
    }
}

/// Every completion check of the run reports the marker.
pub open spec fn marker_reported(d: Dispatch, fresh: Dispatch, steps: Seq<Option<Event>>) -> bool
    decreases steps.len(),
{
    if steps.len() == 0 {
        true
    } else {
        match steps[0] {
            Some(ev) => reports_marker(d, ev) && marker_reported(next(d, ev).0, fresh, steps.drop_first()),
            None => marker_reported(fresh, fresh, steps.drop_first()),
        }
    }
}

spec fn only_checks(d: Dispatch) -> bool {
    d.stage == Stage::Start || d.stage == Stage::CheckingCompleted || d.stage == Stage::Finished(
        Outcome::Skipped,
    ) || d.stage == Stage::Finished(Outcome::Malformed)
}

proof fn lemma_replays_only_check(d: Dispatch, fresh: Dispatch, steps: Seq<Option<Event>>)
    requires
        fresh.stage == Stage::Start,
        only_checks(d),
        marker_reported(d, fresh, steps),
    ensures
        !replay_does_work(d, fresh, steps),
    decreases steps.len(),
{
    if steps.len() > 0 {
        match steps[0] {
            Some(ev) => lemma_replays_only_check(next(d, ev).0, fresh, steps.drop_first()),
            None => lemma_replays_only_check(fresh, fresh, steps.drop_first()),
        }
    }
}

/// Replaying an entry whose completion marker exists, any number of times
/// and with crashes in between, never starts the runner: each handling asks
/// for the completion check and ends as skipped (or as malformed, without a
/// job ID).
pub proof fn lemma_replays_of_completed_entry(fresh: Dispatch, steps: Seq<Option<Event>>)
    requires
        fresh.stage == Stage::Start,
        marker_reported(fresh, fresh, steps),
    ensures
        !replay_does_work(fresh, fresh, steps),
{
    lemma_replays_only_check(fresh, fresh, steps);
}

/// Some step of the run asks to start the runner.
pub open spec fn asks_spawn(d: Dispatch, fresh: Dispatch, url_set: bool, steps: Seq<Option<Event>>) -> bool
    decreases steps.len(),
{
    if steps.len() == 0 {
        false
    } else {
        match steps[0] {
            Some(ev) => next(d, ev).1 == Action::SpawnRunner || asks_spawn(
                next(d, ev).0,
                fresh,
                url_after(d, ev, url_set),
                steps.drop_first(),
            ),
            None => asks_spawn(fresh, fresh, url_set, steps.drop_first()),
        }
    }
}

proof fn lemma_no_spawn_when_set(d: Dispatch, fresh: Dispatch, steps: Seq<Option<Event>>)
    requires
        fresh.stage == Stage::Start,
        !may_start_runner(d),
        honest_run(d, fresh, true, steps),
    ensures
        !asks_spawn(d, fresh, true, steps),
    decreases steps.len(),
{
    if steps.len() > 0 {
        match steps[0] {
            Some(ev) => lemma_no_spawn_when_set(next(d, ev).0, fresh, steps.drop_first()),
            None => lemma_no_spawn_when_set(fresh, fresh, steps.drop_first()),
        }
    }
}

/// Where the job's `result_url` is non-empty before dispatch, no run of
/// handlings with honest result reads ever asks to start the runner.
pub proof fn lemma_set_result_never_spawns(fresh: Dispatch, steps: Seq<Option<Event>>)
    requires
        fresh.stage == Stage::Start,
        honest_run(fresh, fresh, true, steps),
    ensures
        !asks_spawn(fresh, fresh, true, steps),
{
    lemma_no_spawn_when_set(fresh, fresh, steps);
}

} // verus!
