//! The pipeline orchestrator, as a state machine.
//!
//! One request runs the pipeline: probe the URL, acquire a workspace, clone
//! into it, check that a repository resulted, scan it, aggregate the counts,
//! and release the workspace.  The machine in this module makes every
//! decision of that run; the outside work itself — the probe, the clone
//! subprocess, the directory scan, the creation and removal of the
//! workspace — is performed by the surrounding process, which asks
//! [`next_action`] what to do, does it, and hands the outcome back to
//! [`step`] as an [`Event`].  The machine reaches its terminal state only
//! after the workspace, if one was ever acquired, has been released.

use vstd::prelude::*;

verus! {

use crate::error::MyError;
use crate::stats::RawLanguage;
use crate::stats::Stat;
use crate::stats::aggregate;
use crate::stats::entries_of;
use crate::stats::raw_fits;
use crate::stats::sort_desc;
use crate::stats::total_of;
use crate::stats::totals_fit;

/// The request body: the location of the git repository to analyze.
#[derive(Debug, Clone)]
pub struct Input {
    pub url: String,
}

/// The response body of a successful run: the request URL echoed back, one
/// entry per detected language sorted by line count descending, and the
/// grand total over all languages.
#[derive(Debug, Clone)]
pub struct ResponseBody {
    pub origin: String,
    pub stats: Vec<(String, Stat)>,
    pub total: Stat,
}

/// What the reachability probe of the target URL produced.
#[derive(Debug, Clone, Copy, PartialEq, Eq, Structural)]
pub enum ProbeOutcome {
    /// The transport failed outright: nothing answered.
    TransportFailure,
    /// Something answered, with this HTTP status code.
    Status(u16),
}

/// An HTTP status code that counts as success.
pub open spec fn status_success(code: u16) -> bool {
    200 <= code < 300
}

/// Tests whether an HTTP status code counts as success.
pub fn is_status_success(code: u16) -> (r: bool)
    ensures
        r == status_success(code),
{
    200 <= code && code < 300
}

/// What acquiring a fresh workspace produced.
#[derive(Debug, Clone)]
pub enum AcquireOutcome {
    /// A new, empty, uniquely named directory exists at this path.
    Acquired(String),
    /// Directory creation failed; the message is the I/O error's.
    CreationFailed(String),
    /// The system-chosen path could not be rendered as a string.
    UnusablePath,
}

/// One outside result, handed back to the state machine.
#[derive(Debug)]
pub enum Event {
    /// The reachability probe finished.
    Probed(ProbeOutcome),
    /// The workspace manager tried to create a workspace.
    WorkspaceAcquired(AcquireOutcome),
    /// The external clone tool ran and reported success (`true`), or could
    /// not be invoked or reported failure (`false`).
    CloneFinished(bool),
    /// The repository marker directory is (`true`) or is not (`false`)
    /// present in the workspace after the clone.
    MarkerChecked(bool),
    /// The scanner walked the workspace and reported per-language counts,
    /// or signalled an error.
    Scanned(Result<Vec<RawLanguage>, String>),
    /// The workspace directory was recursively removed.
    Released,
}

/// Where one request's pipeline stands.  States that carry a `workspace`
/// own a directory on disk; the machine reaches [`PipelineState::Done`]
/// only after that directory has been released.
#[derive(Debug)]
pub enum PipelineState {
    /// The request was received; the probe is next.
    Start { url: String },
    /// The probe succeeded; acquiring a workspace is next.
    AwaitWorkspace { url: String },
    /// A workspace exists; the shallow clone into it is next.
    AwaitClone { url: String, workspace: String },
    /// The clone tool ran; checking for the marker directory is next.
    AwaitMarker { url: String, workspace: String },
    /// A repository is in place; scanning the workspace is next.
    AwaitScan { url: String, workspace: String },
    /// The run is decided; releasing the workspace is next.
    AwaitCleanup { workspace: String, outcome: Result<ResponseBody, MyError> },
    /// The run is over; the outcome is ready for the caller.
    Done { outcome: Result<ResponseBody, MyError> },
}

/// What the surrounding process must do next for a given state.
#[derive(Debug, Clone, Copy, PartialEq, Eq, Structural)]
pub enum Action {
    /// Probe the state's URL for reachability.
    Probe,
    /// Create a fresh, uniquely named, empty directory.
    Acquire,
    /// Shallowly (depth 1) and quietly clone the state's URL into its
    /// workspace.
    CloneRepo,
    /// Check whether the workspace now holds the repository marker
    /// directory.
    CheckMarker,
    /// Scan the workspace for per-language line counts.
    Scan,
    /// Recursively delete the state's workspace directory.
    Release,
    /// Hand the outcome to the caller.
    Finish,
}

/// Begins a pipeline run for one request: the machine starts waiting for
/// the probe of the requested URL.
pub fn start(input: Input) -> (s: PipelineState)
    ensures
        s == (PipelineState::Start { url: input.url }),
{
    PipelineState::Start { url: input.url }
}

/// The action each state asks for.
pub open spec fn action_spec(s: PipelineState) -> Action {
    match s {
        PipelineState::Start { .. } => Action::Probe,
        PipelineState::AwaitWorkspace { .. } => Action::Acquire,
        PipelineState::AwaitClone { .. } => Action::CloneRepo,
        PipelineState::AwaitMarker { .. } => Action::CheckMarker,
        PipelineState::AwaitScan { .. } => Action::Scan,
        PipelineState::AwaitCleanup { .. } => Action::Release,
        PipelineState::Done { .. } => Action::Finish,
    }
}

/// Says what the surrounding process must do next in this state.
pub fn next_action(s: &PipelineState) -> (a: Action)
    ensures
        a == action_spec(*s),
{
    match s {
        PipelineState::Start { .. } => Action::Probe,
        PipelineState::AwaitWorkspace { .. } => Action::Acquire,
        PipelineState::AwaitClone { .. } => Action::CloneRepo,
        PipelineState::AwaitMarker { .. } => Action::CheckMarker,
        PipelineState::AwaitScan { .. } => Action::Scan,
        PipelineState::AwaitCleanup { .. } => Action::Release,
        PipelineState::Done { .. } => Action::Finish,
    }
}

/// Whether the event is the outcome of the action that the state asks for.
pub open spec fn event_matches(s: PipelineState, e: Event) -> bool {
    match (s, e) {
        (PipelineState::Start { .. }, Event::Probed(_)) => true,
        (PipelineState::AwaitWorkspace { .. }, Event::WorkspaceAcquired(_)) => true,
        (PipelineState::AwaitClone { .. }, Event::CloneFinished(_)) => true,
        (PipelineState::AwaitMarker { .. }, Event::MarkerChecked(_)) => true,
        (PipelineState::AwaitScan { .. }, Event::Scanned(_)) => true,
        (PipelineState::AwaitCleanup { .. }, Event::Released) => true,
        _ => false,
    }
}

/// The one machine limit of the aggregation step: the grand totals of a
/// successful scan must fit the machine word.
pub open spec fn step_fits(s: PipelineState, e: Event) -> bool {
    match (s, e) {
        (PipelineState::AwaitScan { .. }, Event::Scanned(res)) => match res {
            Ok(raw) => (forall|i: int| 0 <= i < raw@.len() ==> raw_fits(#[trigger] raw@[i]))
                && totals_fit(sort_desc(entries_of(raw@))),
            Err(_) => true,
        },
        _ => true,
    }
}

/// The outcome is a fetch failure carrying this diagnostic.
pub open spec fn is_fetch_failure(o: Result<ResponseBody, MyError>, msg: Seq<char>) -> bool {
    match o {
        Err(MyError::RequestGet(m)) => m@ == msg,
        _ => false,
    }
}

/// The outcome is a clone failure carrying this diagnostic.
pub open spec fn is_clone_failure(o: Result<ResponseBody, MyError>, msg: Seq<char>) -> bool {
    match o {
        Err(MyError::GitClone(m)) => m@ == msg,
        _ => false,
    }
}

/// The outcome is a workspace failure carrying this diagnostic.
pub open spec fn is_temp_path_failure(o: Result<ResponseBody, MyError>, msg: Seq<char>) -> bool {
    match o {
        Err(MyError::TempPath(m)) => m@ == msg,
        _ => false,
    }
}

/// The outcome is a success whose body echoes the request URL and holds
/// exactly the aggregation of the scan result: the per-language entries
/// sorted by line count descending (stable), and their field-wise total.
pub open spec fn is_success(
    o: Result<ResponseBody, MyError>,
    origin: String,
    raw: Seq<RawLanguage>,
) -> bool {
    match o {
        Ok(b) => b.origin == origin && b.stats@ == sort_desc(entries_of(raw)) && b.total
            == total_of(b.stats@),
        _ => false,
    }
}

/// The exact transition relation of the pipeline: for each state and the
/// event it awaits, the next state the step produces.
pub open spec fn step_rel(s: PipelineState, e: Event, n: PipelineState) -> bool {
    match (s, e) {
        (PipelineState::Start { url }, Event::Probed(p)) => match p {
            ProbeOutcome::TransportFailure => match n {
                PipelineState::Done { outcome } => is_fetch_failure(
                    outcome,
                    "URL seems invalid."@,
                ),
                _ => false,
            },
            ProbeOutcome::Status(code) => if status_success(code) {
                n == (PipelineState::AwaitWorkspace { url })
            } else {
                match n {
                    PipelineState::Done { outcome } => is_fetch_failure(
                        outcome,
                        "GET request failed."@,
                    ),
                    _ => false,
                }
            },
        },
        (PipelineState::AwaitWorkspace { url }, Event::WorkspaceAcquired(a)) => match a {
            AcquireOutcome::Acquired(w) => n == (PipelineState::AwaitClone {
                url,
                workspace: w,
            }),
            AcquireOutcome::CreationFailed(m) => match n {
                PipelineState::Done { outcome } => match outcome {
                    Err(MyError::Io(m2)) => m2 == m,
                    _ => false,
                },
                _ => false,
            },
            AcquireOutcome::UnusablePath => match n {
                PipelineState::Done { outcome } => is_temp_path_failure(
                    outcome,
                    "Failed to make a temporary directory."@,
                ),
                _ => false,
            },
        },
        (PipelineState::AwaitClone { url, workspace }, Event::CloneFinished(ok)) => if ok {
            n == (PipelineState::AwaitMarker { url, workspace })
        } else {
            match n {
                PipelineState::AwaitCleanup { workspace: w2, outcome } => w2 == workspace
                    && is_clone_failure(outcome, "Failed to git clone."@),
                _ => false,
            }
        },
        (PipelineState::AwaitMarker { url, workspace }, Event::MarkerChecked(present)) => if present {
            n == (PipelineState::AwaitScan { url, workspace })
        } else {
            match n {
                PipelineState::AwaitCleanup { workspace: w2, outcome } => w2 == workspace
                    && is_clone_failure(outcome, ".git directory not found."@),
                _ => false,
            }
        },
        (PipelineState::AwaitScan { url, workspace }, Event::Scanned(res)) => match res {
            Ok(raw) => match n {
                PipelineState::AwaitCleanup { workspace: w2, outcome } => w2 == workspace
                    && is_success(outcome, url, raw@),
                _ => false,
            },
            Err(m) => match n {
                PipelineState::AwaitCleanup { workspace: w2, outcome } => w2 == workspace
                    && (match outcome {
                    Err(MyError::Io(m2)) => m2 == m,
                    _ => false,
                }),
                _ => false,
            },
        },
        (PipelineState::AwaitCleanup { workspace: _, outcome }, Event::Released) => n
            == (PipelineState::Done { outcome }),
        _ => false,
    }
}

/// Advances the pipeline by one step: consumes the state and the outcome of
/// the action it was waiting for, and produces the next state.  The step
/// performs no outside work itself: failures carried by the event become
/// the pipeline's typed failures here, and a successful scan is aggregated
/// into the response body.
pub fn step(s: PipelineState, e: Event) -> (n: PipelineState)
    requires
        event_matches(s, e),
        step_fits(s, e),
    ensures
        step_rel(s, e, n),
{
    match (s, e) {
        (PipelineState::Start { url }, Event::Probed(p)) => match p {
            ProbeOutcome::TransportFailure => PipelineState::Done {
                outcome: Err(MyError::RequestGet(String::from_str("URL seems invalid."))),
            },
            ProbeOutcome::Status(code) => if is_status_success(code) {
                PipelineState::AwaitWorkspace { url }
            } else {
                PipelineState::Done {
                    outcome: Err(MyError::RequestGet(String::from_str("GET request failed."))),
                }
            },
        },
        (PipelineState::AwaitWorkspace { url }, Event::WorkspaceAcquired(a)) => match a {
            AcquireOutcome::Acquired(w) => PipelineState::AwaitClone { url, workspace: w },
            AcquireOutcome::CreationFailed(m) => PipelineState::Done {
                outcome: Err(MyError::Io(m)),
            },
            AcquireOutcome::UnusablePath => PipelineState::Done {
                outcome: Err(
                    MyError::TempPath(String::from_str("Failed to make a temporary directory.")),
                ),
            },
        },
        (PipelineState::AwaitClone { url, workspace }, Event::CloneFinished(ok)) => if ok {
            PipelineState::AwaitMarker { url, workspace }
        } else {
            PipelineState::AwaitCleanup {
                workspace,
                outcome: Err(MyError::GitClone(String::from_str("Failed to git clone."))),
            }
        },
        (PipelineState::AwaitMarker { url, workspace }, Event::MarkerChecked(present)) => if present {
            PipelineState::AwaitScan { url, workspace }
        } else {
            PipelineState::AwaitCleanup {
                workspace,
                outcome: Err(MyError::GitClone(String::from_str(".git directory not found."))),
            }
        },
        (PipelineState::AwaitScan { url, workspace }, Event::Scanned(res)) => match res {
            Ok(raw) => {
                let (stats, total) = aggregate(raw);
                PipelineState::AwaitCleanup {
                    workspace,
                    outcome: Ok(ResponseBody { origin: url, stats, total }),
                }
            },
            Err(m) => PipelineState::AwaitCleanup { workspace, outcome: Err(MyError::Io(m)) },
        },
        (PipelineState::AwaitCleanup { workspace: _, outcome }, Event::Released) => {
            PipelineState::Done { outcome }
        },
        _ => {
            proof {
                assert(false);
            }
            PipelineState::Done {
                outcome: Err(MyError::Io(String::from_str(""))),
            }
        },
    }
}

/// Whether the state owns a workspace directory on disk.
pub open spec fn holds_workspace(s: PipelineState) -> bool {
    match s {
        PipelineState::AwaitClone { .. } => true,
        PipelineState::AwaitMarker { .. } => true,
        PipelineState::AwaitScan { .. } => true,
        PipelineState::AwaitCleanup { .. } => true,
        _ => false,
    }
}

/// The path of the workspace a state owns.
pub open spec fn workspace_of(s: PipelineState) -> Seq<char> {
    match s {
        PipelineState::AwaitClone { workspace, .. } => workspace@,
        PipelineState::AwaitMarker { workspace, .. } => workspace@,
        PipelineState::AwaitScan { workspace, .. } => workspace@,
        PipelineState::AwaitCleanup { workspace, .. } => workspace@,
        _ => Seq::empty(),
    }
}

/// The pipeline never finishes while it still owns a workspace: a step
/// reaches the terminal state only from a state that holds no workspace,
/// or from the cleanup state by the event that reports the workspace
/// directory removed.
pub proof fn lemma_done_only_after_release(s: PipelineState, e: Event, n: PipelineState)
    requires
        event_matches(s, e),
        step_rel(s, e, n),
        n matches PipelineState::Done { .. },
    ensures
        holds_workspace(s) ==> (s matches PipelineState::AwaitCleanup { .. }),
        holds_workspace(s) ==> (e matches Event::Released),
{
}

/// Until the release, every step from a state that owns a workspace leads
/// to a state that owns the same workspace: the path is never changed,
/// forgotten, or handed to another run before the directory is removed.
pub proof fn lemma_workspace_kept_until_release(s: PipelineState, e: Event, n: PipelineState)
    requires
        event_matches(s, e),
        step_rel(s, e, n),
        holds_workspace(s),
        !(e matches Event::Released),
    ensures
        holds_workspace(n),
        workspace_of(n) == workspace_of(s),
{
}

/// A probe that answers with a non-success status fails the run at once
/// with a fetch failure: the next state is already the terminal one, so no
/// workspace is created and no clone is ever attempted.
pub proof fn lemma_failed_probe_skips_clone(url: String, code: u16, n: PipelineState)
    requires
        !status_success(code),
        step_rel(PipelineState::Start { url }, Event::Probed(ProbeOutcome::Status(code)), n),
    ensures
        n matches PipelineState::Done { outcome } && is_fetch_failure(
            outcome,
            "GET request failed."@,
        ),
        !holds_workspace(n),
{
}

/// A URL that probes successfully but is no valid git remote fails the run
/// with a clone failure, and only through cleanup: the failed clone moves
/// the pipeline to the cleanup state with its workspace unchanged, and the
/// release ends it in the terminal state still carrying that failure.
pub proof fn lemma_failed_clone_still_cleans_up(
    url: String,
    workspace: String,
    mid: PipelineState,
    n: PipelineState,
)
    requires
        step_rel(
            PipelineState::AwaitClone { url, workspace },
            Event::CloneFinished(false),
            mid,
        ),
        step_rel(mid, Event::Released, n),
    ensures
        mid matches PipelineState::AwaitCleanup { workspace: w, outcome } && w == workspace
            && is_clone_failure(outcome, "Failed to git clone."@),
        n matches PipelineState::Done { outcome } && is_clone_failure(
            outcome,
            "Failed to git clone."@,
        ),
{
}

/// A reachable, valid, but empty repository succeeds: the scan reports no
/// languages, and the run's body holds an empty list and an all-zero total.
pub proof fn lemma_empty_scan_zero_total(
    url: String,
    workspace: String,
    raw: Vec<RawLanguage>,
    n: PipelineState,
)
    requires
        raw@.len() == 0,
        step_rel(PipelineState::AwaitScan { url, workspace }, Event::Scanned(Ok(raw)), n),
    ensures
        n matches PipelineState::AwaitCleanup { workspace: w, outcome: Ok(b) } && w == workspace
            && b.origin == url && b.stats@ == Seq::<(String, Stat)>::empty() && b.total
            == Stat::zero_spec(),
{
    assert(entries_of(raw@) =~= Seq::<(String, Stat)>::empty());
    assert(sort_desc(entries_of(raw@)) == Seq::<(String, Stat)>::empty());
    assert(total_of(Seq::<(String, Stat)>::empty()) == Stat::zero_spec());
}

} // verus!
