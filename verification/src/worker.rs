//! The sync worker's decisions: what it keeps between commands, which Git references it
//! names, and what it reports after each step of its work with Git.
use vstd::prelude::*;

use crate::model::{Document, equal_text};
use crate::sync::{SyncConfig, SyncStatus, default_branch, failure_status, git_failure_status, main_branch};
use crate::text::{trim, trimmed};

verus! {

/// A document prepared for the dashboard: the commit to go back to if it is refused, the
/// branch to push, and whether there is anything to push.
#[derive(Clone, Debug)]
pub struct PreparedState {
    pub base: Option<String>,
    pub branch: String,
    pub needs_push: bool,
}

/// What the worker keeps between commands: the configuration, the prepared document, and
/// GitHub's copy while a conflict waits for a choice.
#[derive(Clone, Debug)]
pub struct WorkerState {
    pub config: Option<SyncConfig>,
    pub prepared: Option<PreparedState>,
    pub conflict_remote: Option<Document>,
}

/// What the worker reports to the dashboard.
#[derive(Clone, Debug)]
pub enum WorkerEvent {
    Status(SyncStatus),
    Configured(SyncConfig),
    Prepared { document: Document, revision: u64 },
    Disconnected,
}

/// How preparing a document ended: a document ready to show, a conflict with GitHub's
/// copy, or a failure.
#[derive(Clone, Debug)]
pub enum PrepareOutcome {
    Ready(Document, PreparedState),
    Conflict(Document),
    Failure(String),
}

/// What accepting the prepared document asks for.
#[derive(Clone, Debug)]
pub enum AcceptStep {
    /// No document was prepared.
    Nothing,
    /// Nothing is to be pushed: sync is done.
    Done,
    /// Push `HEAD` to this target.
    Push(String),
}

/// The message of a conflict found while preparing.
pub open spec fn conflict_text() -> Seq<char> {
    "Local and GitHub data both changed; choose which copy to keep"@
}

impl WorkerState {
    /// The state before any command: nothing configured, prepared or in conflict.
    pub fn new() -> (state: WorkerState)
        ensures
            state.config is None,
            state.prepared is None,
            state.conflict_remote is None,
    {
        WorkerState { config: None, prepared: None, conflict_remote: None }
    }
}

/// The remote branch that tracks `branch` on GitHub.
pub fn remote_reference(branch: &str) -> (reference: String)
    ensures
        reference@ == "origin/"@ + branch@,
{
    let mut reference = String::from_str("origin/");
    reference.append(branch);
    reference
}

/// The data file in the tree of `reference`.
pub fn data_object(reference: &str) -> (object: String)
    ensures
        object@ == reference@ + ":data.toml"@,
{
    let mut object = String::from_str(reference);
    object.append(":data.toml");
    object
}

/// The target that pushes `HEAD` to `branch`.
pub fn push_target(branch: &str) -> (target: String)
    ensures
        target@ == "HEAD:"@ + branch@,
{
    let mut target = String::from_str("HEAD:");
    target.append(branch);
    target
}

/// Whether the clone's `origin`, as `git remote get-url` printed it, is the repository.
pub fn origin_matches(output: &str, repository: &str) -> (matches: bool)
    ensures
        matches == (trim(output@) == repository@),
{
    let origin = trimmed(output);
    equal_text(origin.as_str(), repository)
}

/// Whether configuring `config` moves sync to another repository, whose clone is then
/// archived first.
pub fn moves_repository(state: &WorkerState, config: &SyncConfig) -> (moves: bool)
    ensures
        moves == (state.config matches Some(current) && current.repository@ != config.repository@),
{
    match &state.config {
        Some(current) => !equal_text(current.repository.as_str(), config.repository.as_str()),
        None => false,
    }
}

/// Takes the branch the clone is on, when Git could tell it, into the configuration;
/// the configuration to report then.
pub fn adopt_branch(state: &mut WorkerState, branch: Result<String, String>) -> (reported: Option<SyncConfig>)
    ensures
        final(state).prepared == old(state).prepared,
        final(state).conflict_remote == old(state).conflict_remote,
        (match (branch, old(state).config) {
            (Ok(b), Some(c)) => {
                &&& final(state).config == Some(SyncConfig { branch: b, ..c })
                &&& reported == final(state).config
            },
            _ => final(state).config == old(state).config && reported is None,
        }),
{
    match branch {
        Ok(b) => match state.config.take() {
            Some(c) => {
                let reported = SyncConfig { version: c.version, repository: c.repository.clone(), branch: b.clone() };
                state.config = Some(SyncConfig { branch: b, ..c });
                Some(reported)
            },
            None => None,
        },
        Err(_) => None,
    }
}

/// The status that starts preparing: nothing to do without a configuration, else syncing.
pub fn prepare_start(state: &WorkerState) -> (status: SyncStatus)
    ensures
        state.config is None ==> status is LocalOnly,
        state.config is Some ==> status is Syncing,
{
    match &state.config {
        None => SyncStatus::LocalOnly,
        Some(_) => SyncStatus::Syncing,
    }
}

/// How preparing ends when rebasing onto GitHub's branch failed: a conflict with GitHub's
/// copy when there is one, else the failure.
pub fn rebase_failed(remote: Option<Document>, error: String) -> (outcome: PrepareOutcome)
    ensures
        match remote {
            Some(r) => outcome == PrepareOutcome::Conflict(r),
            None => outcome == PrepareOutcome::Failure(error),
        },
{
    match remote {
        Some(r) => PrepareOutcome::Conflict(r),
        None => PrepareOutcome::Failure(error),
    }
}

/// What the worker keeps and reports once preparing has ended: the prepared document to
/// show, GitHub's copy to wait on for a conflict, or the failure's status.
pub fn prepare_finished(state: &mut WorkerState, outcome: PrepareOutcome, revision: u64) -> (event: WorkerEvent)
    ensures
        final(state).config == old(state).config,
        match outcome {
            PrepareOutcome::Ready(document, prepared) => {
                &&& final(state).prepared == Some(prepared)
                &&& final(state).conflict_remote == old(state).conflict_remote
                &&& event == WorkerEvent::Prepared { document, revision }
            },
            PrepareOutcome::Conflict(remote) => {
                &&& final(state).prepared == old(state).prepared
                &&& final(state).conflict_remote == Some(remote)
                &&& event matches WorkerEvent::Status(SyncStatus::Conflict(m)) && m@ == conflict_text()
            },
            PrepareOutcome::Failure(error) => {
                &&& final(state).prepared == old(state).prepared
                &&& final(state).conflict_remote == old(state).conflict_remote
                &&& event == WorkerEvent::Status(failure_status(error))
            },
        },
{
    match outcome {
        PrepareOutcome::Ready(document, prepared) => {
            state.prepared = Some(prepared);
            WorkerEvent::Prepared { document, revision }
        },
        PrepareOutcome::Conflict(remote) => {
            state.conflict_remote = Some(remote);
            WorkerEvent::Status(
                SyncStatus::Conflict(
                    String::from_str("Local and GitHub data both changed; choose which copy to keep"),
                ),
            )
        },
        PrepareOutcome::Failure(error) => WorkerEvent::Status(git_failure_status(error)),
    }
}

/// Takes the prepared document for acceptance: nothing to do without one, done when it
/// needs no push, else a push of `HEAD` to its branch.
pub fn accept_step(state: &mut WorkerState) -> (step: AcceptStep)
    ensures
        accept_taken(*old(state), *final(state), step),
{
    match state.prepared.take() {
        None => AcceptStep::Nothing,
        Some(p) => if p.needs_push {
            AcceptStep::Push(push_target(p.branch.as_str()))
        } else {
            AcceptStep::Done
        },
    }
}

/// The status after pushing: synced, or the failure's status.
pub fn push_status(result: Result<(), String>) -> (status: SyncStatus)
    ensures
        match result {
            Ok(()) => status is Synced,
            Err(error) => status == failure_status(error),
        },
{
    match result {
        Ok(()) => SyncStatus::Synced,
        Err(error) => git_failure_status(error),
    }
}

/// Takes GitHub's copy that a conflict waits on, if there is one.
pub fn take_conflict(state: &mut WorkerState) -> (remote: Option<Document>)
    ensures
        remote == old(state).conflict_remote,
        final(state).conflict_remote is None,
        final(state).config == old(state).config,
        final(state).prepared == old(state).prepared,
{
    state.conflict_remote.take()
}

/// Keeps waiting on `remote` for a choice, with a status that says which step failed.
fn conflict_again(state: &mut WorkerState, remote: Document, prefix: &str, error: String) -> (event: WorkerEvent)
    ensures
        *final(state) == (WorkerState { conflict_remote: Some(remote), ..*old(state) }),
        event matches WorkerEvent::Status(SyncStatus::Conflict(m)) && m@ == prefix@ + error@,
{
    state.conflict_remote = Some(remote);
    let mut message = String::from_str(prefix);
    message.append(error.as_str());
    WorkerEvent::Status(SyncStatus::Conflict(message))
}

/// When GitHub could not be read again before resolving, the conflict stays on the copy
/// it had.
pub fn refresh_failed(state: &mut WorkerState, previous: Document, error: String) -> (event: WorkerEvent)
    ensures
        *final(state) == (WorkerState { conflict_remote: Some(previous), ..*old(state) }),
        event matches WorkerEvent::Status(SyncStatus::Conflict(m)) && m@
            == "Could not refresh GitHub before resolving: "@ + error@,
{
    conflict_again(state, previous, "Could not refresh GitHub before resolving: ", error)
}

/// When the two copies could not be backed up, the conflict stays, and the status is the
/// error.
pub fn backup_failed(state: &mut WorkerState, remote: Document, error: String) -> (event: WorkerEvent)
    ensures
        *final(state) == (WorkerState { conflict_remote: Some(remote), ..*old(state) }),
        event == WorkerEvent::Status(SyncStatus::Error(error)),
{
    state.conflict_remote = Some(remote);
    WorkerEvent::Status(SyncStatus::Error(error))
}

/// After publishing the local copy: synced, or the conflict stays with a status that says
/// why.
pub fn kept_local(state: &mut WorkerState, remote: Document, result: Result<(), String>) -> (event: WorkerEvent)
    ensures
        match result {
            Ok(()) => *final(state) == *old(state) && event == WorkerEvent::Status(SyncStatus::Synced),
            Err(error) => {
                &&& *final(state) == (WorkerState { conflict_remote: Some(remote), ..*old(state) })
                &&& event matches WorkerEvent::Status(SyncStatus::Conflict(m)) && m@
                    == "Could not publish the local copy: "@ + error@
            },
        },
{
    match result {
        Ok(()) => WorkerEvent::Status(SyncStatus::Synced),
        Err(error) => conflict_again(state, remote, "Could not publish the local copy: ", error),
    }
}

/// After resetting the clone to GitHub's copy: that copy is prepared for the dashboard,
/// with nothing to push, at `base` on the configured branch (the main branch without a
/// configuration); or the conflict stays with a status that says why.
pub fn used_remote(
    state: &mut WorkerState,
    remote: Document,
    reset: Result<(), String>,
    base: Option<String>,
    revision: u64,
) -> (event: WorkerEvent)
    ensures
        match reset {
            Ok(()) => {
                &&& final(state).config == old(state).config
                &&& final(state).conflict_remote == old(state).conflict_remote
                &&& final(state).prepared matches Some(p) && p.base == base && !p.needs_push
                    && p.branch@ == match old(state).config {
                    Some(c) => c.branch@,
                    None => main_branch(),
                }
                &&& event == WorkerEvent::Prepared { document: remote, revision }
            },
            Err(error) => {
                &&& *final(state) == (WorkerState { conflict_remote: Some(remote), ..*old(state) })
                &&& event matches WorkerEvent::Status(SyncStatus::Conflict(m)) && m@
                    == "Could not prepare the GitHub copy: "@ + error@
            },
        },
{
    match reset {
        Ok(()) => {
            let branch = match &state.config {
                Some(c) => c.branch.clone(),
                None => default_branch(),
            };
            state.prepared = Some(PreparedState { base, branch, needs_push: false });
            WorkerEvent::Prepared { document: remote, revision }
        },
        Err(error) => conflict_again(state, remote, "Could not prepare the GitHub copy: ", error),
    }
}

/// Forgets the configuration, the prepared document and any conflict.
pub fn forget(state: &mut WorkerState)
    ensures
        final(state).config is None,
        final(state).prepared is None,
        final(state).conflict_remote is None,
{
    state.config = None;
    state.prepared = None;
    state.conflict_remote = None;
}

/// What disconnecting reports once the clone is archived, or could not be.
pub fn archived(result: Result<(), String>) -> (event: WorkerEvent)
    ensures
        match result {
            Ok(()) => event is Disconnected,
            Err(error) => event == WorkerEvent::Status(SyncStatus::Error(error)),
        },
{
    match result {
        Ok(()) => WorkerEvent::Disconnected,
        Err(error) => WorkerEvent::Status(SyncStatus::Error(error)),
    }
}

/// `after` is `before` once its prepared document is taken for acceptance, and `step` is
/// what that asks for.
pub open spec fn accept_taken(before: WorkerState, after: WorkerState, step: AcceptStep) -> bool {
    &&& after.prepared is None
    &&& after.config == before.config
    &&& after.conflict_remote == before.conflict_remote
    &&& match before.prepared {
        None => step is Nothing,
        Some(p) => if p.needs_push {
            step matches AcceptStep::Push(target) && target@ == "HEAD:"@ + p.branch@
        } else {
            step is Done
        },
    }
}

/// A prepared document is accepted once: accepting again finds nothing to do.
pub proof fn lemma_accept_once(a: WorkerState, b: WorkerState, c: WorkerState, first: AcceptStep, second: AcceptStep)
    requires
        accept_taken(a, b, first),
        accept_taken(b, c, second),
    ensures
        second is Nothing,
        c.config == a.config,
        c.conflict_remote == a.conflict_remote,
{
}

/// A conflict outlives a resolution that fails before publishing: the worker waits on
/// GitHub's copy again.
pub proof fn lemma_failed_refresh_keeps_conflict(a: WorkerState, b: WorkerState, c: WorkerState, previous: Document)
    requires
        a.conflict_remote == Some(previous),
        b == (WorkerState { conflict_remote: None, ..a }),
        c == (WorkerState { conflict_remote: Some(previous), ..b }),
    ensures
        c == a,
{
}

} // verus!
