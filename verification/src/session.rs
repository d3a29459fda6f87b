//! The decisions of the running dashboard around sync: when a document from GitHub may
//! replace the one on screen, and when to synchronise again.
use vstd::prelude::*;

use crate::app::Mode;
use crate::sync::SyncStatus;

verus! {

/// Whether a document from sync may replace the one on screen: only with no overlay open,
/// or with the sync settings or the help open, never while something is being edited,
/// picked or confirmed.
pub fn document_can_be_replaced(mode: &Mode) -> (replaceable: bool)
    ensures
        replaceable == (mode is Normal || mode is Settings || mode is Help),
{
    match mode {
        Mode::Normal | Mode::Settings(_) | Mode::Help => true,
        _ => false,
    }
}

/// What to do with a document that sync prepared.
#[derive(Clone, Copy, Debug, PartialEq, Eq, Structural)]
pub enum PreparedStep {
    /// Keep it until the open overlay closes.
    Wait,
    /// It is the document on screen: tell sync to go ahead.
    Accept,
    /// Save it, show it, and tell sync to go ahead.
    Apply,
    /// The document changed since sync prepared it: prepare again.
    Retry,
}

/// What to do with a document that sync prepared at `prepared_revision`, when the
/// document on screen is at `revision`: wait while it cannot be replaced, prepare again
/// when it changed since, accept it when it is the same, else apply it.
pub fn prepared_step(replaceable: bool, prepared_revision: u64, revision: u64, same_document: bool) -> (step: PreparedStep)
    ensures
        !replaceable ==> step is Wait,
        replaceable && prepared_revision != revision ==> step is Retry,
        replaceable && prepared_revision == revision && same_document ==> step is Accept,
        replaceable && prepared_revision == revision && !same_document ==> step is Apply,
{
    if !replaceable {
        PreparedStep::Wait
    } else if prepared_revision != revision {
        PreparedStep::Retry
    } else if same_document {
        PreparedStep::Accept
    } else {
        PreparedStep::Apply
    }
}

/// Seconds between the synchronisations made while connected.
pub const PERIODIC_SYNC_SECONDS: u64 = 60;

/// Seconds between the retries made while offline or pending.
pub const RETRY_SECONDS: u64 = 30;

/// Seconds from a saved change to the synchronisation that sends it.
pub const SYNC_DELAY_SECONDS: u64 = 1;

/// Seconds that quitting waits for sync to come to rest.
pub const QUIT_WAIT_SECONDS: u64 = 5;

/// Whether the periodic synchronisation is due, `elapsed` whole seconds after the last
/// one: once a minute has passed, when connected, unless a conflict waits for a choice.
pub fn periodic_sync_due(elapsed: u64, connected: bool, status: &SyncStatus) -> (due: bool)
    ensures
        due == (elapsed >= PERIODIC_SYNC_SECONDS && connected && !(status is Conflict)),
{
    elapsed >= PERIODIC_SYNC_SECONDS && connected && match status {
        SyncStatus::Conflict(_) => false,
        _ => true,
    }
}

/// Whether a retry is due, `elapsed` whole seconds after the last one: once half a minute
/// has passed, when connected and offline or pending.
pub fn retry_due(elapsed: u64, connected: bool, status: &SyncStatus) -> (due: bool)
    ensures
        due == (elapsed >= RETRY_SECONDS && connected && (status is Offline || status is Pending)),
{
    elapsed >= RETRY_SECONDS && connected && match status {
        SyncStatus::Offline(_) | SyncStatus::Pending => true,
        _ => false,
    }
}

/// Whether the synchronisation that follows a saved change is due: one is scheduled, and
/// `elapsed` whole seconds since the change reach its delay.
pub fn delayed_sync_due(scheduled: bool, elapsed: u64) -> (due: bool)
    ensures
        due == (scheduled && elapsed >= SYNC_DELAY_SECONDS),
{
    scheduled && elapsed >= SYNC_DELAY_SECONDS
}

/// Whether quitting has waited long enough for sync, `elapsed` whole seconds after it
/// asked for the last synchronisation.
pub fn quit_wait_over(elapsed: u64) -> (over: bool)
    ensures
        over == (elapsed >= QUIT_WAIT_SECONDS),
{
    elapsed >= QUIT_WAIT_SECONDS
}

/// What follows a key that changed the document, once saving it was tried.
#[derive(Clone, Copy, Debug, PartialEq, Eq, Structural)]
pub struct ChangeStep {
    /// The save failed: put the dashboard back as it was before the key and report it.
    pub revert: bool,
    /// The revision of the document on screen afterwards.
    pub revision: u64,
    /// Mark sync pending and synchronise `SYNC_DELAY_SECONDS` later.
    pub schedule_sync: bool,
}

/// What follows a changed document at `revision`: when the save failed, revert and keep
/// the revision; when it succeeded, move to the next revision and, when connected,
/// schedule a synchronisation.
pub fn after_change(revision: u64, saved: bool, connected: bool) -> (step: ChangeStep)
    ensures
        step.revert == !saved,
        step.revision == if saved { next_revision_of(revision) } else { revision as int },
        step.schedule_sync == (saved && connected),
{
    if saved {
        ChangeStep { revert: false, revision: next_revision(revision), schedule_sync: connected }
    } else {
        ChangeStep { revert: true, revision, schedule_sync: false }
    }
}

/// Whether sync has come to rest when quitting: synced, offline, failed, or in conflict.
pub fn sync_settled(status: &SyncStatus) -> (settled: bool)
    ensures
        settled == (status is Synced || status is Offline || status is Error || status is Conflict),
{
    match status {
        SyncStatus::Synced | SyncStatus::Offline(_) | SyncStatus::Error(_) | SyncStatus::Conflict(_) => true,
        _ => false,
    }
}

/// The revision after `revision`, staying at the largest value.
pub open spec fn next_revision_of(revision: u64) -> int {
    if revision < u64::MAX { revision + 1 } else { revision as int }
}

/// The revision after a saved change, staying at the largest value.
pub fn next_revision(revision: u64) -> (next: u64)
    ensures
        next == next_revision_of(revision),
{
    if revision < u64::MAX {
        revision + 1
    } else {
        revision
    }
}

} // verus!
