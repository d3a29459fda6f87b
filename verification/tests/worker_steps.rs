use who_me::model::{Document, IdentityStatus, Topic};
use who_me::sync::{SyncConfig, SyncStatus};
use who_me::worker::{
    AcceptStep, PrepareOutcome, PreparedState, WorkerEvent, WorkerState, accept_step, adopt_branch,
    archived, backup_failed, data_object, forget, kept_local, moves_repository, origin_matches,
    prepare_finished, prepare_start, push_status, push_target, rebase_failed, refresh_failed,
    remote_reference, take_conflict, used_remote,
};

fn remote_copy() -> Document {
    let mut document = Document::default();
    document.topics.push(Topic {
        name: "Remote".into(),
        status: IdentityStatus::Active,
        items: Vec::new(),
    });
    document
}

fn configured() -> WorkerState {
    let mut state = WorkerState::new();
    state.config = Some(SyncConfig::new("https://github.com/person/private".into()));
    state
}

#[test]
fn git_references_name_the_branch() {
    assert_eq!(remote_reference("main"), "origin/main");
    assert_eq!(data_object("origin/main"), "origin/main:data.toml");
    assert_eq!(push_target("trunk"), "HEAD:trunk");
    assert!(origin_matches(" https://github.com/a/b\n", "https://github.com/a/b"));
    assert!(!origin_matches("https://github.com/a/c", "https://github.com/a/b"));
}

#[test]
fn configuring_another_repository_moves_the_clone() {
    let state = configured();
    assert!(moves_repository(&state, &SyncConfig::new("https://github.com/person/other".into())));
    assert!(!moves_repository(&state, &SyncConfig::new("https://github.com/person/private".into())));
    assert!(!moves_repository(&WorkerState::new(), &SyncConfig::new("https://github.com/a/b".into())));
}

#[test]
fn the_clone_branch_is_adopted_when_known() {
    let mut state = configured();
    let reported = adopt_branch(&mut state, Ok("trunk".into())).unwrap();
    assert_eq!(reported.branch, "trunk");
    assert_eq!(state.config.unwrap().branch, "trunk");
    let mut unknown = configured();
    assert!(adopt_branch(&mut unknown, Err("detached".into())).is_none());
    assert_eq!(unknown.config.unwrap().branch, "main");
}

#[test]
fn preparing_reports_what_happened() {
    assert_eq!(prepare_start(&WorkerState::new()), SyncStatus::LocalOnly);
    assert_eq!(prepare_start(&configured()), SyncStatus::Syncing);
    assert!(matches!(rebase_failed(None, "boom".into()), PrepareOutcome::Failure(e) if e == "boom"));
    assert!(matches!(rebase_failed(Some(remote_copy()), "boom".into()), PrepareOutcome::Conflict(_)));

    let mut state = configured();
    let prepared = PreparedState { base: Some("abc".into()), branch: "main".into(), needs_push: true };
    let event = prepare_finished(&mut state, PrepareOutcome::Ready(remote_copy(), prepared), 7);
    assert!(matches!(event, WorkerEvent::Prepared { revision: 7, .. }));
    assert!(state.prepared.is_some());

    let event = prepare_finished(&mut state, PrepareOutcome::Conflict(remote_copy()), 7);
    assert!(matches!(
        event,
        WorkerEvent::Status(SyncStatus::Conflict(m))
            if m == "Local and GitHub data both changed; choose which copy to keep"
    ));
    assert!(state.conflict_remote.is_some());

    let event = prepare_finished(&mut state, PrepareOutcome::Failure("Could not resolve host".into()), 7);
    assert!(matches!(event, WorkerEvent::Status(SyncStatus::Offline(_))));
}

#[test]
fn a_prepared_document_is_accepted_once() {
    let mut state = configured();
    state.prepared = Some(PreparedState { base: None, branch: "main".into(), needs_push: true });
    assert!(matches!(accept_step(&mut state), AcceptStep::Push(target) if target == "HEAD:main"));
    assert!(matches!(accept_step(&mut state), AcceptStep::Nothing));
    state.prepared = Some(PreparedState { base: None, branch: "main".into(), needs_push: false });
    assert!(matches!(accept_step(&mut state), AcceptStep::Done));
    assert_eq!(push_status(Ok(())), SyncStatus::Synced);
    assert_eq!(
        push_status(Err("Permission denied".into())),
        SyncStatus::Error("Permission denied".into())
    );
}

#[test]
fn failed_resolutions_keep_the_conflict() {
    let mut state = configured();
    state.conflict_remote = Some(remote_copy());
    let previous = take_conflict(&mut state).unwrap();
    assert!(state.conflict_remote.is_none());
    let event = refresh_failed(&mut state, previous, "offline".into());
    assert!(matches!(
        event,
        WorkerEvent::Status(SyncStatus::Conflict(m)) if m == "Could not refresh GitHub before resolving: offline"
    ));
    assert!(state.conflict_remote.is_some());

    let remote = take_conflict(&mut state).unwrap();
    let event = backup_failed(&mut state, remote, "disk full".into());
    assert!(matches!(event, WorkerEvent::Status(SyncStatus::Error(m)) if m == "disk full"));

    let remote = take_conflict(&mut state).unwrap();
    let event = kept_local(&mut state, remote, Err("rejected".into()));
    assert!(matches!(
        event,
        WorkerEvent::Status(SyncStatus::Conflict(m)) if m == "Could not publish the local copy: rejected"
    ));
    let remote = take_conflict(&mut state).unwrap();
    assert!(matches!(kept_local(&mut state, remote, Ok(())), WorkerEvent::Status(SyncStatus::Synced)));
    assert!(state.conflict_remote.is_none());
}

#[test]
fn using_the_github_copy_prepares_it() {
    let mut state = configured();
    let event = used_remote(&mut state, remote_copy(), Ok(()), Some("abc".into()), 3);
    assert!(matches!(event, WorkerEvent::Prepared { revision: 3, .. }));
    let prepared = state.prepared.clone().unwrap();
    assert_eq!(prepared.branch, "main");
    assert!(!prepared.needs_push);
    let event = used_remote(&mut state, remote_copy(), Err("locked".into()), None, 3);
    assert!(matches!(
        event,
        WorkerEvent::Status(SyncStatus::Conflict(m)) if m == "Could not prepare the GitHub copy: locked"
    ));

    forget(&mut state);
    assert!(state.config.is_none() && state.prepared.is_none() && state.conflict_remote.is_none());
    assert!(matches!(archived(Ok(())), WorkerEvent::Disconnected));
    assert!(matches!(archived(Err("busy".into())), WorkerEvent::Status(SyncStatus::Error(m)) if m == "busy"));
}
