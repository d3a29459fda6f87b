use who_me::model::{Document, IdentityStatus, Topic};
use who_me::session::{
    after_change, delayed_sync_due, next_revision, periodic_sync_due, prepared_step, quit_wait_over, retry_due,
    sync_settled, PreparedStep,
};
use who_me::storage::{data_path, StorageError, Store};
use who_me::sync::{
    branch_from_output, command_error, first_connection_choice, git_failure_status,
    is_missing_file_error, legacy_identity_action, staged_changes, FirstConnection,
    IdentityAction, StagedChanges, SyncError, SyncPaths, SyncStatus,
};
use who_me::theme::theme_path;

fn document_with(name: &str) -> Document {
    let mut document = Document::default();
    document.topics.push(Topic {
        name: name.into(),
        status: IdentityStatus::Active,
        items: Vec::new(),
    });
    document
}

#[test]
fn backup_sits_beside_the_data_file() {
    let store = Store::new("/tmp/x/data.toml".to_string());
    assert_eq!(store.backup_path(), "/tmp/x/data.toml.bak");
}

#[test]
fn data_path_follows_the_environment() {
    assert_eq!(
        data_path(Some("/xdg".into()), Some("/home/me".into())).unwrap(),
        "/xdg/who-me/data.toml"
    );
    assert_eq!(
        data_path(Some(String::new()), Some("/home/me/".into())).unwrap(),
        "/home/me/.local/share/who-me/data.toml"
    );
    let error = data_path(None, None).unwrap_err();
    assert_eq!(error, StorageError::NoHomeDirectory);
    assert_eq!(error.message(), "HOME is not set; cannot determine the data path");
    let discovered = Store::discover(None, Some("/h".into())).unwrap();
    assert_eq!(discovered.path, "/h/.local/share/who-me/data.toml");
}

#[test]
fn storage_errors_name_the_file() {
    let error = StorageError::Parse {
        path: "/d/data.toml".into(),
        message: "bad".into(),
    };
    assert_eq!(error.message(), "could not parse /d/data.toml: bad");
    let invalid = StorageError::Invalid {
        path: "/d/data.toml".into(),
        reason: "topic 1 has an empty name".into(),
    };
    assert_eq!(invalid.message(), "invalid data in /d/data.toml: topic 1 has an empty name");
}

#[test]
fn sync_paths_follow_the_environment() {
    let paths = SyncPaths::discover(Some("/home/me".into()), None, None).unwrap();
    assert_eq!(paths.config, "/home/me/.config/who-me/config.toml");
    assert_eq!(paths.repository, "/home/me/.local/share/who-me/github-sync");
    assert_eq!(paths.archives, "/home/me/.local/share/who-me/sync-archives");
    assert_eq!(paths.conflicts, "/home/me/.local/share/who-me/conflicts");
    let error = SyncPaths::discover(None, None, Some("/c".into())).unwrap_err();
    assert!(matches!(error, SyncError::NoHomeDirectory));
    assert_eq!(error.message(), "HOME is not set; cannot determine sync paths");
}

#[test]
fn theme_path_follows_the_environment() {
    assert_eq!(
        theme_path(None, Some("/home/me".into())).unwrap(),
        "/home/me/.local/state/omarchy/current/theme/colors.toml"
    );
    assert_eq!(theme_path(None, None), None);
}

#[test]
fn command_errors_prefer_telling_lines() {
    assert_eq!(
        command_error("hint: try again\nfatal: repository not found\n", "done"),
        "fatal: repository not found"
    );
    assert_eq!(command_error("  \n", "  first line \nsecond"), "first line");
    assert_eq!(command_error("", ""), "git command failed");
}

#[test]
fn failures_are_permanent_or_offline() {
    assert_eq!(
        git_failure_status("Permission denied (publickey)".into()),
        SyncStatus::Error("Permission denied (publickey)".into())
    );
    assert_eq!(
        git_failure_status("Could not resolve host".into()),
        SyncStatus::Offline("Could not resolve host".into())
    );
    assert!(is_missing_file_error("fatal: path 'data.toml' does not exist in 'HEAD'"));
    assert!(!is_missing_file_error("fatal: bad object"));
}

#[test]
fn git_outputs_become_decisions() {
    assert_eq!(branch_from_output("  main\n").unwrap(), "main");
    assert!(branch_from_output(" \n").is_err());
    assert_eq!(legacy_identity_action(Some(0), "who-me\n", "who-me"), IdentityAction::Unset);
    assert_eq!(legacy_identity_action(Some(0), "Person\n", "who-me"), IdentityAction::Keep);
    assert_eq!(legacy_identity_action(Some(1), "", "who-me"), IdentityAction::Keep);
    assert_eq!(legacy_identity_action(Some(128), "", "who-me"), IdentityAction::Fail);
    assert_eq!(staged_changes(Some(0)), StagedChanges::Unchanged);
    assert_eq!(staged_changes(Some(1)), StagedChanges::Commit);
    assert_eq!(staged_changes(None), StagedChanges::Fail);
}

#[test]
fn first_connection_conflicts_only_when_both_differ() {
    let local = document_with("Local");
    let remote = document_with("Remote");
    let empty = Document::default();
    assert_eq!(
        first_connection_choice(true, &local, &Some(remote.clone())),
        FirstConnection::Conflict
    );
    assert_eq!(
        first_connection_choice(true, &local, &Some(local.clone())),
        FirstConnection::Merge
    );
    assert_eq!(
        first_connection_choice(true, &empty, &Some(remote.clone())),
        FirstConnection::TakeRemote
    );
    assert_eq!(first_connection_choice(false, &local, &Some(remote)), FirstConnection::Merge);
    assert_eq!(first_connection_choice(true, &local, &None), FirstConnection::Merge);
}

#[test]
fn documents_compare_by_content() {
    let a = document_with("Developer");
    assert!(a.same_as(&a.clone()));
    assert!(!a.same_as(&document_with("Writer")));
    assert!(!a.same_as(&Document::default()));
}

#[test]
fn session_decisions() {
    assert!(periodic_sync_due(60, true, &SyncStatus::Synced));
    assert!(!periodic_sync_due(59, true, &SyncStatus::Synced));
    assert!(!periodic_sync_due(60, false, &SyncStatus::Synced));
    assert!(!periodic_sync_due(600, true, &SyncStatus::Conflict("remote".into())));
    assert!(retry_due(30, true, &SyncStatus::Offline("x".into())));
    assert!(retry_due(31, true, &SyncStatus::Pending));
    assert!(!retry_due(29, true, &SyncStatus::Pending));
    assert!(!retry_due(30, true, &SyncStatus::Synced));
    assert!(delayed_sync_due(true, 1));
    assert!(!delayed_sync_due(true, 0));
    assert!(!delayed_sync_due(false, 5));
    assert!(quit_wait_over(5));
    assert!(!quit_wait_over(4));
    let saved = after_change(7, true, true);
    assert!(!saved.revert);
    assert_eq!(saved.revision, 8);
    assert!(saved.schedule_sync);
    let local = after_change(7, true, false);
    assert_eq!(local.revision, 8);
    assert!(!local.schedule_sync);
    let failed = after_change(7, false, true);
    assert!(failed.revert);
    assert_eq!(failed.revision, 7);
    assert!(!failed.schedule_sync);
    assert_eq!(after_change(u64::MAX, true, false).revision, u64::MAX);
    assert!(sync_settled(&SyncStatus::Synced));
    assert!(!sync_settled(&SyncStatus::Syncing));
    assert_eq!(next_revision(3), 4);
    assert_eq!(next_revision(u64::MAX), u64::MAX);
    assert_eq!(prepared_step(true, 2, 2, false), PreparedStep::Apply);
    assert_eq!(prepared_step(true, 1, 2, true), PreparedStep::Retry);
    assert_eq!(prepared_step(false, 2, 2, true), PreparedStep::Wait);
    assert_eq!(prepared_step(true, 2, 2, true), PreparedStep::Accept);
}
