//! `FakeStore`, and the parts of `FsStore` the library decides.

use coda::store::{is_session_log, DirEntryFacts, DirListing, RenderOutcome};
use coda::{FakeStore, FsStore, FsStoreError, LogStore, RawLog};

#[test]
fn fake_store_returns_all_logs() {
    let logs = vec![
        RawLog {
            path: "/sessions/a.ndjson".to_string(),
            has_summary: true,
            mtime_secs: 1000,
        },
        RawLog {
            path: "/sessions/b.ndjson".to_string(),
            has_summary: false,
            mtime_secs: 900,
        },
    ];
    let store = FakeStore::new(logs.clone());
    let got = store.logs().expect("FakeStore::logs never errors");
    assert_eq!(got, logs);
}

#[test]
fn fake_store_render_tracks_calls() {
    let mut store = FakeStore::new(vec![]);
    let path = "/sessions/x.ndjson".to_string();
    assert_eq!(store.render_call_count(), 0);
    store.render(&path).expect("FakeStore::render never errors");
    assert_eq!(store.render_call_count(), 1);
}

#[test]
fn fs_store_defaults_to_scribe_and_takes_an_override() {
    let store = FsStore::new("/tmp/s".to_string());
    assert_eq!(store.render_cmd(), "scribe");
    let store = store.with_render_cmd("/opt/bin/fake-scribe".to_string());
    assert_eq!(store.render_cmd(), "/opt/bin/fake-scribe");
    assert_eq!(store.sessions_dir(), "/tmp/s");
    assert_eq!(store.render_args("/tmp/s/a.ndjson"), vec!["render".to_string(), "/tmp/s/a.ndjson".to_string()]);
}

#[test]
fn session_logs_are_exactly_the_ndjson_files() {
    assert!(is_session_log("/s/a.ndjson"));
    assert!(!is_session_log("/s/a.summary.md"));
    assert!(!is_session_log("/s/a.ndjson.bak"));
    assert!(!is_session_log("/s/ndjson"));
    assert!(!is_session_log("/s/.ndjson"));
}

#[test]
fn unreadable_dir_is_an_error_naming_it() {
    let store = FsStore::new("/tmp/locked".to_string());
    let err = store
        .logs_from_listing(DirListing::Unreadable("Permission denied (os error 13)".to_string()))
        .expect_err("unreadable dir");
    assert_eq!(err.0, "read_dir /tmp/locked: Permission denied (os error 13)");
    assert_eq!(err.describe(), "FsStore error: read_dir /tmp/locked: Permission denied (os error 13)");
}

#[test]
fn unreadable_mtime_counts_as_zero() {
    let store = FsStore::new("/d".to_string());
    let listing = DirListing::Entries(vec![DirEntryFacts {
        path: "/d/a.ndjson".to_string(),
        mtime_secs: None,
        has_summary: false,
    }]);
    let logs = store.logs_from_listing(listing).expect("logs");
    assert_eq!(
        logs,
        vec![RawLog { path: "/d/a.ndjson".to_string(), has_summary: false, mtime_secs: 0 }]
    );
}

#[test]
fn render_results_follow_the_process_end() {
    let store = FsStore::new("/d".to_string());
    assert!(store
        .render_result(RenderOutcome::Exited { success: true, code: Some(0), stderr: String::new() })
        .is_ok());
    let err = store
        .render_result(RenderOutcome::Exited { success: false, code: Some(3), stderr: "boom".to_string() })
        .expect_err("failed render");
    assert_eq!(err.0, "'scribe' render failed (exit Some(3)): boom");
    let err = store
        .render_result(RenderOutcome::Exited { success: false, code: None, stderr: String::new() })
        .expect_err("killed render");
    assert_eq!(err.0, "'scribe' render failed (exit None): ");
    let err = store
        .with_render_cmd("nope".to_string())
        .render_result(RenderOutcome::SpawnFailed("No such file or directory (os error 2)".to_string()))
        .expect_err("spawn failure");
    assert_eq!(err.0, "failed to run 'nope': No such file or directory (os error 2)");
    let e = FsStoreError("x".to_string());
    assert_eq!(e.describe(), "FsStore error: x");
}
