//! The audit path: listing the sessions directory, reading `ctrace status`,
//! and sweeping with the active log excluded. The directory facts that the
//! `coda` binary gathers are given here as `DirListing` values.

use std::time::{SystemTime, UNIX_EPOCH};

use coda::report::orphaned_only;
use coda::resolver;
use coda::store::{summary_path, DirEntryFacts, DirListing};
use coda::{sweep, DebtClass, FakeStore, FsStore, LogStore, RawLog};

fn now_secs() -> u64 {
    SystemTime::now()
        .duration_since(UNIX_EPOCH)
        .map(|d| d.as_secs())
        .unwrap_or(0)
}

/// The facts the binary gathers for a file `name` in `dir`, `age_secs` old,
/// with or without its summary beside it.
fn entry(dir: &str, name: &str, age_secs: u64, with_summary: bool) -> DirEntryFacts {
    DirEntryFacts {
        path: format!("{dir}/{name}"),
        mtime_secs: Some(now_secs().saturating_sub(age_secs)),
        has_summary: with_summary,
    }
}

#[test]
fn fsstore_logs_correct_has_summary_and_mtime() {
    let dir = "/tmp/coda_audit_fixture";
    let store = FsStore::new(dir.to_string());
    let listing = DirListing::Entries(vec![
        entry(dir, "with-summary.ndjson", 500, true),
        entry(dir, "with-summary.summary.md", 500, false),
        entry(dir, "without-summary.ndjson", 1000, false),
    ]);
    let logs = store.logs_from_listing(listing).expect("FsStore::logs");

    assert_eq!(logs.len(), 2);
    let p_with = format!("{dir}/with-summary.ndjson");
    let p_without = format!("{dir}/without-summary.ndjson");
    let l_with = logs.iter().find(|l| l.path == p_with).expect("with-summary log");
    let l_without = logs.iter().find(|l| l.path == p_without).expect("without-summary log");

    assert!(l_with.has_summary, "with-summary log should have has_summary=true");
    assert!(!l_without.has_summary, "without-summary log should have has_summary=false");

    let expected_with = now_secs().saturating_sub(500);
    assert!(
        l_with.mtime_secs.abs_diff(expected_with) < 5,
        "mtime for with-summary should be ~{}s ago (got {})",
        500,
        l_with.mtime_secs
    );
    let expected_without = now_secs().saturating_sub(1000);
    assert!(
        l_without.mtime_secs.abs_diff(expected_without) < 5,
        "mtime for without-summary should be ~{}s ago",
        1000
    );
}

#[test]
fn fsstore_empty_dir_returns_empty() {
    let store = FsStore::new("/tmp/coda_empty_dir".to_string());
    let logs = store.logs_from_listing(DirListing::Entries(vec![])).expect("FsStore::logs");
    assert!(logs.is_empty());
}

#[test]
fn fsstore_nonexistent_dir_returns_empty() {
    let store = FsStore::new("/tmp/coda_nonexistent_dir_99999999".to_string());
    let logs = store
        .logs_from_listing(DirListing::Missing)
        .expect("FsStore::logs on missing dir returns empty");
    assert!(logs.is_empty());
}

#[test]
fn fsstore_ignores_non_ndjson_files() {
    let dir = "/tmp/coda_other_files";
    let store = FsStore::new(dir.to_string());
    let listing = DirListing::Entries(vec![entry(dir, "foo.txt", 10, false), entry(dir, "bar.json", 10, false)]);
    let logs = store.logs_from_listing(listing).expect("FsStore::logs");
    assert!(logs.is_empty(), "non-ndjson files should be ignored");
}

#[test]
fn resolver_parses_valid_status() {
    let json = r#"{"log": "/tmp/session.ndjson", "pid": 42}"#;
    assert_eq!(resolver::parse_ctrace_status(json), Some("/tmp/session.ndjson".to_string()));
}

#[test]
fn resolver_returns_none_for_malformed_json() {
    assert_eq!(resolver::parse_ctrace_status("not json"), None);
}

#[test]
fn resolver_returns_none_for_missing_log_key() {
    let json = r#"{"status": "idle"}"#;
    assert_eq!(resolver::parse_ctrace_status(json), None);
}

#[test]
fn resolver_returns_none_for_not_running_fixture() {
    // ctrace exits non-zero / empty when no active session.
    assert_eq!(resolver::parse_ctrace_status("{}"), None);
}

#[test]
fn audit_excludes_active_log_from_debt() {
    let dir = "/tmp/coda_audit_active";
    let listing = DirListing::Entries(vec![
        entry(dir, "active.ndjson", 5000, false),
        entry(dir, "orphaned.ndjson", 5000, false),
        entry(dir, "settled.ndjson", 5000, true),
    ]);
    let store = FsStore::new(dir.to_string());
    let logs = store.logs_from_listing(listing).expect("FsStore::logs");
    let active_path = format!("{dir}/active.ndjson");
    let orphaned_path = format!("{dir}/orphaned.ndjson");

    let now = now_secs();
    let grace = 120u64;
    let plan = sweep(&logs, Some(active_path.as_str()), now, grace);

    let active_log_entry = plan.logs.iter().find(|l| l.path == active_path).expect("active log in plan");
    assert!(
        matches!(active_log_entry.debt, DebtClass::Active),
        "active log should be classed Active"
    );
    let orphaned_entry = plan.logs.iter().find(|l| l.path == orphaned_path).expect("orphaned log");
    assert!(
        matches!(orphaned_entry.debt, DebtClass::Orphaned { .. }),
        "orphaned log should be Orphaned"
    );
    assert_eq!(plan.orphaned, 1, "active log should not count as orphaned");
}

#[test]
fn orphaned_only_prints_exactly_orphaned_paths() {
    let now = now_secs();
    let orphaned_path = "/tmp/orphaned.ndjson".to_string();
    let settled_path = "/tmp/settled.ndjson".to_string();
    let active_path = "/tmp/active.ndjson".to_string();

    let logs = vec![
        RawLog { path: orphaned_path.clone(), has_summary: false, mtime_secs: now - 5000 },
        RawLog { path: settled_path.clone(), has_summary: true, mtime_secs: now - 5000 },
        RawLog { path: active_path.clone(), has_summary: false, mtime_secs: now - 100 },
    ];
    let plan = sweep(&logs, Some(active_path.as_str()), now, 120);

    let orphaned_paths: Vec<&String> = plan
        .logs
        .iter()
        .filter(|l| matches!(l.debt, DebtClass::Orphaned { .. }))
        .map(|l| &l.path)
        .collect();

    assert_eq!(orphaned_paths.len(), 1);
    assert_eq!(orphaned_paths[0], &orphaned_path);
    assert!(!orphaned_paths.contains(&&settled_path));
    assert!(!orphaned_paths.contains(&&active_path));

    // The lines `coda audit --orphaned-only` prints are the same paths.
    assert_eq!(orphaned_only(&plan), vec![orphaned_path]);
}

#[test]
fn audit_never_calls_render() {
    let now = now_secs();
    let logs = vec![
        RawLog { path: "/tmp/a.ndjson".to_string(), has_summary: false, mtime_secs: now - 5000 },
        RawLog { path: "/tmp/b.ndjson".to_string(), has_summary: false, mtime_secs: now - 3000 },
        RawLog { path: "/tmp/c.ndjson".to_string(), has_summary: true, mtime_secs: now - 1000 },
    ];

    let store = FakeStore::new(logs.clone());
    let raw = store.logs().expect("logs");
    let _plan = sweep(&raw, None, now, 120);

    assert_eq!(store.render_call_count(), 0, "coda audit must never call render()");
}

#[test]
fn no_orphans_plan_orphaned_is_zero() {
    let now = now_secs();
    let logs = vec![RawLog { path: "/tmp/x.ndjson".to_string(), has_summary: true, mtime_secs: now - 5000 }];
    let plan = sweep(&logs, None, now, 120);
    assert_eq!(plan.orphaned, 0, "no orphans expected");
}

#[test]
fn one_orphan_plan_orphaned_is_one() {
    let now = now_secs();
    let logs = vec![RawLog { path: "/tmp/x.ndjson".to_string(), has_summary: false, mtime_secs: now - 5000 }];
    let plan = sweep(&logs, None, now, 120);
    assert_eq!(plan.orphaned, 1, "one orphan expected");
}

#[test]
fn fsstore_output_is_sorted_by_path() {
    let dir = "/tmp/coda_sorted";
    let store = FsStore::new(dir.to_string());
    let listing = DirListing::Entries(vec![
        entry(dir, "zzz.ndjson", 100, false),
        entry(dir, "aaa.ndjson", 200, false),
        entry(dir, "mmm.ndjson", 300, false),
    ]);
    let logs = store.logs_from_listing(listing).expect("logs");
    let names: Vec<_> = logs.iter().map(|l| l.path.rsplit('/').next().unwrap()).collect();
    assert_eq!(names, ["aaa.ndjson", "mmm.ndjson", "zzz.ndjson"]);
}

#[test]
fn summary_path_is_the_sibling_summary_md() {
    assert_eq!(summary_path("/s/idem.ndjson"), "/s/idem.summary.md");
    assert_eq!(summary_path("/s/x"), "/s/x.summary.md");
}
