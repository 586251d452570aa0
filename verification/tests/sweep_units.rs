//! Classification of single logs and small sets by `sweep`.

use coda::{sweep, DebtClass, RawLog, SweepAction};

fn make_raw(path: &str, has_summary: bool, mtime_secs: u64) -> RawLog {
    RawLog {
        path: path.to_string(),
        has_summary,
        mtime_secs,
    }
}

#[test]
fn active_log_is_noop_even_without_summary() {
    let now = 1000u64;
    let active = "/sessions/active.ndjson".to_string();
    let logs = vec![make_raw("/sessions/active.ndjson", false, now - 50)];
    let plan = sweep(&logs, Some(active.as_str()), now, 120);
    assert_eq!(plan.total, 1);
    assert_eq!(plan.orphaned, 0);
    assert!(matches!(plan.logs[0].debt, DebtClass::Active));
    assert!(matches!(plan.actions[0], SweepAction::NoOp { .. }));
}

#[test]
fn fresh_log_is_skipped() {
    let now = 1000u64;
    let logs = vec![make_raw("/sessions/new.ndjson", false, now - 60)];
    let plan = sweep(&logs, None, now, 120);
    assert_eq!(plan.fresh, 1);
    assert_eq!(plan.orphaned, 0);
    assert!(matches!(plan.logs[0].debt, DebtClass::Fresh { age_secs: 60 }));
    assert!(matches!(plan.actions[0], SweepAction::Skip { .. }));
}

#[test]
fn orphaned_log_is_rendered() {
    let now = 1000u64;
    let logs = vec![make_raw("/sessions/old.ndjson", false, now - 300)];
    let plan = sweep(&logs, None, now, 120);
    assert_eq!(plan.orphaned, 1);
    assert!(matches!(plan.logs[0].debt, DebtClass::Orphaned { age_secs: 300 }));
    assert!(matches!(plan.actions[0], SweepAction::Render { .. }));
}

#[test]
fn settled_log_is_noop() {
    let now = 1000u64;
    let logs = vec![make_raw("/sessions/done.ndjson", true, now - 500)];
    let plan = sweep(&logs, None, now, 120);
    assert_eq!(plan.settled, 1);
    assert_eq!(plan.orphaned, 0);
    assert!(matches!(plan.logs[0].debt, DebtClass::Settled));
    assert!(matches!(plan.actions[0], SweepAction::NoOp { .. }));
}

#[test]
fn grace_boundary_exactly_at_grace_is_orphaned() {
    // age == grace -> Orphaned (strict less-than for Fresh)
    let now = 1000u64;
    let grace = 120u64;
    let logs = vec![make_raw("/sessions/boundary.ndjson", false, now - grace)];
    let plan = sweep(&logs, None, now, grace);
    assert!(matches!(plan.logs[0].debt, DebtClass::Orphaned { .. }));
}

#[test]
fn future_mtime_age_is_zero() {
    // mtime in the future -> age 0 -> Fresh
    let now = 1000u64;
    let logs = vec![make_raw("/sessions/future.ndjson", false, now + 100)];
    let plan = sweep(&logs, None, now, 120);
    assert!(matches!(plan.logs[0].debt, DebtClass::Fresh { age_secs: 0 }));
}

#[test]
fn empty_logs_returns_empty_plan() {
    let plan = sweep(&[], None, 1000, 120);
    assert_eq!(plan.total, 0);
    assert_eq!(plan.orphaned, 0);
    assert!(plan.actions.is_empty());
}

#[test]
fn tallies_are_correct_for_mixed_set() {
    let now = 2000u64;
    let active = "/sessions/a.ndjson".to_string();
    let logs = vec![
        make_raw("/sessions/a.ndjson", false, now - 10),  // active
        make_raw("/sessions/b.ndjson", false, now - 60),  // fresh
        make_raw("/sessions/c.ndjson", false, now - 300), // orphaned
        make_raw("/sessions/d.ndjson", true, now - 500),  // settled
    ];
    let plan = sweep(&logs, Some(active.as_str()), now, 120);
    assert_eq!(plan.total, 4);
    assert_eq!(plan.orphaned, 1);
    assert_eq!(plan.fresh, 1);
    assert_eq!(plan.settled, 1);
}
