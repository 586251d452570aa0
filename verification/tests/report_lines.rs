//! The text of `coda plan` and `coda audit`.

use coda::report::{audit_report, oldest_orphan_age, plan_table};
use coda::text::{decimal, pad_right, repeat_str, signed_decimal};
use coda::{sweep, RawLog};

fn raw(path: &str, has_summary: bool, mtime_secs: u64) -> RawLog {
    RawLog { path: path.to_string(), has_summary, mtime_secs }
}

fn row(a: &str, b: &str, c: &str, d: &str) -> String {
    format!("{:<60} {:<10} {:<10} {:<10}", a, b, c, d)
}

#[test]
fn numbers_and_padding_match_std_formatting() {
    for n in [0u64, 7, 10, 120, 4_294_967_296, u64::MAX] {
        assert_eq!(decimal(n), n.to_string());
    }
    for x in [0i64, -1, 42, i64::MIN, i64::MAX] {
        assert_eq!(signed_decimal(x), x.to_string());
    }
    assert_eq!(pad_right("ab", 5), format!("{:<5}", "ab"));
    assert_eq!(pad_right("abcdef", 3), "abcdef");
    assert_eq!(pad_right("héé", 5), format!("{:<5}", "héé"));
    assert_eq!(repeat_str("-", 95), "-".repeat(95));
}

#[test]
fn plan_table_lists_every_log() {
    let now = 2000u64;
    let active = "/sessions/a.ndjson".to_string();
    let logs = vec![
        raw("/sessions/a.ndjson", false, now - 10),
        raw("/sessions/b.ndjson", false, now - 60),
        raw("/sessions/c.ndjson", false, now - 300),
        raw("/sessions/d.ndjson", true, now - 500),
    ];
    let plan = sweep(&logs, Some(active.as_str()), now, 120);
    let rule = "-".repeat(95);
    let expected = vec![
        row("log", "state", "age_sec", "action"),
        rule.clone(),
        row("a.ndjson", "active", "10", "noop"),
        row("b.ndjson", "fresh", "60", "skip"),
        row("c.ndjson", "orphaned", "300", "render"),
        row("d.ndjson", "settled", "500", "noop"),
        rule,
        "total=4 orphaned=1 fresh=1 settled=1".to_string(),
    ];
    assert_eq!(plan_table(&plan), expected);
}

#[test]
fn audit_report_tallies_and_oldest_orphan() {
    let now = 10_000u64;
    let logs = vec![
        raw("/s/x.ndjson", false, now - 300),
        raw("/s/y.ndjson", false, now - 9_000),
        raw("/s/z.ndjson", true, now - 50),
    ];
    let plan = sweep(&logs, None, now, 120);
    assert_eq!(oldest_orphan_age(&plan), Some(9_000));
    assert_eq!(
        audit_report(&plan, false),
        vec!["2 orphaned, 0 fresh, 1 settled / 3 total".to_string(), "oldest orphan: 9000s ago".to_string()]
    );
    let verbose = audit_report(&plan, true);
    assert_eq!(verbose.len(), 2 + 3 + 3 + 1);
    assert_eq!(verbose[2], "");
    assert_eq!(verbose[3], row("log", "state", "age_sec", "action"));
    assert_eq!(verbose[5], row("x.ndjson", "orphaned", "300", "render"));
    assert_eq!(verbose[8], "-".repeat(95));
}

#[test]
fn audit_report_without_orphans_has_no_oldest_line() {
    let plan = sweep(&[raw("/s/x.ndjson", true, 0)], None, 100, 120);
    assert_eq!(oldest_orphan_age(&plan), None);
    assert_eq!(audit_report(&plan, false), vec!["0 orphaned, 0 fresh, 1 settled / 1 total".to_string()]);
}

#[test]
fn paths_without_file_name_are_shown_whole() {
    let plan = sweep(&[raw("/", true, 0), raw("/s/..", true, 0)], None, 100, 120);
    let table = plan_table(&plan);
    assert_eq!(table[2], row("/", "settled", "100", "noop"));
    assert_eq!(table[3], row("/s/..", "settled", "100", "noop"));
}

#[test]
fn exit_code_flags_orphans() {
    let clean = sweep(&[raw("/s/x.ndjson", true, 0)], None, 100, 120);
    assert_eq!(clean.exit_code(), 0);
    let debt = sweep(&[raw("/s/x.ndjson", false, 0)], None, 1_000, 120);
    assert_eq!(debt.exit_code(), 1);
    let empty = sweep(&[], None, 0, 0);
    assert_eq!(empty.exit_code(), 0);
}
