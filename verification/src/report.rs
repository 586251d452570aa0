//! The text `coda plan` and `coda audit` print about a sweep plan, as lines
//! (without line terminators).

use vstd::prelude::*;

use crate::close::views;
use crate::paths::{file_name_of, path_file_name};
use crate::store::RawLog;
use crate::sweep::{
    count_where, is_fresh_class, is_orphaned_class, is_settled_class, is_sweep_of, log_fits, spec_debts, DebtClass, SessionLog, SweepAction,
    SweepPlan,
};
use crate::text::{decimal, pad_right, repeat_str, spec_decimal, spec_pad, spec_repeat};

verus! {

broadcast use vstd::string::group_string_axioms;

/// Name of a class in the tables.
pub open spec fn state_name(d: DebtClass) -> Seq<char> {
    match d {
        DebtClass::Active => "active"@,
        DebtClass::Fresh { .. } => "fresh"@,
        DebtClass::Orphaned { .. } => "orphaned"@,
        DebtClass::Settled => "settled"@,
    }
}

/// Name of an action in the tables.
pub open spec fn action_name(a: SweepAction) -> Seq<char> {
    match a {
        SweepAction::Render { .. } => "render"@,
        SweepAction::Skip { .. } => "skip"@,
        SweepAction::NoOp { .. } => "noop"@,
    }
}

/// How a log is named in the tables: its file name, or the whole path when
/// it has none.
pub open spec fn display_name(path: Seq<char>) -> Seq<char> {
    match path_file_name(path) {
        Some(n) => n,
        None => path,
    }
}

/// One row of a table: four left-aligned columns 60, 10, 10 and 10 wide.
pub open spec fn spec_row(a: Seq<char>, b: Seq<char>, c: Seq<char>, d: Seq<char>) -> Seq<char> {
    spec_pad(a, 60) + " "@ + spec_pad(b, 10) + " "@ + spec_pad(c, 10) + " "@ + spec_pad(d, 10)
}

/// The header row of a table.
pub open spec fn header_row() -> Seq<char> {
    spec_row("log"@, "state"@, "age_sec"@, "action"@)
}

/// The rule above and below the rows of a table.
pub open spec fn rule() -> Seq<char> {
    spec_repeat('-', 95)
}

/// The row of one log and its action.
pub open spec fn log_row(log: SessionLog, action: SweepAction) -> Seq<char> {
    spec_row(
        display_name(log.path@),
        state_name(log.debt),
        spec_decimal(log.age_secs as nat),
        action_name(action),
    )
}

/// Number of rows of a plan's table: one per log that has an action.
pub open spec fn row_count(plan: SweepPlan) -> nat {
    if plan.logs@.len() <= plan.actions@.len() {
        plan.logs@.len()
    } else {
        plan.actions@.len()
    }
}

/// The rows of a plan's table, in plan order.
pub open spec fn log_rows(plan: SweepPlan) -> Seq<Seq<char>> {
    Seq::new(row_count(plan), |i: int| log_row(plan.logs@[i], plan.actions@[i]))
}

pub open spec fn dec(n: usize) -> Seq<char> {
    spec_decimal(n as nat)
}

/// The closing line of `coda plan`'s table.
pub open spec fn totals_line(plan: SweepPlan) -> Seq<char> {
    "total="@ + dec(plan.total) + " orphaned="@ + dec(plan.orphaned) + " fresh="@ + dec(plan.fresh)
        + " settled="@ + dec(plan.settled)
}

/// `coda plan`'s table: header, rule, one row per log, rule, totals.
pub open spec fn spec_plan_table(plan: SweepPlan) -> Seq<Seq<char>> {
    seq![header_row(), rule()] + log_rows(plan) + seq![rule(), totals_line(plan)]
}

/// The oldest age among the orphaned logs, if any.
pub open spec fn oldest_orphan(logs: Seq<SessionLog>) -> Option<u64>
    decreases logs.len(),
{
    if logs.len() == 0 {
        None
    } else {
        let rest = oldest_orphan(logs.drop_last());
        match logs.last().debt {
            DebtClass::Orphaned { age_secs } => match rest {
                Some(m) => if age_secs > m {
                    Some(age_secs)
                } else {
                    Some(m)
                },
                None => Some(age_secs),
            },
            _ => rest,
        }
    }
}

/// The tally line of `coda audit`.
pub open spec fn audit_tally_line(plan: SweepPlan) -> Seq<char> {
    dec(plan.orphaned) + " orphaned, "@ + dec(plan.fresh) + " fresh, "@ + dec(plan.settled)
        + " settled / "@ + dec(plan.total) + " total"@
}

/// `coda audit`'s report: the tally line, the age of the oldest orphan when
/// there is one, and with `verbose` a blank line and the table of logs.
pub open spec fn spec_audit_report(plan: SweepPlan, verbose: bool) -> Seq<Seq<char>> {
    let head = seq![audit_tally_line(plan)];
    let oldest = match oldest_orphan(plan.logs@) {
        Some(age) => seq!["oldest orphan: "@ + spec_decimal(age as nat) + "s ago"@],
        None => Seq::empty(),
    };
    let table = if verbose {
        seq![Seq::empty(), header_row(), rule()] + log_rows(plan) + seq![rule()]
    } else {
        Seq::empty()
    };
    head + oldest + table
}

/// The paths of the orphaned logs, in plan order.
pub open spec fn orphan_paths(logs: Seq<SessionLog>) -> Seq<Seq<char>>
    decreases logs.len(),
{
    if logs.len() == 0 {
        Seq::empty()
    } else {
        let rest = orphan_paths(logs.drop_last());
        if logs.last().debt is Orphaned {
            rest.push(logs.last().path@)
        } else {
            rest
        }
    }
}

fn state_str(d: DebtClass) -> (s: &'static str)
    ensures
        s@ == state_name(d),
{
    match d {
        DebtClass::Active => "active",
        DebtClass::Fresh { .. } => "fresh",
        DebtClass::Orphaned { .. } => "orphaned",
        DebtClass::Settled => "settled",
    }
}

fn action_str(a: &SweepAction) -> (s: &'static str)
    ensures
        s@ == action_name(*a),
{
    match a {
        SweepAction::Render { .. } => "render",
        SweepAction::Skip { .. } => "skip",
        SweepAction::NoOp { .. } => "noop",
    }
}

fn name_of(path: &str) -> (s: String)
    ensures
        s@ == display_name(path@),
{
    match file_name_of(path) {
        Some(n) => n,
        None => String::from_str(path),
    }
}

fn row(a: &str, b: &str, c: &str, d: &str) -> (s: String)
    ensures
        s@ == spec_row(a@, b@, c@, d@),
{
    let mut s = pad_right(a, 60);
    s.append(" ");
    let pb = pad_right(b, 10);
    s.append(pb.as_str());
    s.append(" ");
    let pc = pad_right(c, 10);
    s.append(pc.as_str());
    s.append(" ");
    let pd = pad_right(d, 10);
    s.append(pd.as_str());
    s
}

fn rule_line() -> (s: String)
    ensures
        s@ == rule(),
{
    proof {
        reveal_strlit("-");
    }
    let s = repeat_str("-", 95);
    assert(s@ =~= rule());
    s
}

/// Append the rows of `plan`'s table to `lines`.
fn push_rows(lines: &mut Vec<String>, plan: &SweepPlan)
    ensures
        views(final(lines)@) == views(old(lines)@) + log_rows(*plan),
{
    let n = if plan.logs.len() <= plan.actions.len() {
        plan.logs.len()
    } else {
        plan.actions.len()
    };
    let ghost start = views(lines@);
    let mut i: usize = 0;
    while i < n
        invariant
            n == row_count(*plan),
            i <= n,
            views(lines@) == start + log_rows(*plan).take(i as int),
        decreases n - i,
    {
        let log = &plan.logs[i];
        let name = name_of(log.path.as_str());
        let age = decimal(log.age_secs);
        let r = row(name.as_str(), state_str(log.debt), age.as_str(), action_str(&plan.actions[i]));
        let ghost before = lines@;
        lines.push(r);
        proof {
            assert(views(lines@) =~= views(before).push(r@));
            assert(log_rows(*plan).take(i + 1) =~= log_rows(*plan).take(i as int).push(
                log_rows(*plan)[i as int],
            ));
        }
        i = i + 1;
    }
    assert(log_rows(*plan).take(n as int) =~= log_rows(*plan));
}

fn push_line(lines: &mut Vec<String>, line: String)
    ensures
        views(final(lines)@) == views(old(lines)@).push(line@),
{
    lines.push(line);
    assert(views(lines@) =~= views(old(lines)@).push(line@));
}

/// The lines of `coda plan`'s table for `plan`.
pub fn plan_table(plan: &SweepPlan) -> (lines: Vec<String>)
    ensures
        views(lines@) == spec_plan_table(*plan),
{
    let mut lines: Vec<String> = Vec::new();
    push_line(&mut lines, row("log", "state", "age_sec", "action"));
    push_line(&mut lines, rule_line());
    push_rows(&mut lines, plan);
    push_line(&mut lines, rule_line());
    let mut totals = String::from_str("total=");
    let t = decimal(plan.total as u64);
    totals.append(t.as_str());
    totals.append(" orphaned=");
    let o = decimal(plan.orphaned as u64);
    totals.append(o.as_str());
    totals.append(" fresh=");
    let f = decimal(plan.fresh as u64);
    totals.append(f.as_str());
    totals.append(" settled=");
    let s = decimal(plan.settled as u64);
    totals.append(s.as_str());
    push_line(&mut lines, totals);
    assert(views(lines@) =~= spec_plan_table(*plan));
    lines
}

/// The oldest age among the orphaned logs of `plan`, if any.
pub fn oldest_orphan_age(plan: &SweepPlan) -> (r: Option<u64>)
    ensures
        r == oldest_orphan(plan.logs@),
{
    let mut best: Option<u64> = None;
    let n = plan.logs.len();
    let mut i: usize = 0;
    while i < n
        invariant
            n == plan.logs@.len(),
            i <= n,
            best == oldest_orphan(plan.logs@.take(i as int)),
        decreases n - i,
    {
        proof {
            assert(plan.logs@.take(i + 1).drop_last() =~= plan.logs@.take(i as int));
        }
        match plan.logs[i].debt {
            DebtClass::Orphaned { age_secs } => {
                best = match best {
                    Some(m) => if age_secs > m {
                        Some(age_secs)
                    } else {
                        Some(m)
                    },
                    None => Some(age_secs),
                };
            },
            _ => {},
        }
        i = i + 1;
    }
    assert(plan.logs@.take(n as int) =~= plan.logs@);
    best
}

/// The lines of `coda audit`'s report for `plan`.
pub fn audit_report(plan: &SweepPlan, verbose: bool) -> (lines: Vec<String>)
    ensures
        views(lines@) == spec_audit_report(*plan, verbose),
{
    let mut lines: Vec<String> = Vec::new();
    let mut tally = decimal(plan.orphaned as u64);
    tally.append(" orphaned, ");
    let f = decimal(plan.fresh as u64);
    tally.append(f.as_str());
    tally.append(" fresh, ");
    let s = decimal(plan.settled as u64);
    tally.append(s.as_str());
    tally.append(" settled / ");
    let t = decimal(plan.total as u64);
    tally.append(t.as_str());
    tally.append(" total");
    push_line(&mut lines, tally);
    let ghost after_tally = views(lines@);
    match oldest_orphan_age(plan) {
        Some(age) => {
            let mut line = String::from_str("oldest orphan: ");
            let a = decimal(age);
            line.append(a.as_str());
            line.append("s ago");
            push_line(&mut lines, line);
        },
        None => {},
    }
    let ghost after_oldest = views(lines@);
    if verbose {
        push_line(&mut lines, String::new());
        push_line(&mut lines, row("log", "state", "age_sec", "action"));
        push_line(&mut lines, rule_line());
        push_rows(&mut lines, plan);
        push_line(&mut lines, rule_line());
    }
    assert(views(lines@) =~= spec_audit_report(*plan, verbose));
    lines
}

/// The lines of `coda audit --orphaned-only`: the path of each orphaned
/// log, in plan order.
pub fn orphaned_only(plan: &SweepPlan) -> (lines: Vec<String>)
    ensures
        views(lines@) == orphan_paths(plan.logs@),
{
    let mut lines: Vec<String> = Vec::new();
    let n = plan.logs.len();
    let mut i: usize = 0;
    while i < n
        invariant
            n == plan.logs@.len(),
            i <= n,
            views(lines@) == orphan_paths(plan.logs@.take(i as int)),
        decreases n - i,
    {
        proof {
            assert(plan.logs@.take(i + 1).drop_last() =~= plan.logs@.take(i as int));
        }
        match plan.logs[i].debt {
            DebtClass::Orphaned { .. } => {
                push_line(&mut lines, plan.logs[i].path.clone());
            },
            _ => {},
        }
        i = i + 1;
    }
    assert(plan.logs@.take(n as int) =~= plan.logs@);
    lines
}

proof fn lemma_orphan_paths_count(logs: Seq<SessionLog>)
    ensures
        orphan_paths(logs).len() == count_where(
            logs.map_values(|l: SessionLog| l.debt),
            |c: DebtClass| is_orphaned_class(c),
        ),
    decreases logs.len(),
{
    if logs.len() > 0 {
        lemma_orphan_paths_count(logs.drop_last());
        assert(logs.map_values(|l: SessionLog| l.debt).drop_last() =~= logs.drop_last().map_values(
            |l: SessionLog| l.debt,
        ));
    }
}

/// `coda audit --orphaned-only` prints one line per orphan: as many paths as
/// the plan's `orphaned` tally.
pub proof fn law_orphaned_only_lists_every_orphan(
    plan: SweepPlan,
    logs: Seq<RawLog>,
    active: Option<Seq<char>>,
    now: u64,
    grace: u64,
)
    requires
        is_sweep_of(plan, logs, active, now, grace),
    ensures
        orphan_paths(plan.logs@).len() == plan.orphaned,
{
    lemma_orphan_paths_count(plan.logs@);
    assert forall|i: int| 0 <= i < logs.len() implies plan.logs@.map_values(|l: SessionLog| l.debt)[i]
        == #[trigger] spec_debts(logs, active, now, grace)[i] by {
        assert(log_fits(plan.logs@[i], logs[i], active, now, grace));
    }
    assert(plan.logs@.map_values(|l: SessionLog| l.debt) =~= spec_debts(logs, active, now, grace));
}

/// The oldest orphan is the largest age among the orphaned logs: when some
/// log is `Orphaned`, the age found is the age of an `Orphaned` log and no
/// `Orphaned` log is older; there is none exactly when no log is
/// `Orphaned`.
pub proof fn law_oldest_orphan_is_the_largest_age(logs: Seq<SessionLog>)
    ensures
        oldest_orphan(logs) is None <==> forall|i: int|
            0 <= i < logs.len() ==> !((#[trigger] logs[i]).debt is Orphaned),
        oldest_orphan(logs) matches Some(m) ==> exists|i: int|
            0 <= i < logs.len() && (#[trigger] logs[i]).debt == (DebtClass::Orphaned { age_secs: m }),
        forall|i: int|
            0 <= i < logs.len() && (#[trigger] logs[i]).debt is Orphaned ==> (oldest_orphan(logs) matches Some(
                m,
            ) && logs[i].debt->Orphaned_age_secs <= m),
    decreases logs.len(),
{
    if logs.len() > 0 {
        let rest = logs.drop_last();
        law_oldest_orphan_is_the_largest_age(rest);
        assert forall|i: int| 0 <= i < rest.len() implies #[trigger] rest[i] == logs[i] by {}
        let last = logs.len() - 1;
        assert(logs[last] == logs.last());
        if oldest_orphan(logs) is Some {
            let m = oldest_orphan(logs)->0;
            if logs.last().debt is Orphaned && (oldest_orphan(rest) is None || logs.last().debt->Orphaned_age_secs
                > oldest_orphan(rest)->0) {
                assert(logs[last].debt == (DebtClass::Orphaned { age_secs: m }));
            } else {
                let j = choose|j: int|
                    0 <= j < rest.len() && (#[trigger] rest[j]).debt == (DebtClass::Orphaned { age_secs: m });
                assert(logs[j].debt == (DebtClass::Orphaned { age_secs: m }));
            }
        }
        assert forall|i: int| 0 <= i < logs.len() && (#[trigger] logs[i]).debt is Orphaned implies (oldest_orphan(
            logs,
        ) matches Some(m) && logs[i].debt->Orphaned_age_secs <= m) by {
            if i < last {
                assert(rest[i].debt is Orphaned);
            }
        }
        if forall|i: int| 0 <= i < logs.len() ==> !((#[trigger] logs[i]).debt is Orphaned) {
            assert(!(logs[last].debt is Orphaned));
            assert forall|i: int| 0 <= i < rest.len() implies !((#[trigger] rest[i]).debt is Orphaned) by {
                assert(!(logs[i].debt is Orphaned));
            }
        }
    }
}

/// `coda audit` names the oldest orphan: when some log is `Orphaned`, its
/// second line gives the largest age among the orphaned logs; when none is,
/// the report holds only the tally line (and the table, with `verbose`).
pub proof fn law_audit_names_the_oldest_orphan(plan: SweepPlan, verbose: bool)
    ensures
        (exists|i: int| 0 <= i < plan.logs@.len() && (#[trigger] plan.logs@[i]).debt is Orphaned) ==> exists|m: u64|
            {
                &&& spec_audit_report(plan, verbose)[1] == "oldest orphan: "@ + spec_decimal(m as nat) + "s ago"@
                &&& exists|i: int|
                    0 <= i < plan.logs@.len() && (#[trigger] plan.logs@[i]).debt == (DebtClass::Orphaned {
                        age_secs: m,
                    })
                &&& forall|i: int|
                    0 <= i < plan.logs@.len() && (#[trigger] plan.logs@[i]).debt is Orphaned
                        ==> plan.logs@[i].debt->Orphaned_age_secs <= m
            },
        !verbose && (forall|i: int|
            0 <= i < plan.logs@.len() ==> !((#[trigger] plan.logs@[i]).debt is Orphaned)) ==> spec_audit_report(
            plan,
            verbose,
        ).len() == 1,
{
    law_oldest_orphan_is_the_largest_age(plan.logs@);
    if exists|i: int| 0 <= i < plan.logs@.len() && (#[trigger] plan.logs@[i]).debt is Orphaned {
        let i = choose|i: int| 0 <= i < plan.logs@.len() && (#[trigger] plan.logs@[i]).debt is Orphaned;
        let m = oldest_orphan(plan.logs@)->0;
        let r = spec_audit_report(plan, verbose);
        assert(r[1] == "oldest orphan: "@ + spec_decimal(m as nat) + "s ago"@);
    }
}

/// The totals `coda plan` and `coda audit` print count the logs of each
/// class: the number after `total=` is the number of logs, after
/// `orphaned=`, `fresh=` and `settled=` the number of logs in that class; the
/// audit tally line gives the same counts.
pub proof fn law_totals_count_each_class(
    plan: SweepPlan,
    logs: Seq<RawLog>,
    active: Option<Seq<char>>,
    now: u64,
    grace: u64,
    verbose: bool,
)
    requires
        is_sweep_of(plan, logs, active, now, grace),
    ensures
        spec_plan_table(plan).last() == "total="@ + spec_decimal(logs.len()) + " orphaned="@ + spec_decimal(
            count_where(spec_debts(logs, active, now, grace), |c: DebtClass| c is Orphaned),
        ) + " fresh="@ + spec_decimal(
            count_where(spec_debts(logs, active, now, grace), |c: DebtClass| c is Fresh),
        ) + " settled="@ + spec_decimal(
            count_where(spec_debts(logs, active, now, grace), |c: DebtClass| c is Settled),
        ),
        spec_audit_report(plan, verbose)[0] == spec_decimal(
            count_where(spec_debts(logs, active, now, grace), |c: DebtClass| c is Orphaned),
        ) + " orphaned, "@ + spec_decimal(
            count_where(spec_debts(logs, active, now, grace), |c: DebtClass| c is Fresh),
        ) + " fresh, "@ + spec_decimal(
            count_where(spec_debts(logs, active, now, grace), |c: DebtClass| c is Settled),
        ) + " settled / "@ + spec_decimal(logs.len()) + " total"@,
{
    let debts = spec_debts(logs, active, now, grace);
    assert((|c: DebtClass| c is Orphaned) =~= (|c: DebtClass| is_orphaned_class(c)));
    assert((|c: DebtClass| c is Fresh) =~= (|c: DebtClass| is_fresh_class(c)));
    assert((|c: DebtClass| c is Settled) =~= (|c: DebtClass| is_settled_class(c)));
}

/// `coda audit --orphaned-only` lists the paths of exactly the orphaned
/// logs, in plan order: each orphaned log once, no other log.
pub proof fn law_orphaned_only_lists_exactly_the_orphans(logs: Seq<SessionLog>)
    ensures
        orphan_paths(logs) == logs.filter(|l: SessionLog| l.debt is Orphaned).map_values(
            |l: SessionLog| l.path@,
        ),
    decreases logs.len(),
{
    reveal(Seq::filter);
    if logs.len() > 0 {
        law_orphaned_only_lists_exactly_the_orphans(logs.drop_last());
        let f = logs.drop_last().filter(|l: SessionLog| l.debt is Orphaned);
        if logs.last().debt is Orphaned {
            assert(f.push(logs.last()).map_values(|l: SessionLog| l.path@) =~= f.map_values(
                |l: SessionLog| l.path@,
            ).push(logs.last().path@));
        }
    }
}

} // verus!
