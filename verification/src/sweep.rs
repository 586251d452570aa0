//! The sweep: classification of raw log observations into a plan.
//!
//! `sweep` takes the raw observations, the path of the log ctrace is writing
//! right now, the current unix time and a grace period, and returns a
//! `SweepPlan` describing every log. It touches nothing outside its
//! arguments.

use vstd::prelude::*;

use crate::paths::{path_equiv, same_path};
use crate::store::RawLog;

verus! {

/// Whether a `.summary.md` file exists beside the log.
#[derive(Debug, Clone, Copy, PartialEq, Eq, Structural)]
pub enum SummaryState {
    /// A `.summary.md` file exists beside the `.ndjson`.
    Present,
    /// No `.summary.md` file found beside the `.ndjson`.
    Missing,
}

/// Debt classification for a single log.
#[derive(Debug, Clone, Copy, PartialEq, Eq, Structural)]
pub enum DebtClass {
    /// The live ctrace log currently being written. Never touch.
    Active,
    /// Summary missing but the log is younger than the grace period;
    /// the `SessionEnd` hook may still fire.
    Fresh {
        /// Age of the log in seconds at classification time.
        age_secs: u64,
    },
    /// Summary missing and at least as old as the grace period: real debt.
    Orphaned {
        /// Age of the log in seconds at classification time.
        age_secs: u64,
    },
    /// A `.summary.md` already exists: nothing to do.
    Settled,
}

/// One log as seen through the classification model.
#[derive(Debug, Clone, PartialEq, Eq)]
pub struct SessionLog {
    /// Path to the `.ndjson` log file.
    pub path: String,
    /// Whether a summary exists.
    pub summary: SummaryState,
    /// Age of the log at classification time (seconds since last write).
    pub age_secs: u64,
    /// True if this is the currently-active ctrace log.
    pub is_active: bool,
    /// The debt classification.
    pub debt: DebtClass,
}

/// What `sweep` recommends doing with a single log.
#[derive(Debug, Clone, PartialEq, Eq)]
pub enum SweepAction {
    /// Render this log's summary.
    Render {
        /// Path to the log to render.
        path: String,
    },
    /// Skip this log for now.
    Skip {
        /// Path to the skipped log.
        path: String,
        /// Human-readable reason for skipping.
        reason: String,
    },
    /// Nothing to do.
    NoOp {
        /// Path to the log.
        path: String,
    },
}

/// The result of `sweep`: a declarative plan with tallies.
#[derive(Debug, Clone, PartialEq, Eq)]
pub struct SweepPlan {
    /// Per-log actions, one per input log.
    pub actions: Vec<SweepAction>,
    /// Classified `SessionLog`s, parallel to `actions`.
    pub logs: Vec<SessionLog>,
    /// Number of logs classified as `Orphaned`.
    pub orphaned: usize,
    /// Number of logs classified as `Fresh`.
    pub fresh: usize,
    /// Number of logs classified as `Settled`.
    pub settled: usize,
    /// Total number of logs classified.
    pub total: usize,
}

// ----------------------------------------------------------------------------
// The classification, as mathematics
// ----------------------------------------------------------------------------

/// The active-log argument of `sweep`, as a string.
pub open spec fn opt_view(active: Option<&str>) -> Option<Seq<char>> {
    match active {
        Some(a) => Some(a@),
        None => None,
    }
}

/// Age of a log: seconds from its mtime to `now`, or 0 for an mtime in the
/// future.
pub open spec fn spec_age(now: u64, mtime: u64) -> u64 {
    if mtime <= now {
        (now - mtime) as u64
    } else {
        0
    }
}

/// Whether `path` is the active log.
pub open spec fn spec_is_active(active: Option<Seq<char>>, path: Seq<char>) -> bool {
    match active {
        Some(a) => path_equiv(a, path),
        None => false,
    }
}

/// The summary state that `has_summary` stands for.
pub open spec fn spec_summary(has_summary: bool) -> SummaryState {
    if has_summary {
        SummaryState::Present
    } else {
        SummaryState::Missing
    }
}

/// The classification rule: the active log is `Active`; otherwise a log with
/// a summary is `Settled`; otherwise it is `Fresh` while strictly younger than
/// the grace period and `Orphaned` from then on.
pub open spec fn spec_classify(is_active: bool, has_summary: bool, age: u64, grace: u64) -> DebtClass {
    if is_active {
        DebtClass::Active
    } else if has_summary {
        DebtClass::Settled
    } else if age < grace {
        DebtClass::Fresh { age_secs: age }
    } else {
        DebtClass::Orphaned { age_secs: age }
    }
}

/// The class `sweep` gives to one raw log.
pub open spec fn spec_debt(raw: RawLog, active: Option<Seq<char>>, now: u64, grace: u64) -> DebtClass {
    spec_classify(
        spec_is_active(active, raw.path@),
        raw.has_summary,
        spec_age(now, raw.mtime_secs),
        grace,
    )
}

/// The classes of all raw logs, in order.
pub open spec fn spec_debts(logs: Seq<RawLog>, active: Option<Seq<char>>, now: u64, grace: u64) -> Seq<DebtClass> {
    logs.map_values(|raw: RawLog| spec_debt(raw, active, now, grace))
}

/// Number of classes in `d` that satisfy `pred`.
pub open spec fn count_where(d: Seq<DebtClass>, pred: spec_fn(DebtClass) -> bool) -> nat
    decreases d.len(),
{
    if d.len() == 0 {
        0
    } else {
        count_where(d.drop_last(), pred) + if pred(d.last()) { 1nat } else { 0nat }
    }
}

pub open spec fn is_active_class(c: DebtClass) -> bool {
    c is Active
}

pub open spec fn is_fresh_class(c: DebtClass) -> bool {
    c is Fresh
}

pub open spec fn is_orphaned_class(c: DebtClass) -> bool {
    c is Orphaned
}

pub open spec fn is_settled_class(c: DebtClass) -> bool {
    c is Settled
}

/// The reason carried by every `Skip` action.
pub open spec fn skip_reason() -> Seq<char> {
    "session may still be active or hook may still fire"@
}

/// The path an action is about.
pub open spec fn action_path(action: SweepAction) -> Seq<char> {
    match action {
        SweepAction::Render { path } => path@,
        SweepAction::Skip { path, .. } => path@,
        SweepAction::NoOp { path } => path@,
    }
}

/// The action that goes with a class: `Render` for `Orphaned`, `Skip` (with
/// the fixed reason) for `Fresh`, `NoOp` for `Active` and `Settled`.
pub open spec fn action_fits(action: SweepAction, debt: DebtClass) -> bool {
    match debt {
        DebtClass::Orphaned { .. } => action is Render,
        DebtClass::Fresh { .. } => action matches SweepAction::Skip { reason, .. } && reason@
            == skip_reason(),
        _ => action is NoOp,
    }
}

/// `log` is the classified form of `raw`.
pub open spec fn log_fits(log: SessionLog, raw: RawLog, active: Option<Seq<char>>, now: u64, grace: u64) -> bool {
    &&& log.path@ == raw.path@
    &&& log.summary == spec_summary(raw.has_summary)
    &&& log.age_secs == spec_age(now, raw.mtime_secs)
    &&& log.is_active == spec_is_active(active, raw.path@)
    &&& log.debt == spec_debt(raw, active, now, grace)
}

/// `plan` is the sweep of `logs`: one classified log and one action per
/// input, in input order, and tallies that count the classes.
pub open spec fn is_sweep_of(
    plan: SweepPlan,
    logs: Seq<RawLog>,
    active: Option<Seq<char>>,
    now: u64,
    grace: u64,
) -> bool {
    let debts = spec_debts(logs, active, now, grace);
    &&& plan.total == logs.len()
    &&& plan.logs@.len() == logs.len()
    &&& plan.actions@.len() == logs.len()
    &&& forall|i: int|
        0 <= i < logs.len() ==> #[trigger] log_fits(plan.logs@[i], logs[i], active, now, grace)
    &&& forall|i: int|
        0 <= i < logs.len() ==> {
            &&& action_fits(#[trigger] plan.actions@[i], debts[i])
            &&& action_path(plan.actions@[i]) == logs[i].path@
        }
    &&& plan.orphaned == count_where(debts, |c: DebtClass| is_orphaned_class(c))
    &&& plan.fresh == count_where(debts, |c: DebtClass| is_fresh_class(c))
    &&& plan.settled == count_where(debts, |c: DebtClass| is_settled_class(c))
}

// ----------------------------------------------------------------------------
// Executable classification
// ----------------------------------------------------------------------------

/// Classify a single log into a `DebtClass`: `Active` for the active log,
/// otherwise `Settled` with a summary, otherwise `Fresh` while strictly
/// younger than the grace period and `Orphaned` from then on.
pub fn classify(is_active: bool, summary: SummaryState, age_secs: u64, grace_secs: u64) -> (d: DebtClass)
    ensures
        d == spec_classify(is_active, summary == SummaryState::Present, age_secs, grace_secs),
{
    if is_active {
        return DebtClass::Active;
    }
    match summary {
        SummaryState::Present => DebtClass::Settled,
        SummaryState::Missing => {
            if age_secs < grace_secs {
                DebtClass::Fresh { age_secs }
            } else {
                DebtClass::Orphaned { age_secs }
            }
        },
    }
}

proof fn lemma_count_step(d: Seq<DebtClass>, i: int, pred: spec_fn(DebtClass) -> bool)
    requires
        0 <= i < d.len(),
    ensures
        count_where(d.take(i + 1), pred) == count_where(d.take(i), pred) + if pred(d[i]) {
            1nat
        } else {
            0nat
        },
{
    assert(d.take(i + 1).drop_last() =~= d.take(i));
}

proof fn lemma_count_bound(d: Seq<DebtClass>, pred: spec_fn(DebtClass) -> bool)
    ensures
        count_where(d, pred) <= d.len(),
    decreases d.len(),
{
    if d.len() > 0 {
        lemma_count_bound(d.drop_last(), pred);
    }
}

/// Classify a slice of raw log observations into a `SweepPlan`.
///
/// * `logs` — raw observations (path, `has_summary`, `mtime_secs`).
/// * `active_log` — path of the log ctrace is currently writing, if any.
/// * `now_secs` — current unix timestamp.
/// * `grace_secs` — missing-summary logs younger than this are `Fresh`.
///
/// An mtime later than `now_secs` counts as age 0.
pub fn sweep(logs: &[RawLog], active_log: Option<&str>, now_secs: u64, grace_secs: u64) -> (plan: SweepPlan)
    ensures
        is_sweep_of(plan, logs@, opt_view(active_log), now_secs, grace_secs),
{
    let ghost active = opt_view(active_log);
    let ghost debts = spec_debts(logs@, active, now_secs, grace_secs);
    let mut actions: Vec<SweepAction> = Vec::with_capacity(logs.len());
    let mut session_logs: Vec<SessionLog> = Vec::with_capacity(logs.len());
    let mut orphaned: usize = 0;
    let mut fresh: usize = 0;
    let mut settled: usize = 0;

    let n = logs.len();
    let mut i: usize = 0;
    while i < n
        invariant
            n == logs@.len(),
            0 <= i <= n,
            active == opt_view(active_log),
            debts == spec_debts(logs@, active, now_secs, grace_secs),
            session_logs@.len() == i,
            actions@.len() == i,
            forall|j: int|
                0 <= j < i ==> #[trigger] log_fits(
                    session_logs@[j],
                    logs@[j],
                    active,
                    now_secs,
                    grace_secs,
                ),
            forall|j: int|
                0 <= j < i ==> {
                    &&& action_fits(#[trigger] actions@[j], debts[j])
                    &&& action_path(actions@[j]) == logs@[j].path@
                },
            orphaned == count_where(debts.take(i as int), |c: DebtClass| is_orphaned_class(c)),
            fresh == count_where(debts.take(i as int), |c: DebtClass| is_fresh_class(c)),
            settled == count_where(debts.take(i as int), |c: DebtClass| is_settled_class(c)),
        decreases n - i,
    {
        let raw = &logs[i];
        let age_secs = if raw.mtime_secs <= now_secs {
            now_secs - raw.mtime_secs
        } else {
            0
        };
        let is_active = match active_log {
            Some(a) => same_path(a, raw.path.as_str()),
            None => false,
        };
        let summary = if raw.has_summary {
            SummaryState::Present
        } else {
            SummaryState::Missing
        };
        let debt = classify(is_active, summary, age_secs, grace_secs);
        assert(debt == debts[i as int]);

        proof {
            lemma_count_step(debts, i as int, |c: DebtClass| is_orphaned_class(c));
            lemma_count_step(debts, i as int, |c: DebtClass| is_fresh_class(c));
            lemma_count_step(debts, i as int, |c: DebtClass| is_settled_class(c));
            lemma_count_bound(debts.take(i as int), |c: DebtClass| is_orphaned_class(c));
            lemma_count_bound(debts.take(i as int), |c: DebtClass| is_fresh_class(c));
            lemma_count_bound(debts.take(i as int), |c: DebtClass| is_settled_class(c));
        }

        let action = match debt {
            DebtClass::Active => SweepAction::NoOp { path: raw.path.clone() },
            DebtClass::Fresh { .. } => {
                fresh = fresh + 1;
                SweepAction::Skip {
                    path: raw.path.clone(),
                    reason: String::from_str("session may still be active or hook may still fire"),
                }
            },
            DebtClass::Orphaned { .. } => {
                orphaned = orphaned + 1;
                SweepAction::Render { path: raw.path.clone() }
            },
            DebtClass::Settled => {
                settled = settled + 1;
                SweepAction::NoOp { path: raw.path.clone() }
            },
        };

        session_logs.push(SessionLog { path: raw.path.clone(), summary, age_secs, is_active, debt });
        actions.push(action);
        i = i + 1;
    }
    assert(debts.take(n as int) =~= debts);

    SweepPlan { actions, logs: session_logs, orphaned, fresh, settled, total: n }
}


impl SweepPlan {
    /// Process exit code for a plan: 1 when any log is `Orphaned`, 0 otherwise.
    pub fn exit_code(&self) -> (code: u8)
        ensures
            code == if self.orphaned > 0 { 1u8 } else { 0u8 },
    {
        if self.orphaned > 0 {
            1
        } else {
            0
        }
    }
}

// ----------------------------------------------------------------------------
// Counting lemmas
// ----------------------------------------------------------------------------

proof fn lemma_count_positive(d: Seq<DebtClass>, pred: spec_fn(DebtClass) -> bool)
    ensures
        count_where(d, pred) > 0 <==> exists|i: int| 0 <= i < d.len() && #[trigger] pred(d[i]),
    decreases d.len(),
{
    if d.len() > 0 {
        lemma_count_positive(d.drop_last(), pred);
        if count_where(d.drop_last(), pred) > 0 {
            let i = choose|i: int| 0 <= i < d.drop_last().len() && #[trigger] pred(d.drop_last()[i]);
            assert(pred(d[i]));
        }
        if exists|i: int| 0 <= i < d.len() && #[trigger] pred(d[i]) {
            let i = choose|i: int| 0 <= i < d.len() && #[trigger] pred(d[i]);
            if i < d.len() - 1 {
                assert(pred(d.drop_last()[i]));
            }
        }
    }
}

proof fn lemma_count_partition(d: Seq<DebtClass>)
    ensures
        count_where(d, |c: DebtClass| is_active_class(c)) + count_where(d, |c: DebtClass| is_fresh_class(c))
            + count_where(d, |c: DebtClass| is_orphaned_class(c)) + count_where(
            d,
            |c: DebtClass| is_settled_class(c),
        ) == d.len(),
    decreases d.len(),
{
    if d.len() > 0 {
        lemma_count_partition(d.drop_last());
    }
}

proof fn lemma_count_monotone(d1: Seq<DebtClass>, d2: Seq<DebtClass>, pred: spec_fn(DebtClass) -> bool)
    requires
        d1.len() == d2.len(),
        forall|i: int| 0 <= i < d1.len() && #[trigger] pred(d1[i]) ==> pred(d2[i]),
    ensures
        count_where(d1, pred) <= count_where(d2, pred),
    decreases d1.len(),
{
    if d1.len() > 0 {
        assert forall|i: int| 0 <= i < d1.drop_last().len() && #[trigger] pred(d1.drop_last()[i]) implies pred(
            d2.drop_last()[i],
        ) by {
            assert(pred(d1[i]));
        }
        lemma_count_monotone(d1.drop_last(), d2.drop_last(), pred);
        if pred(d1.last()) {
            assert(pred(d1[d1.len() - 1]));
        }
    }
}

proof fn lemma_count_none(d: Seq<DebtClass>, pred: spec_fn(DebtClass) -> bool)
    requires
        forall|i: int| 0 <= i < d.len() ==> !#[trigger] pred(d[i]),
    ensures
        count_where(d, pred) == 0,
{
    lemma_count_positive(d, pred);
}

// ----------------------------------------------------------------------------
// Laws of the sweep
// ----------------------------------------------------------------------------

/// Every log lands in exactly one class: the orphaned, fresh and settled
/// tallies plus the number of active logs add up to the total.
pub proof fn law_tallies_partition(
    plan: SweepPlan,
    logs: Seq<RawLog>,
    active: Option<Seq<char>>,
    now: u64,
    grace: u64,
)
    requires
        is_sweep_of(plan, logs, active, now, grace),
    ensures
        plan.orphaned + plan.fresh + plan.settled + count_where(
            spec_debts(logs, active, now, grace),
            |c: DebtClass| is_active_class(c),
        ) == plan.total,
{
    lemma_count_partition(spec_debts(logs, active, now, grace));
}

/// The summary state of every classified log is what was observed of it:
/// `Present` exactly when its raw observation found a summary, whatever
/// class the log gets (the active log included).
pub proof fn law_summary_state_is_observed(
    plan: SweepPlan,
    logs: Seq<RawLog>,
    active: Option<Seq<char>>,
    now: u64,
    grace: u64,
    i: int,
)
    requires
        is_sweep_of(plan, logs, active, now, grace),
        0 <= i < logs.len(),
    ensures
        plan.logs@[i].summary == SummaryState::Present <==> logs[i].has_summary,
        plan.logs@[i].summary == SummaryState::Missing <==> !logs[i].has_summary,
        plan.logs@[i].path@ == logs[i].path@,
        logs[i].mtime_secs <= now ==> plan.logs@[i].age_secs == now - logs[i].mtime_secs,
        logs[i].mtime_secs > now ==> plan.logs@[i].age_secs == 0,
        active is None ==> !plan.logs@[i].is_active,
        active matches Some(a) ==> (plan.logs@[i].is_active <==> path_equiv(a, logs[i].path@)),
{
    assert(log_fits(plan.logs@[i], logs[i], active, now, grace));
}

/// How each log is classed, from what was observed of it: the active log is
/// `Active`; any other log with a summary is `Settled`; one without a summary
/// is `Fresh` while its age is below the grace period and `Orphaned` once it
/// reaches it, each carrying that age.
pub proof fn law_classification_rule(
    plan: SweepPlan,
    logs: Seq<RawLog>,
    active: Option<Seq<char>>,
    now: u64,
    grace: u64,
    i: int,
)
    requires
        is_sweep_of(plan, logs, active, now, grace),
        0 <= i < logs.len(),
    ensures
        plan.logs@[i].debt is Active <==> plan.logs@[i].is_active,
        plan.logs@[i].debt is Settled <==> !plan.logs@[i].is_active && logs[i].has_summary,
        plan.logs@[i].debt is Fresh <==> !plan.logs@[i].is_active && !logs[i].has_summary
            && plan.logs@[i].age_secs < grace,
        plan.logs@[i].debt is Orphaned <==> !plan.logs@[i].is_active && !logs[i].has_summary
            && plan.logs@[i].age_secs >= grace,
        plan.logs@[i].debt matches DebtClass::Fresh { age_secs } ==> age_secs == plan.logs@[i].age_secs,
        plan.logs@[i].debt matches DebtClass::Orphaned { age_secs } ==> age_secs == plan.logs@[i].age_secs,
{
    assert(log_fits(plan.logs@[i], logs[i], active, now, grace));
}

/// A log whose summary exists is never `Orphaned`, and never rendered.
pub proof fn law_summarized_never_orphaned(
    plan: SweepPlan,
    logs: Seq<RawLog>,
    active: Option<Seq<char>>,
    now: u64,
    grace: u64,
    i: int,
)
    requires
        is_sweep_of(plan, logs, active, now, grace),
        0 <= i < logs.len(),
        logs[i].has_summary,
    ensures
        !(plan.logs@[i].debt is Orphaned),
        !(plan.actions@[i] is Render),
{
    assert(log_fits(plan.logs@[i], logs[i], active, now, grace));
    assert(action_fits(plan.actions@[i], spec_debts(logs, active, now, grace)[i]));
}

/// The active log is never debt: it is classed `Active` and left alone
/// (`NoOp`), whatever its summary state and age.
pub proof fn law_active_log_untouched(
    plan: SweepPlan,
    logs: Seq<RawLog>,
    active: Option<Seq<char>>,
    now: u64,
    grace: u64,
    i: int,
)
    requires
        is_sweep_of(plan, logs, active, now, grace),
        0 <= i < logs.len(),
        spec_is_active(active, logs[i].path@),
    ensures
        plan.logs@[i].is_active,
        plan.logs@[i].debt is Active,
        plan.actions@[i] is NoOp,
{
    assert(log_fits(plan.logs@[i], logs[i], active, now, grace));
    assert(action_fits(plan.actions@[i], spec_debts(logs, active, now, grace)[i]));
}

/// A log is rendered exactly when it is `Orphaned`, and the `orphaned` tally
/// is the number of logs in that class.
pub proof fn law_render_iff_orphaned(
    plan: SweepPlan,
    logs: Seq<RawLog>,
    active: Option<Seq<char>>,
    now: u64,
    grace: u64,
    i: int,
)
    requires
        is_sweep_of(plan, logs, active, now, grace),
        0 <= i < logs.len(),
    ensures
        plan.actions@[i] is Render <==> plan.logs@[i].debt is Orphaned,
        plan.actions@[i] is Skip <==> plan.logs@[i].debt is Fresh,
{
    assert(log_fits(plan.logs@[i], logs[i], active, now, grace));
    assert(action_fits(plan.actions@[i], spec_debts(logs, active, now, grace)[i]));
}

/// The exit code is 1 exactly when some log is `Orphaned`.
pub proof fn law_exit_code_flags_debt(
    plan: SweepPlan,
    logs: Seq<RawLog>,
    active: Option<Seq<char>>,
    now: u64,
    grace: u64,
)
    requires
        is_sweep_of(plan, logs, active, now, grace),
    ensures
        plan.orphaned > 0 <==> exists|i: int|
            0 <= i < plan.logs@.len() && (#[trigger] plan.logs@[i]).debt is Orphaned,
{
    let debts = spec_debts(logs, active, now, grace);
    lemma_count_positive(debts, |c: DebtClass| is_orphaned_class(c));
    let pred = |c: DebtClass| is_orphaned_class(c);
    if plan.orphaned > 0 {
        let i = choose|i: int| 0 <= i < debts.len() && #[trigger] pred(debts[i]);
        assert(log_fits(plan.logs@[i], logs[i], active, now, grace));
        assert(plan.logs@[i].debt is Orphaned);
    }
    if exists|i: int| 0 <= i < plan.logs@.len() && (#[trigger] plan.logs@[i]).debt is Orphaned {
        let i = choose|i: int| 0 <= i < plan.logs@.len() && (#[trigger] plan.logs@[i]).debt is Orphaned;
        assert(log_fits(plan.logs@[i], logs[i], active, now, grace));
        assert(pred(debts[i]));
    }
}

/// Debt does not heal with time: a log that is `Orphaned` at one moment is
/// still `Orphaned` at any later moment (same observations, same grace), so
/// the orphaned tally never drops as `now` advances.
pub proof fn law_debt_persists(
    plan1: SweepPlan,
    plan2: SweepPlan,
    logs: Seq<RawLog>,
    active: Option<Seq<char>>,
    now1: u64,
    now2: u64,
    grace: u64,
)
    requires
        is_sweep_of(plan1, logs, active, now1, grace),
        is_sweep_of(plan2, logs, active, now2, grace),
        now1 <= now2,
    ensures
        forall|i: int|
            0 <= i < logs.len() && (#[trigger] plan1.logs@[i]).debt is Orphaned ==> plan2.logs@[i].debt is Orphaned,
        plan1.orphaned <= plan2.orphaned,
{
    let d1 = spec_debts(logs, active, now1, grace);
    let d2 = spec_debts(logs, active, now2, grace);
    assert forall|i: int| 0 <= i < logs.len() && (#[trigger] plan1.logs@[i]).debt is Orphaned implies plan2.logs@[i].debt is Orphaned by {
        assert(log_fits(plan1.logs@[i], logs[i], active, now1, grace));
        assert(log_fits(plan2.logs@[i], logs[i], active, now2, grace));
    }
    assert forall|i: int| 0 <= i < d1.len() && #[trigger] is_orphaned_class(d1[i]) implies is_orphaned_class(d2[i]) by {
        assert(log_fits(plan1.logs@[i], logs[i], active, now1, grace));
        assert(log_fits(plan2.logs@[i], logs[i], active, now2, grace));
    }
    lemma_count_monotone(d1, d2, |c: DebtClass| is_orphaned_class(c));
}

/// `after` is `before` once every log that `plan` found `Orphaned` has had
/// its summary rendered: same paths and mtimes, and a summary wherever there
/// was one before or the log was orphaned.
pub open spec fn orphans_rendered(before: Seq<RawLog>, after: Seq<RawLog>, plan: SweepPlan) -> bool {
    &&& after.len() == before.len()
    &&& forall|i: int|
        0 <= i < before.len() ==> {
            &&& (#[trigger] after[i]).path@ == before[i].path@
            &&& after[i].mtime_secs == before[i].mtime_secs
            &&& after[i].has_summary == (before[i].has_summary || plan.logs@[i].debt is Orphaned)
        }
}

/// Closing is idempotent, also later on: once every orphan of a sweep has
/// been rendered, a new sweep at any later moment at which no log that was
/// `Fresh` has yet reached the grace period finds no orphans, so a second
/// close has nothing to render. Each former orphan is then `Settled`.
pub proof fn law_rendering_clears_debt_later(
    plan1: SweepPlan,
    plan2: SweepPlan,
    before: Seq<RawLog>,
    after: Seq<RawLog>,
    active: Option<Seq<char>>,
    now1: u64,
    now2: u64,
    grace: u64,
)
    requires
        is_sweep_of(plan1, before, active, now1, grace),
        orphans_rendered(before, after, plan1),
        is_sweep_of(plan2, after, active, now2, grace),
        now1 <= now2,
        forall|i: int|
            0 <= i < before.len() && (#[trigger] plan1.logs@[i]).debt is Fresh ==> spec_age(
                now2,
                before[i].mtime_secs,
            ) < grace,
    ensures
        plan2.orphaned == 0,
        forall|i: int|
            0 <= i < before.len() && (#[trigger] plan1.logs@[i]).debt is Orphaned ==> plan2.logs@[i].debt is Settled,
{
    let d2 = spec_debts(after, active, now2, grace);
    assert forall|i: int| 0 <= i < d2.len() implies !#[trigger] is_orphaned_class(d2[i]) by {
        assert(log_fits(plan1.logs@[i], before[i], active, now1, grace));
        assert(log_fits(plan2.logs@[i], after[i], active, now2, grace));
        assert(after[i].path@ == before[i].path@);
        if plan1.logs@[i].debt is Fresh {
            assert(spec_age(now2, before[i].mtime_secs) < grace);
        }
    }
    lemma_count_none(d2, |c: DebtClass| is_orphaned_class(c));
    assert forall|i: int| 0 <= i < before.len() && (#[trigger] plan1.logs@[i]).debt is Orphaned implies plan2.logs@[i].debt is Settled by {
        assert(log_fits(plan1.logs@[i], before[i], active, now1, grace));
        assert(log_fits(plan2.logs@[i], after[i], active, now2, grace));
        assert(after[i].path@ == before[i].path@);
    }
}

/// Closing is idempotent: once every orphan of a sweep has been rendered, a
/// new sweep at the same moment finds no orphans.
pub proof fn law_rendering_clears_debt(
    plan1: SweepPlan,
    plan2: SweepPlan,
    before: Seq<RawLog>,
    after: Seq<RawLog>,
    active: Option<Seq<char>>,
    now: u64,
    grace: u64,
)
    requires
        is_sweep_of(plan1, before, active, now, grace),
        orphans_rendered(before, after, plan1),
        is_sweep_of(plan2, after, active, now, grace),
    ensures
        plan2.orphaned == 0,
        forall|i: int|
            0 <= i < before.len() && (#[trigger] plan1.logs@[i]).debt is Orphaned ==> plan2.logs@[i].debt is Settled,
{
    assert forall|i: int|
        0 <= i < before.len() && (#[trigger] plan1.logs@[i]).debt is Fresh implies spec_age(
            now,
            before[i].mtime_secs,
        ) < grace by {
        assert(log_fits(plan1.logs@[i], before[i], active, now, grace));
    }
    law_rendering_clears_debt_later(plan1, plan2, before, after, active, now, now, grace);
}

/// Two plans agree on everything a reader can observe.
pub open spec fn plans_agree(p1: SweepPlan, p2: SweepPlan) -> bool {
    &&& p1.total == p2.total
    &&& p1.orphaned == p2.orphaned
    &&& p1.fresh == p2.fresh
    &&& p1.settled == p2.settled
    &&& p1.logs@.len() == p2.logs@.len()
    &&& p1.actions@.len() == p2.actions@.len()
    &&& forall|i: int|
        0 <= i < p1.logs@.len() ==> {
            &&& (#[trigger] p1.logs@[i]).path@ == p2.logs@[i].path@
            &&& p1.logs@[i].summary == p2.logs@[i].summary
            &&& p1.logs@[i].age_secs == p2.logs@[i].age_secs
            &&& p1.logs@[i].is_active == p2.logs@[i].is_active
            &&& p1.logs@[i].debt == p2.logs@[i].debt
        }
    &&& forall|i: int|
        0 <= i < p1.actions@.len() ==> {
            &&& action_path(#[trigger] p1.actions@[i]) == action_path(p2.actions@[i])
            &&& (p1.actions@[i] is Render <==> p2.actions@[i] is Render)
            &&& (p1.actions@[i] is Skip <==> p2.actions@[i] is Skip)
            &&& (p1.actions@[i] is NoOp <==> p2.actions@[i] is NoOp)
        }
}

/// The sweep is a function of its inputs: two sweeps of the same
/// observations, active log, time and grace agree.
pub proof fn law_sweep_deterministic(
    p1: SweepPlan,
    p2: SweepPlan,
    logs: Seq<RawLog>,
    active: Option<Seq<char>>,
    now: u64,
    grace: u64,
)
    requires
        is_sweep_of(p1, logs, active, now, grace),
        is_sweep_of(p2, logs, active, now, grace),
    ensures
        plans_agree(p1, p2),
{
    let debts = spec_debts(logs, active, now, grace);
    assert forall|i: int| 0 <= i < p1.logs@.len() implies {
        &&& (#[trigger] p1.logs@[i]).path@ == p2.logs@[i].path@
        &&& p1.logs@[i].summary == p2.logs@[i].summary
        &&& p1.logs@[i].age_secs == p2.logs@[i].age_secs
        &&& p1.logs@[i].is_active == p2.logs@[i].is_active
        &&& p1.logs@[i].debt == p2.logs@[i].debt
    } by {
        assert(log_fits(p1.logs@[i], logs[i], active, now, grace));
        assert(log_fits(p2.logs@[i], logs[i], active, now, grace));
    }
    assert forall|i: int| 0 <= i < p1.actions@.len() implies {
        &&& action_path(#[trigger] p1.actions@[i]) == action_path(p2.actions@[i])
        &&& (p1.actions@[i] is Render <==> p2.actions@[i] is Render)
        &&& (p1.actions@[i] is Skip <==> p2.actions@[i] is Skip)
        &&& (p1.actions@[i] is NoOp <==> p2.actions@[i] is NoOp)
    } by {
        assert(action_fits(p1.actions@[i], debts[i]));
        assert(action_fits(p2.actions@[i], debts[i]));
    }
}

} // verus!
