//! `coda close`: paying back orphaned-log debt.
//!
//! A close run sweeps the sessions directory, picks the `Render` actions of
//! the plan (at most `--limit` of them), renders each one when `--apply` is
//! given, and reports what happened. Print-only by default.
//!
//! This module holds the decisions of a run: which store to use
//! (`close_store`), which logs to render (`plan_renders`, and
//! `renders_to_attempt`, empty without `--apply`), how the render
//! results add up (`tally`), what is printed (`close_report`,
//! `render_failure_line`, `store_error_message`) and the exit code. The
//! `coda` binary performs the renders and the printing.

use vstd::prelude::*;

use crate::config::CodaConfig;
use crate::report::orphan_paths;
use crate::store::{default_render_cmd, fs_error_prefix, FsStore, FsStoreError, RawLog};
use crate::sweep::{
    action_fits, action_path, count_where, is_active_class, is_orphaned_class, is_sweep_of,
    law_rendering_clears_debt_later, law_tallies_partition, log_fits, orphans_rendered, spec_age, spec_debts,
    DebtClass, SweepAction, SweepPlan,
};
use crate::text::{decimal, join2, join3, spec_decimal};

verus! {

broadcast use vstd::string::group_string_axioms;

/// Arguments of `coda close`.
#[derive(Debug, Clone)]
pub struct CloseArgs {
    /// If false, print-only (no render). If true, render each orphan.
    pub apply: bool,
    /// Cap the number of renders per invocation.
    pub limit: Option<usize>,
    /// Emit a JSON summary instead of human-readable text.
    pub json: bool,
    /// Override the sessions directory from config.
    pub sessions_dir: Option<String>,
    /// Override the render command (defaults to `scribe`).
    pub render_cmd: Option<String>,
}

/// Tallies of one close run.
#[derive(Debug, Clone, Copy, PartialEq, Eq, Structural)]
pub struct CloseSummary {
    /// Number of logs successfully rendered in this run.
    pub rendered: usize,
    /// Number of logs skipped (fresh / settled / active / already done).
    pub skipped: usize,
    /// Number of logs that failed to render.
    pub failed: usize,
    /// Number of orphans not touched (due to limit or no --apply).
    pub remaining: usize,
}

/// The renders a close run is to attempt, and the numbers around them.
#[derive(Debug)]
pub struct RenderBatch {
    /// The paths of all `Render` actions of the plan (the orphans), in plan
    /// order.
    pub orphans: Vec<String>,
    /// The logs to render: the first of `orphans`, as many as the limit
    /// allows.
    pub to_render: Vec<String>,
    /// Number of `Render` actions in the plan.
    pub total_orphans: usize,
    /// Number of `Render` actions left out because of the limit.
    pub capped_remaining: usize,
    /// Number of the plan's actions that are not `Render`: the fresh,
    /// settled and active logs.
    pub skipped: usize,
}

impl RenderBatch {
    /// The batch accounts for every `Render` action: it lists them all, and
    /// those it keeps plus those the limit left out are all of them.
    pub open spec fn wf(&self) -> bool {
        &&& self.orphans@.len() == self.total_orphans
        &&& self.capped_remaining + self.to_render@.len() == self.total_orphans
    }
}

/// The paths of the `Render` actions among `actions`, in order.
pub open spec fn spec_render_paths(actions: Seq<SweepAction>) -> Seq<Seq<char>>
    decreases actions.len(),
{
    if actions.len() == 0 {
        Seq::empty()
    } else {
        let rest = spec_render_paths(actions.drop_last());
        if actions.last() is Render {
            rest.push(action_path(actions.last()))
        } else {
            rest
        }
    }
}

/// How many of `total` renders a run attempts under `limit`.
pub open spec fn batch_size(total: nat, limit: Option<usize>) -> nat {
    match limit {
        Some(n) => if n < total {
            n as nat
        } else {
            total
        },
        None => total,
    }
}

/// The views of a list of strings.
pub open spec fn views(v: Seq<String>) -> Seq<Seq<char>> {
    v.map_values(|s: String| s@)
}

/// The sessions directory of a close run: the override, else the config's.
pub open spec fn close_dir(args: CloseArgs, config: CodaConfig) -> Seq<char> {
    match args.sessions_dir {
        Some(d) => d@,
        None => config.sessions_dir@,
    }
}

/// The render command of a close run: the override, else `scribe`.
pub open spec fn close_command(args: CloseArgs) -> Seq<char> {
    match args.render_cmd {
        Some(c) => c@,
        None => default_render_cmd(),
    }
}

/// The store a close run works on: the configured sessions directory unless
/// overridden, rendering with `scribe` unless overridden.
pub fn close_store(args: &CloseArgs, config: &CodaConfig) -> (s: FsStore)
    ensures
        s.dir() == close_dir(*args, *config),
        s.command() == close_command(*args),
{
    let dir = match &args.sessions_dir {
        Some(d) => d.clone(),
        None => config.sessions_dir.clone(),
    };
    let base = FsStore::new(dir);
    match &args.render_cmd {
        Some(cmd) => base.with_render_cmd(cmd.clone()),
        None => base,
    }
}

fn clone_all(v: &Vec<String>) -> (r: Vec<String>)
    ensures
        views(r@) == views(v@),
        r@.len() == v@.len(),
{
    let mut r: Vec<String> = Vec::new();
    let mut i: usize = 0;
    while i < v.len()
        invariant
            i <= v@.len(),
            views(r@) == views(v@.take(i as int)),
            r@.len() == i,
        decreases v@.len() - i,
    {
        let ghost prev = r@;
        r.push(v[i].clone());
        assert(views(r@) =~= views(prev).push(v@[i as int]@));
        assert(v@.take(i + 1) =~= v@.take(i as int).push(v@[i as int]));
        assert(views(v@.take(i + 1)) =~= views(v@.take(i as int)).push(v@[i as int]@));
        i = i + 1;
    }
    assert(v@.take(v@.len() as int) =~= v@);
    r
}

/// `b` is the batch of renders of `plan` under `limit`: the paths of its
/// `Render` actions in order, the first `limit` of them to render, and the
/// counts around them.
pub open spec fn is_batch_of(b: RenderBatch, plan: SweepPlan, limit: Option<usize>) -> bool {
    &&& b.total_orphans == spec_render_paths(plan.actions@).len()
    &&& views(b.to_render@) == spec_render_paths(plan.actions@).take(
        batch_size(b.total_orphans as nat, limit) as int,
    )
    &&& b.to_render@.len() == batch_size(b.total_orphans as nat, limit)
    &&& views(b.orphans@) == spec_render_paths(plan.actions@)
    &&& b.capped_remaining == b.total_orphans - b.to_render@.len()
    &&& b.skipped == plan.actions@.len() - b.total_orphans
    &&& b.wf()
}

/// The renders a run attempts for `plan`: the paths of its `Render`
/// actions in order, the first `limit` of them when a limit is given.
pub fn plan_renders(plan: &SweepPlan, limit: Option<usize>) -> (b: RenderBatch)
    ensures
        is_batch_of(b, *plan, limit),
{
    let mut paths: Vec<String> = Vec::new();
    let n = plan.actions.len();
    let mut i: usize = 0;
    while i < n
        invariant
            n == plan.actions@.len(),
            i <= n,
            views(paths@) == spec_render_paths(plan.actions@.take(i as int)),
            paths@.len() <= i,
        decreases n - i,
    {
        proof {
            assert(plan.actions@.take(i + 1).drop_last() =~= plan.actions@.take(i as int));
        }
        let ghost prev = paths@;
        match &plan.actions[i] {
            SweepAction::Render { path } => {
                paths.push(path.clone());
                proof {
                    assert(views(paths@) =~= views(prev).push(path@));
                }
            },
            _ => {
                assert(views(paths@) =~= views(prev));
            },
        }
        i = i + 1;
    }
    assert(plan.actions@.take(n as int) =~= plan.actions@);
    let total = paths.len();
    let keep = match limit {
        Some(k) => if k < total {
            k
        } else {
            total
        },
        None => total,
    };
    let orphans = clone_all(&paths);
    let ghost all = paths@;
    paths.truncate(keep);
    assert(views(paths@) =~= views(all).take(keep as int));
    RenderBatch {
        orphans,
        to_render: paths,
        total_orphans: total,
        capped_remaining: total - keep,
        skipped: n - total,
    }
}


/// The paths a run renders: those of the batch with `--apply`, none
/// print-only.
pub open spec fn spec_attempts(batch: RenderBatch, apply: bool) -> Seq<Seq<char>> {
    if apply {
        views(batch.to_render@)
    } else {
        Seq::empty()
    }
}

/// The renders a run performs, in order: the batch with `--apply`, nothing
/// without it (a print-only run renders nothing).
pub fn renders_to_attempt(batch: &RenderBatch, apply: bool) -> (r: Vec<String>)
    ensures
        views(r@) == spec_attempts(*batch, apply),
        apply ==> views(r@) == views(batch.to_render@),
        !apply ==> r@.len() == 0,
{
    if apply {
        clone_all(&batch.to_render)
    } else {
        assert(views(Seq::<String>::empty()) =~= Seq::<Seq<char>>::empty());
        Vec::new()
    }
}

/// Number of `true`s in `s`.
pub open spec fn count_true(s: Seq<bool>) -> nat
    decreases s.len(),
{
    if s.len() == 0 {
        0
    } else {
        count_true(s.drop_last()) + if s.last() { 1nat } else { 0nat }
    }
}

proof fn lemma_count_true_bound(s: Seq<bool>)
    ensures
        count_true(s) <= s.len(),
    decreases s.len(),
{
    if s.len() > 0 {
        lemma_count_true_bound(s.drop_last());
    }
}

/// The tallies of a run from the results of its renders: the successes are
/// rendered, the rest failed; the logs that are not orphans are skipped;
/// the orphans not touched remain (those past the limit with `--apply`, all
/// of them without).
pub open spec fn spec_tally(apply: bool, batch: RenderBatch, outcomes: Seq<bool>) -> CloseSummary {
    CloseSummary {
        rendered: count_true(outcomes) as usize,
        skipped: batch.skipped,
        failed: (outcomes.len() - count_true(outcomes)) as usize,
        remaining: if apply {
            batch.capped_remaining
        } else {
            batch.total_orphans
        },
    }
}

/// The tallies of a run: `outcomes` holds the result of each render of
/// `renders_to_attempt`, in order (`true` for success): one per batch entry
/// with `apply`, none without.
pub fn tally(apply: bool, batch: &RenderBatch, outcomes: &Vec<bool>) -> (s: CloseSummary)
    requires
        batch.wf(),
        outcomes@.len() == spec_attempts(*batch, apply).len(),
    ensures
        s == spec_tally(apply, *batch, outcomes@),
{
    let mut rendered: usize = 0;
    let mut failed: usize = 0;
    let n = outcomes.len();
    let mut i: usize = 0;
    while i < n
        invariant
            n == outcomes@.len(),
            i <= n,
            rendered == count_true(outcomes@.take(i as int)),
            rendered + failed == i,
        decreases n - i,
    {
        proof {
            assert(outcomes@.take(i + 1).drop_last() =~= outcomes@.take(i as int));
        }
        if outcomes[i] {
            rendered = rendered + 1;
        } else {
            failed = failed + 1;
        }
        i = i + 1;
    }
    assert(outcomes@.take(n as int) =~= outcomes@);
    let remaining = if apply {
        batch.capped_remaining
    } else {
        batch.total_orphans
    };
    CloseSummary { rendered, skipped: batch.skipped, failed, remaining }
}

impl CloseSummary {
    /// Exit code of `coda close`: 1 when orphans remain or a render failed,
    /// 0 otherwise.
    pub fn exit_code(&self) -> (code: u8)
        ensures
            code == if self.remaining > 0 || self.failed > 0 { 1u8 } else { 0u8 },
    {
        if self.remaining > 0 || self.failed > 0 {
            1
        } else {
            0
        }
    }
}

pub open spec fn dec(n: usize) -> Seq<char> {
    spec_decimal(n as nat)
}

/// The line of the JSON tallies.
pub open spec fn json_line(s: CloseSummary) -> Seq<char> {
    "{\"rendered\": "@ + dec(s.rendered) + ", \"skipped\": "@ + dec(s.skipped) + ", \"failed\": "@
        + dec(s.failed) + ", \"remaining\": "@ + dec(s.remaining) + "}"@
}

/// What `coda close` prints about a run: the JSON tallies with `--json`;
/// print-only, the path of every orphan and then what would be rendered;
/// otherwise the cap that stopped the run, or what was rendered.
pub open spec fn spec_close_report(args: CloseArgs, s: CloseSummary, batch: RenderBatch) -> Seq<Seq<char>> {
    if args.json {
        seq![json_line(s)]
    } else if !args.apply {
        views(batch.orphans@).push(
            "would render "@ + dec(batch.total_orphans) + ", "@ + dec(s.skipped) + " already settled"@,
        )
    } else if args.limit is Some && batch.capped_remaining > 0 {
        seq!["capped at "@ + dec(args.limit->0) + ", "@ + dec(batch.capped_remaining) + " orphans remain"@]
    } else {
        seq![
            "rendered "@ + dec(s.rendered) + ", "@ + dec(s.failed) + " failed, "@ + dec(s.remaining)
                + " remaining"@,
        ]
    }
}

fn push_num(out: &mut String, n: usize)
    ensures
        final(out)@ == old(out)@ + dec(n),
{
    let digits = decimal(n as u64);
    out.append(digits.as_str());
}

/// The lines `coda close` prints at the end of a run.
pub fn close_report(args: &CloseArgs, s: &CloseSummary, batch: &RenderBatch) -> (r: Vec<String>)
    ensures
        views(r@) == spec_close_report(*args, *s, *batch),
{
    if args.json {
        let mut out = String::from_str("{\"rendered\": ");
        push_num(&mut out, s.rendered);
        out.append(", \"skipped\": ");
        push_num(&mut out, s.skipped);
        out.append(", \"failed\": ");
        push_num(&mut out, s.failed);
        out.append(", \"remaining\": ");
        push_num(&mut out, s.remaining);
        out.append("}");
        let mut r: Vec<String> = Vec::new();
        r.push(out);
        assert(views(r@) =~= spec_close_report(*args, *s, *batch));
        r
    } else if !args.apply {
        let mut r = clone_all(&batch.orphans);
        let mut out = String::from_str("would render ");
        push_num(&mut out, batch.total_orphans);
        out.append(", ");
        push_num(&mut out, s.skipped);
        out.append(" already settled");
        let ghost prev = r@;
        r.push(out);
        assert(views(r@) =~= views(prev).push(out@));
        r
    } else if args.limit.is_some() && batch.capped_remaining > 0 {
        let n = args.limit.unwrap();
        let mut out = String::from_str("capped at ");
        push_num(&mut out, n);
        out.append(", ");
        push_num(&mut out, batch.capped_remaining);
        out.append(" orphans remain");
        let mut r: Vec<String> = Vec::new();
        r.push(out);
        assert(views(r@) =~= spec_close_report(*args, *s, *batch));
        r
    } else {
        let mut out = String::from_str("rendered ");
        push_num(&mut out, s.rendered);
        out.append(", ");
        push_num(&mut out, s.failed);
        out.append(" failed, ");
        push_num(&mut out, s.remaining);
        out.append(" remaining");
        let mut r: Vec<String> = Vec::new();
        r.push(out);
        assert(views(r@) =~= spec_close_report(*args, *s, *batch));
        r
    }
}

/// The line printed to stderr when rendering the log at `path` failed.
pub fn render_failure_line(path: &str, err: &FsStoreError) -> (r: String)
    ensures
        r@ == "coda close: render failed for "@ + path@ + ": "@ + fs_error_prefix() + err.0@,
{
    let head = join3("coda close: render failed for ", path, ": ");
    let text = err.describe();
    join2(head.as_str(), text.as_str())
}

/// The message of a close run that could not list the sessions directory.
pub fn store_error_message(err: &FsStoreError) -> (r: String)
    ensures
        r@ == "coda close: store error: "@ + fs_error_prefix() + err.0@,
{
    let text = err.describe();
    join2("coda close: store error: ", text.as_str())
}

// ----------------------------------------------------------------------------
// Laws of a close run
// ----------------------------------------------------------------------------

/// Without `--apply` a run over a sweep attempts no render, so nothing is
/// rendered and nothing fails; every orphan of the sweep remains, and every
/// other log (fresh, settled, active) is skipped.
pub proof fn law_print_only_renders_nothing(
    plan: SweepPlan,
    logs: Seq<RawLog>,
    active: Option<Seq<char>>,
    now: u64,
    grace: u64,
    limit: Option<usize>,
    batch: RenderBatch,
)
    requires
        is_sweep_of(plan, logs, active, now, grace),
        is_batch_of(batch, plan, limit),
    ensures
        spec_attempts(batch, false).len() == 0,
        spec_tally(false, batch, Seq::empty()) == (CloseSummary {
            rendered: 0,
            skipped: (plan.total - plan.orphaned) as usize,
            failed: 0,
            remaining: plan.orphaned,
        }),
{
    law_close_targets_orphans(plan, logs, active, now, grace);
}

proof fn lemma_count_true_is_filter(s: Seq<bool>)
    ensures
        count_true(s) == s.filter(|b: bool| b).len(),
        s.len() - count_true(s) == s.filter(|b: bool| !b).len(),
    decreases s.len(),
{
    reveal(Seq::filter);
    if s.len() > 0 {
        lemma_count_true_is_filter(s.drop_last());
        lemma_count_true_bound(s.drop_last());
    }
}

/// With `--apply` each attempted render is counted once, by its own
/// outcome: `rendered` is the number of renders that succeeded and `failed`
/// the number that failed, one for each.
pub proof fn law_tally_counts_each_outcome(batch: RenderBatch, outcomes: Seq<bool>)
    requires
        batch.wf(),
        outcomes.len() == batch.to_render@.len(),
    ensures
        spec_tally(true, batch, outcomes).rendered == outcomes.filter(|b: bool| b).len(),
        spec_tally(true, batch, outcomes).failed == outcomes.filter(|b: bool| !b).len(),
{
    lemma_count_true_is_filter(outcomes);
    lemma_count_true_bound(outcomes);
    assert(batch.to_render@.len() <= usize::MAX);
}

/// With `--apply` every attempted render is counted once, as rendered or
/// failed, and rendered, failed and remaining orphans add up to all the
/// orphans: none is lost or counted twice.
pub proof fn law_apply_accounts_every_orphan(batch: RenderBatch, outcomes: Seq<bool>)
    requires
        batch.wf(),
        outcomes.len() == batch.to_render@.len(),
    ensures
        spec_tally(true, batch, outcomes).rendered + spec_tally(true, batch, outcomes).failed
            == batch.to_render@.len(),
        spec_tally(true, batch, outcomes).rendered + spec_tally(true, batch, outcomes).failed
            + spec_tally(true, batch, outcomes).remaining == batch.total_orphans,
{
    lemma_count_true_bound(outcomes);
}

/// `--limit n` caps the renders of a run at `n`; a limit at or above the
/// number of orphans leaves none out.
pub proof fn law_limit_caps_renders(total: nat, n: usize)
    ensures
        batch_size(total, Some(n)) <= n,
        batch_size(total, Some(n)) <= total,
        n >= total ==> batch_size(total, Some(n)) == total,
        batch_size(total, None) == total,
{
}

/// A run under no cap in which every render succeeds renders every orphan
/// and leaves none failed or remaining, so it exits 0.
pub proof fn law_clean_run_exits_zero(batch: RenderBatch, outcomes: Seq<bool>)
    requires
        batch.wf(),
        batch.capped_remaining == 0,
        outcomes.len() == batch.to_render@.len(),
        forall|i: int| 0 <= i < outcomes.len() ==> #[trigger] outcomes[i],
    ensures
        spec_tally(true, batch, outcomes).failed == 0,
        spec_tally(true, batch, outcomes).remaining == 0,
        spec_tally(true, batch, outcomes).rendered == batch.total_orphans,
{
    lemma_all_true(outcomes);
}

proof fn lemma_all_true(s: Seq<bool>)
    requires
        forall|i: int| 0 <= i < s.len() ==> #[trigger] s[i],
    ensures
        count_true(s) == s.len(),
    decreases s.len(),
{
    if s.len() > 0 {
        assert forall|i: int| 0 <= i < s.drop_last().len() implies #[trigger] s.drop_last()[i] by {
            assert(s[i]);
        }
        lemma_all_true(s.drop_last());
        assert(s[s.len() - 1]);
    }
}

/// Log `i` of `plan` is an orphan with path `p`.
pub open spec fn orphan_at(plan: SweepPlan, i: int, p: Seq<char>) -> bool {
    &&& plan.logs@[i].debt is Orphaned
    &&& plan.logs@[i].path@ == p
}

/// One of the first `n` logs of `plan` is an orphan with path `p`.
pub open spec fn is_orphan_path(plan: SweepPlan, n: int, p: Seq<char>) -> bool {
    exists|i: int| 0 <= i < n && #[trigger] orphan_at(plan, i, p)
}

proof fn lemma_renders_are_orphans(
    plan: SweepPlan,
    logs: Seq<RawLog>,
    active: Option<Seq<char>>,
    now: u64,
    grace: u64,
    k: int,
)
    requires
        is_sweep_of(plan, logs, active, now, grace),
        0 <= k <= logs.len(),
    ensures
        spec_render_paths(plan.actions@.take(k)).len() == count_where(
            spec_debts(logs, active, now, grace).take(k),
            |c: DebtClass| is_orphaned_class(c),
        ),
        forall|j: int|
            #![trigger spec_render_paths(plan.actions@.take(k))[j]]
            0 <= j < spec_render_paths(plan.actions@.take(k)).len() ==> is_orphan_path(
                plan,
                k,
                spec_render_paths(plan.actions@.take(k))[j],
            ),
    decreases k,
{
    let debts = spec_debts(logs, active, now, grace);
    if k > 0 {
        lemma_renders_are_orphans(plan, logs, active, now, grace, k - 1);
        assert(plan.actions@.take(k).drop_last() =~= plan.actions@.take(k - 1));
        assert(debts.take(k).drop_last() =~= debts.take(k - 1));
        assert(plan.actions@.take(k).last() == plan.actions@[k - 1]);
        assert(action_fits(plan.actions@[k - 1], debts[k - 1]));
        assert(log_fits(plan.logs@[k - 1], logs[k - 1], active, now, grace));
        assert forall|j: int|
            #![trigger spec_render_paths(plan.actions@.take(k))[j]]
            0 <= j < spec_render_paths(plan.actions@.take(k)).len() implies is_orphan_path(
            plan,
            k,
            spec_render_paths(plan.actions@.take(k))[j],
        ) by {
            if j < spec_render_paths(plan.actions@.take(k - 1)).len() {
                assert(spec_render_paths(plan.actions@.take(k))[j] == spec_render_paths(
                    plan.actions@.take(k - 1),
                )[j]);
                let i = choose|i: int|
                    0 <= i < k - 1 && #[trigger] orphan_at(
                        plan,
                        i,
                        spec_render_paths(plan.actions@.take(k - 1))[j],
                    );
                assert(orphan_at(plan, i, spec_render_paths(plan.actions@.take(k))[j]));
            } else {
                assert(orphan_at(plan, k - 1, spec_render_paths(plan.actions@.take(k))[j]));
            }
        }
    }
}

/// A close run works on exactly the orphans of its sweep: the plan holds
/// one `Render` action per orphaned log, each for the path of an orphaned
/// log, and the actions it skips are those of the other logs (fresh,
/// settled, active): the plan's total less its orphans.
pub proof fn law_close_targets_orphans(
    plan: SweepPlan,
    logs: Seq<RawLog>,
    active: Option<Seq<char>>,
    now: u64,
    grace: u64,
)
    requires
        is_sweep_of(plan, logs, active, now, grace),
    ensures
        spec_render_paths(plan.actions@).len() == plan.orphaned,
        plan.actions@.len() - spec_render_paths(plan.actions@).len() == plan.total - plan.orphaned,
        plan.total - plan.orphaned == plan.fresh + plan.settled + count_where(
            spec_debts(logs, active, now, grace),
            |c: DebtClass| is_active_class(c),
        ),
        forall|j: int|
            #![trigger spec_render_paths(plan.actions@)[j]]
            0 <= j < spec_render_paths(plan.actions@).len() ==> is_orphan_path(
                plan,
                logs.len() as int,
                spec_render_paths(plan.actions@)[j],
            ),
{
    let n = logs.len() as int;
    law_tallies_partition(plan, logs, active, now, grace);
    lemma_renders_are_orphans(plan, logs, active, now, grace, n);
    assert(plan.actions@.take(n) =~= plan.actions@);
    assert(spec_debts(logs, active, now, grace).take(n) =~= spec_debts(logs, active, now, grace));
    assert forall|j: int|
        #![trigger spec_render_paths(plan.actions@)[j]]
        0 <= j < spec_render_paths(plan.actions@).len() implies is_orphan_path(
            plan,
            n,
            spec_render_paths(plan.actions@)[j],
        ) by {
        assert(spec_render_paths(plan.actions@.take(n))[j] == spec_render_paths(plan.actions@)[j]);
    }
}

/// A second close run after one that rendered every orphan renders
/// nothing: its batch is empty, nothing fails and no orphan remains, as
/// long as no log that was fresh at the first run has aged past the grace
/// period by the second.
pub proof fn law_second_close_renders_nothing(
    plan1: SweepPlan,
    plan2: SweepPlan,
    before: Seq<RawLog>,
    after: Seq<RawLog>,
    active: Option<Seq<char>>,
    now1: u64,
    now2: u64,
    grace: u64,
    limit: Option<usize>,
    batch2: RenderBatch,
)
    requires
        is_sweep_of(plan1, before, active, now1, grace),
        orphans_rendered(before, after, plan1),
        is_sweep_of(plan2, after, active, now2, grace),
        now1 <= now2,
        forall|i: int|
            0 <= i < before.len() && (#[trigger] plan1.logs@[i]).debt is Fresh ==> spec_age(
                now2,
                before[i].mtime_secs,
            ) < grace,
        is_batch_of(batch2, plan2, limit),
    ensures
        batch2.to_render@.len() == 0,
        spec_tally(true, batch2, Seq::empty()) == (CloseSummary {
            rendered: 0,
            skipped: plan2.total,
            failed: 0,
            remaining: 0,
        }),
{
    law_rendering_clears_debt_later(plan1, plan2, before, after, active, now1, now2, grace);
    law_close_targets_orphans(plan2, after, active, now2, grace);
}

proof fn lemma_render_paths_are_orphan_paths(
    plan: SweepPlan,
    logs: Seq<RawLog>,
    active: Option<Seq<char>>,
    now: u64,
    grace: u64,
    k: int,
)
    requires
        is_sweep_of(plan, logs, active, now, grace),
        0 <= k <= logs.len(),
    ensures
        spec_render_paths(plan.actions@.take(k)) == orphan_paths(plan.logs@.take(k)),
    decreases k,
{
    if k > 0 {
        lemma_render_paths_are_orphan_paths(plan, logs, active, now, grace, k - 1);
        assert(plan.actions@.take(k).drop_last() =~= plan.actions@.take(k - 1));
        assert(plan.logs@.take(k).drop_last() =~= plan.logs@.take(k - 1));
        assert(log_fits(plan.logs@[k - 1], logs[k - 1], active, now, grace));
        assert(action_fits(plan.actions@[k - 1], spec_debts(logs, active, now, grace)[k - 1]));
        assert(action_path(plan.actions@[k - 1]) == logs[k - 1].path@);
    }
}

/// What a print-only run prints: the path of every orphan of its sweep, in
/// plan order, then `would render N, S already settled` with `N` the number
/// of orphans and `S` the number of other logs; `--limit` changes nothing.
pub proof fn law_print_only_report_lists_the_orphans(
    plan: SweepPlan,
    logs: Seq<RawLog>,
    active: Option<Seq<char>>,
    now: u64,
    grace: u64,
    args: CloseArgs,
    batch: RenderBatch,
)
    requires
        is_sweep_of(plan, logs, active, now, grace),
        is_batch_of(batch, plan, args.limit),
        !args.apply,
        !args.json,
    ensures
        spec_close_report(args, spec_tally(false, batch, Seq::empty()), batch) == orphan_paths(plan.logs@).push(
            "would render "@ + spec_decimal(plan.orphaned as nat) + ", "@ + spec_decimal(
                (plan.total - plan.orphaned) as nat,
            ) + " already settled"@,
        ),
{
    law_close_targets_orphans(plan, logs, active, now, grace);
    lemma_render_paths_are_orphan_paths(plan, logs, active, now, grace, logs.len() as int);
    assert(plan.actions@.take(logs.len() as int) =~= plan.actions@);
    assert(plan.logs@.take(logs.len() as int) =~= plan.logs@);
}

/// What an applying run that was not cut short by `--limit` prints: the
/// number of renders that succeeded, the number that failed, and the
/// orphans left untouched (none).
pub proof fn law_apply_report_counts_outcomes(args: CloseArgs, batch: RenderBatch, outcomes: Seq<bool>)
    requires
        batch.wf(),
        outcomes.len() == batch.to_render@.len(),
        args.apply,
        !args.json,
        batch.capped_remaining == 0,
    ensures
        spec_close_report(args, spec_tally(true, batch, outcomes), batch) == seq![
            "rendered "@ + spec_decimal(outcomes.filter(|b: bool| b).len()) + ", "@ + spec_decimal(
                outcomes.filter(|b: bool| !b).len(),
            ) + " failed, 0 remaining"@,
        ],
{
    law_tally_counts_each_outcome(batch, outcomes);
    reveal_strlit(" remaining");
    reveal_strlit(" failed, 0 remaining");
    reveal_strlit(" failed, ");
    let s = spec_tally(true, batch, outcomes);
    assert(s.remaining == 0);
    assert(spec_decimal(0) == seq!['0']);
    let x = "rendered "@ + dec(s.rendered) + ", "@ + dec(s.failed);
    assert(x + " failed, "@ + dec(s.remaining) + " remaining"@ =~= x + " failed, 0 remaining"@);
}

} // verus!
