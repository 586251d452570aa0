//! Raw observations of session logs, and the stores that produce them.
//!
//! `LogStore` abstracts the sessions directory so that `sweep` stays pure.
//! `FakeStore` is the in-memory fixture store. `FsStore` describes the real
//! store over a sessions directory: this library decides everything about it
//! (which entries are logs, where their summaries live, the order of the
//! result, the render command and the errors), while the directory walk and
//! the process spawn are performed by the caller, who hands the facts back
//! (`FsStore::logs_from_listing`, `FsStore::render_result`).

use vstd::prelude::*;

use crate::paths::{extension_of, path_before, path_equiv, path_extension, path_less, path_with_extension, with_extension};
use crate::text::{join2, join3, signed_decimal, spec_signed_decimal};

verus! {

broadcast use vstd::string::group_string_axioms;

/// Raw observation from the store for a single `.ndjson` log file.
#[derive(Debug, PartialEq, Eq)]
pub struct RawLog {
    /// Absolute path to the `.ndjson` log file.
    pub path: String,
    /// True if a `.summary.md` exists beside the log.
    pub has_summary: bool,
    /// Unix timestamp (seconds) of the log's last modification.
    pub mtime_secs: u64,
}

impl Clone for RawLog {
    fn clone(&self) -> (r: Self)
        ensures
            r == *self,
    {
        RawLog { path: self.path.clone(), has_summary: self.has_summary, mtime_secs: self.mtime_secs }
    }
}

/// Abstraction over the sessions directory.
///
/// Implementations: `FakeStore` here; a filesystem store in the `coda`
/// binary, built on `FsStore`.
pub trait LogStore {
    /// Error type for store operations.
    type Error: core::fmt::Debug + core::fmt::Display;

    /// Return all `.ndjson` logs in the sessions directory.
    fn logs(&self) -> Result<Vec<RawLog>, Self::Error>;

    /// Render (summarize) one log.
    fn render(&mut self, path: &str) -> Result<(), Self::Error>;
}

// ----------------------------------------------------------------------------
// FakeStore
// ----------------------------------------------------------------------------

/// In-memory fixture store for tests: `logs` hands back the fixtures, and
/// `render` only counts its calls.
#[derive(Debug, Clone)]
pub struct FakeStore {
    logs: Vec<RawLog>,
    /// How many times `render` was called.
    render_calls: usize,
}

impl FakeStore {
    /// The fixtures this store was built with.
    pub closed spec fn fixtures(&self) -> Seq<RawLog> {
        self.logs@
    }

    /// The number of `render` calls so far.
    pub closed spec fn calls(&self) -> usize {
        self.render_calls
    }

    /// Create a new `FakeStore` from a list of raw log fixtures.
    pub fn new(logs: Vec<RawLog>) -> (s: Self)
        ensures
            s.fixtures() == logs@,
            s.calls() == 0,
    {
        FakeStore { logs, render_calls: 0 }
    }

    /// How many times `LogStore::render` has been called.
    pub fn render_call_count(&self) -> (n: usize)
        ensures
            n == self.calls(),
    {
        self.render_calls
    }
}

impl Default for FakeStore {
    fn default() -> (s: Self)
        ensures
            s.fixtures().len() == 0,
            s.calls() == 0,
    {
        FakeStore::new(Vec::new())
    }
}

impl LogStore for FakeStore {
    type Error = core::convert::Infallible;

    fn logs(&self) -> (r: Result<Vec<RawLog>, Self::Error>)
        ensures
            r matches Ok(v) && v@ == self.fixtures(),
    {
        let v = self.logs.clone();
        assert(v@ =~= self.logs@);
        Ok(v)
    }

    fn render(&mut self, path: &str) -> (r: Result<(), Self::Error>)
        ensures
            r is Ok,
            final(self).fixtures() == old(self).fixtures(),
            final(self).calls() == old(self).calls() as int + 1 || (old(self).calls() == usize::MAX
                && final(self).calls() == usize::MAX),
    {
        if self.render_calls < usize::MAX {
            self.render_calls = self.render_calls + 1;
        }
        Ok(())
    }
}

// ----------------------------------------------------------------------------
// FsStore
// ----------------------------------------------------------------------------

/// Error type for `FsStore` operations: a message.
#[derive(Debug)]
pub struct FsStoreError(pub String);

/// The prefix of every `FsStoreError` description.
pub open spec fn fs_error_prefix() -> Seq<char> {
    "FsStore error: "@
}

impl FsStoreError {
    /// The error as it is shown to a user: `FsStore error: <message>`.
    pub fn describe(&self) -> (s: String)
        ensures
            s@ == fs_error_prefix() + self.0@,
    {
        join2("FsStore error: ", self.0.as_str())
    }
}

/// Real filesystem store: the `.ndjson` files of one sessions directory.
#[derive(Debug, Clone)]
pub struct FsStore {
    /// The sessions directory to walk.
    sessions_dir: String,
    /// Command used to render a log.
    render_cmd_inner: String,
}

/// The render command an `FsStore` starts with.
pub open spec fn default_render_cmd() -> Seq<char> {
    "scribe"@
}

/// What the caller found in one directory entry.
#[derive(Debug)]
pub struct DirEntryFacts {
    /// Full path of the entry.
    pub path: String,
    /// The entry's modification time in seconds since the Unix epoch, when
    /// it could be read.
    pub mtime_secs: Option<u64>,
    /// Whether the file at `summary_path(path)` exists.
    pub has_summary: bool,
}

/// What the caller found when it listed the sessions directory.
#[derive(Debug)]
pub enum DirListing {
    /// The sessions directory does not exist (or is not a directory).
    Missing,
    /// The directory exists but could not be read; the error text.
    Unreadable(String),
    /// The readable entries of the directory, in any order.
    Entries(Vec<DirEntryFacts>),
}

/// How a render process ended.
#[derive(Debug)]
pub enum RenderOutcome {
    /// The process could not be started; the error text.
    SpawnFailed(String),
    /// The process ran to its end.
    Exited {
        /// Whether it exited successfully.
        success: bool,
        /// Its exit code, if it exited with one.
        code: Option<i32>,
        /// Its standard error output, as text.
        stderr: String,
    },
}

impl FsStore {
    /// The sessions directory this store walks.
    pub closed spec fn dir(&self) -> Seq<char> {
        self.sessions_dir@
    }

    /// The command this store renders logs with.
    pub closed spec fn command(&self) -> Seq<char> {
        self.render_cmd_inner@
    }

    /// Create a new `FsStore` over `sessions_dir`, rendering with `scribe`.
    pub fn new(sessions_dir: String) -> (s: Self)
        ensures
            s.dir() == sessions_dir@,
            s.command() == default_render_cmd(),
    {
        FsStore { sessions_dir, render_cmd_inner: String::from_str("scribe") }
    }

    /// The sessions directory this store walks.
    pub fn sessions_dir(&self) -> (r: &str)
        ensures
            r@ == self.dir(),
    {
        self.sessions_dir.as_str()
    }

    /// The render command (basename or full path).
    pub fn render_cmd(&self) -> (r: &str)
        ensures
            r@ == self.command(),
    {
        self.render_cmd_inner.as_str()
    }

    /// The same store with a custom render command.
    pub fn with_render_cmd(self, cmd: String) -> (s: Self)
        ensures
            s.dir() == self.dir(),
            s.command() == cmd@,
    {
        FsStore { sessions_dir: self.sessions_dir, render_cmd_inner: cmd }
    }

    /// The arguments the render command is run with for the log at `path`:
    /// `render <path>`.
    pub fn render_args(&self, path: &str) -> (r: Vec<String>)
        ensures
            r@.len() == 2,
            r@[0]@ == "render"@,
            r@[1]@ == path@,
    {
        let mut r: Vec<String> = Vec::new();
        r.push(String::from_str("render"));
        r.push(String::from_str(path));
        r
    }
}

/// The `.ndjson` extension of a session log, as a path's extension.
pub open spec fn is_session_log_path(p: Seq<char>) -> bool {
    path_extension(p) == Some("ndjson"@)
}

/// Where the summary of the log at `p` lives: `p` with its extension
/// replaced by `summary.md`.
pub open spec fn spec_summary_path(p: Seq<char>) -> Seq<char> {
    path_with_extension(p, "summary.md"@)
}

/// Whether `p` names a session log: its extension is exactly `ndjson`.
pub fn is_session_log(p: &str) -> (r: bool)
    ensures
        r == is_session_log_path(p@),
{
    match extension_of(p) {
        Some(e) => {
            let ndjson = String::from_str("ndjson");
            e == ndjson
        },
        None => false,
    }
}

/// Path of the summary that belongs to the log at `p`.
pub fn summary_path(p: &str) -> (r: String)
    ensures
        r@ == spec_summary_path(p@),
{
    proof {
        reveal_strlit("summary.md");
    }
    with_extension(p, "summary.md")
}

/// `logs` is in path order: no log sorts strictly before one in front of
/// it.
pub open spec fn sorted_by_path(logs: Seq<RawLog>) -> bool {
    forall|i: int, j: int|
        0 <= i < j < logs.len() ==> !path_before(#[trigger] logs[j].path@, #[trigger] logs[i].path@)
}

/// No two of `logs` have paths that `std::path::Path` holds equal.
pub open spec fn distinct_paths(logs: Seq<RawLog>) -> bool {
    forall|i: int, j: int|
        0 <= i < logs.len() && 0 <= j < logs.len() && i != j ==> !path_equiv(
            #[trigger] logs[i].path@,
            #[trigger] logs[j].path@,
        )
}

/// `logs` is in strictly increasing path order.
pub open spec fn strictly_sorted_by_path(logs: Seq<RawLog>) -> bool {
    forall|i: int, j: int|
        0 <= i < j < logs.len() ==> path_before(#[trigger] logs[i].path@, #[trigger] logs[j].path@)
}

/// Inserting `x` at `p` keeps a path-ordered list ordered when nothing from
/// `p` on sorts before `x` and `x` does not sort before the entry in front.
#[verifier::spinoff_prover]
proof fn lemma_insert_keeps_order(before: Seq<RawLog>, p: int, x: RawLog)
    requires
        0 <= p <= before.len(),
        sorted_by_path(before),
        forall|k: int| p <= k < before.len() ==> !path_before(#[trigger] before[k].path@, x.path@),
        p > 0 ==> !path_before(x.path@, before[p - 1].path@),
        p > 0 ==> forall|c: Seq<char>|
            #[trigger] path_before(x.path@, c) ==> path_before(before[p - 1].path@, c),
    ensures
        sorted_by_path(before.insert(p, x)),
{
    let out = before.insert(p, x);
    before.insert_ensures(p, x);
    assert forall|k: int, j: int| 0 <= k < j < out.len() implies !path_before(
        #[trigger] out[j].path@,
        #[trigger] out[k].path@,
    ) by {
        if j < p {
            assert(out[k] == before[k] && out[j] == before[j]);
        } else if j == p {
            assert(out[k] == before[k] && out[j] == x);
            if k < p - 1 {
                assert(!path_before(before[p - 1].path@, before[k].path@));
            }
        } else if k == p {
            assert(out[k] == x && out[j] == before[j - 1]);
        } else if k < p {
            assert(out[k] == before[k] && out[j] == before[j - 1]);
        } else {
            assert(out[k] == before[k - 1] && out[j] == before[j - 1]);
        }
    }
}

/// Inserting `x` at `p` keeps a strictly ordered list strictly ordered when
/// `x` sorts strictly between the entries around `p`.
#[verifier::spinoff_prover]
proof fn lemma_insert_keeps_strict_order(before: Seq<RawLog>, p: int, x: RawLog)
    requires
        0 <= p <= before.len(),
        strictly_sorted_by_path(before),
        forall|k: int| p <= k < before.len() ==> path_before(x.path@, #[trigger] before[k].path@),
        p > 0 ==> path_before(before[p - 1].path@, x.path@),
        p > 0 ==> forall|c: Seq<char>|
            #[trigger] path_before(c, before[p - 1].path@) ==> path_before(c, x.path@),
    ensures
        strictly_sorted_by_path(before.insert(p, x)),
{
    let out = before.insert(p, x);
    before.insert_ensures(p, x);
    assert forall|k: int, j: int| 0 <= k < j < out.len() implies path_before(
        #[trigger] out[k].path@,
        #[trigger] out[j].path@,
    ) by {
        if j < p {
            assert(out[k] == before[k] && out[j] == before[j]);
        } else if j == p {
            assert(out[k] == before[k] && out[j] == x);
            if k < p - 1 {
                assert(path_before(before[k].path@, before[p - 1].path@));
            }
        } else if k == p {
            assert(out[k] == x && out[j] == before[j - 1]);
        } else if k < p {
            assert(out[k] == before[k] && out[j] == before[j - 1]);
        } else {
            assert(out[k] == before[k - 1] && out[j] == before[j - 1]);
        }
    }
}

/// Sort logs by path (stable), in the order `std::path::Path` defines. When
/// no two paths are equal as paths, the order is strict.
pub fn sort_by_path(logs: Vec<RawLog>) -> (r: Vec<RawLog>)
    ensures
        r@.to_multiset() == logs@.to_multiset(),
        sorted_by_path(r@),
        distinct_paths(logs@) ==> strictly_sorted_by_path(r@),
{
    broadcast use vstd::seq_lib::group_to_multiset_ensures;
    broadcast use vstd::seq_lib::to_multiset_contains;

    let mut out: Vec<RawLog> = Vec::new();
    let n = logs.len();
    let mut i: usize = 0;
    while i < n
        invariant
            n == logs@.len(),
            i <= n,
            out@.to_multiset() == logs@.take(i as int).to_multiset(),
            sorted_by_path(out@),
            distinct_paths(logs@) ==> strictly_sorted_by_path(out@),
        decreases n - i,
    {
        let x = logs[i].clone();
        let mut p: usize = out.len();
        loop
            invariant
                p <= out@.len(),
                forall|k: int| p <= k < out@.len() ==> !path_before(#[trigger] out@[k].path@, x.path@),
                forall|k: int| p <= k < out@.len() ==> path_before(x.path@, #[trigger] out@[k].path@),
            ensures
                p <= out@.len(),
                forall|k: int| p <= k < out@.len() ==> !path_before(#[trigger] out@[k].path@, x.path@),
                forall|k: int| p <= k < out@.len() ==> path_before(x.path@, #[trigger] out@[k].path@),
                p > 0 ==> !path_before(x.path@, out@[p - 1].path@),
                p > 0 ==> path_before(out@[p - 1].path@, x.path@) || path_equiv(x.path@, out@[p - 1].path@),
                p > 0 ==> forall|c: Seq<char>|
                    #[trigger] path_before(x.path@, c) ==> path_before(out@[p - 1].path@, c),
                p > 0 ==> forall|c: Seq<char>|
                    #[trigger] path_before(c, out@[p - 1].path@) ==> path_before(c, x.path@),
            decreases p,
        {
            if p == 0 {
                break;
            }
            let earlier = path_less(x.path.as_str(), out[p - 1].path.as_str());
            if !earlier {
                break;
            }
            p = p - 1;
        }
        let ghost before = out@;
        out.insert(p, x);
        proof {
            assert(out@ == before.insert(p as int, x));
            vstd::seq_lib::to_multiset_insert(before, p as int, x);
            vstd::seq_lib::to_multiset_build(logs@.take(i as int), x);
            assert(x == logs@[i as int]);
            assert(logs@.take(i + 1) =~= logs@.take(i as int).push(logs@[i as int]));
            assert(logs@.take(i + 1).to_multiset() =~= logs@.take(i as int).to_multiset().insert(x));
            lemma_insert_keeps_order(before, p as int, x);
            if distinct_paths(logs@) {
                if p > 0 {
                    let q = p - 1;
                    assert(before.contains(before[q as int]));
                    vstd::seq_lib::to_multiset_contains(before, before[q as int]);
                    vstd::seq_lib::to_multiset_contains(logs@.take(i as int), before[q as int]);
                    assert(logs@.take(i as int).contains(before[q as int]));
                    let m = choose|m: int| 0 <= m < i && #[trigger] logs@.take(i as int)[m] == before[q as int];
                    assert(logs@[m] == before[q as int]);
                    assert(!path_equiv(logs@[i as int].path@, logs@[m].path@));
                }
                lemma_insert_keeps_strict_order(before, p as int, x);
            }
        }
        i = i + 1;
    }
    assert(logs@.take(n as int) =~= logs@);
    out
}


/// The log that a directory entry stands for; an unreadable mtime counts
/// as 0.
pub open spec fn entry_log(e: DirEntryFacts) -> RawLog {
    RawLog {
        path: e.path,
        has_summary: e.has_summary,
        mtime_secs: match e.mtime_secs {
            Some(m) => m,
            None => 0,
        },
    }
}

/// The logs among directory entries: the entries whose path is a session
/// log, in listing order.
pub open spec fn listed_logs(entries: Seq<DirEntryFacts>) -> Seq<RawLog>
    decreases entries.len(),
{
    if entries.len() == 0 {
        Seq::empty()
    } else {
        let rest = listed_logs(entries.drop_last());
        if is_session_log_path(entries.last().path@) {
            rest.push(entry_log(entries.last()))
        } else {
            rest
        }
    }
}

/// The message of the error for an unreadable sessions directory.
pub open spec fn unreadable_message(dir: Seq<char>, error: Seq<char>) -> Seq<char> {
    "read_dir "@ + dir + ": "@ + error
}

/// `{:?}` of an optional exit code: `Some(<code>)` or `None`.
pub open spec fn spec_debug_code(code: Option<i32>) -> Seq<char> {
    match code {
        Some(c) => "Some("@ + spec_signed_decimal(c as int) + ")"@,
        None => "None"@,
    }
}

/// The message of the error for a render process that could not start.
pub open spec fn spawn_failed_message(cmd: Seq<char>, error: Seq<char>) -> Seq<char> {
    "failed to run '"@ + cmd + "': "@ + error
}

/// The message of the error for a render process that failed.
pub open spec fn render_failed_message(cmd: Seq<char>, code: Option<i32>, stderr: Seq<char>) -> Seq<char> {
    "'"@ + cmd + "' render failed (exit "@ + spec_debug_code(code) + "): "@ + stderr
}

fn debug_code(code: Option<i32>) -> (s: String)
    ensures
        s@ == spec_debug_code(code),
{
    match code {
        Some(c) => {
            let digits = signed_decimal(c as i64);
            join3("Some(", digits.as_str(), ")")
        },
        None => String::from_str("None"),
    }
}

impl FsStore {
    /// The logs of the sessions directory, from what the caller found there.
    ///
    /// A missing directory has no logs. An unreadable one is an error that
    /// names the directory. Otherwise the result holds, in path order, one
    /// log for each entry whose extension is `ndjson` (an unreadable mtime
    /// counts as 0); other entries are ignored. The order is strict when no
    /// two of those entries are the same path, as in a directory listing.
    pub fn logs_from_listing(&self, listing: DirListing) -> (r: Result<Vec<RawLog>, FsStoreError>)
        ensures
            match listing {
                DirListing::Missing => r matches Ok(v) && v@.len() == 0,
                DirListing::Unreadable(e) => r matches Err(err) && err.0@ == unreadable_message(
                    self.dir(),
                    e@,
                ),
                DirListing::Entries(es) => r matches Ok(v) && v@.to_multiset() == listed_logs(
                    es@,
                ).to_multiset() && sorted_by_path(v@) && (distinct_paths(listed_logs(es@))
                    ==> strictly_sorted_by_path(v@)),
            },
    {
        match listing {
            DirListing::Missing => Ok(Vec::new()),
            DirListing::Unreadable(e) => {
                let msg = join3("read_dir ", self.sessions_dir.as_str(), ": ");
                let msg = join2(msg.as_str(), e.as_str());
                Err(FsStoreError(msg))
            },
            DirListing::Entries(es) => {
                let mut logs: Vec<RawLog> = Vec::new();
                let n = es.len();
                let mut i: usize = 0;
                while i < n
                    invariant
                        n == es@.len(),
                        i <= n,
                        logs@ == listed_logs(es@.take(i as int)),
                    decreases n - i,
                {
                    let e = &es[i];
                    proof {
                        assert(es@.take(i + 1).drop_last() =~= es@.take(i as int));
                    }
                    if is_session_log(e.path.as_str()) {
                        let mtime_secs = match e.mtime_secs {
                            Some(m) => m,
                            None => 0,
                        };
                        logs.push(RawLog { path: e.path.clone(), has_summary: e.has_summary, mtime_secs });
                    }
                    i = i + 1;
                }
                assert(es@.take(n as int) =~= es@);
                Ok(sort_by_path(logs))
            },
        }
    }

    /// The logs `coda plan` works on: those of `logs_from_listing`, with a
    /// missing or unreadable directory read as empty.
    pub fn load_logs(&self, listing: DirListing) -> (r: Vec<RawLog>)
        ensures
            match listing {
                DirListing::Entries(es) => r@.to_multiset() == listed_logs(es@).to_multiset()
                    && sorted_by_path(r@) && (distinct_paths(listed_logs(es@)) ==> strictly_sorted_by_path(
                    r@,
                )),
                _ => r@.len() == 0,
            },
    {
        match self.logs_from_listing(listing) {
            Ok(v) => v,
            Err(_) => Vec::new(),
        }
    }

    /// The result of a render, from how the render process ended: `Ok` on a
    /// successful exit; otherwise an error naming the command, with the
    /// start-up error, or with the exit code and the process's stderr.
    pub fn render_result(&self, outcome: RenderOutcome) -> (r: Result<(), FsStoreError>)
        ensures
            match outcome {
                RenderOutcome::SpawnFailed(e) => r matches Err(err) && err.0@ == spawn_failed_message(
                    self.command(),
                    e@,
                ),
                RenderOutcome::Exited { success, code, stderr } => if success {
                    r is Ok
                } else {
                    r matches Err(err) && err.0@ == render_failed_message(
                        self.command(),
                        code,
                        stderr@,
                    )
                },
            },
    {
        match outcome {
            RenderOutcome::SpawnFailed(e) => {
                let msg = join3("failed to run '", self.render_cmd_inner.as_str(), "': ");
                Err(FsStoreError(join2(msg.as_str(), e.as_str())))
            },
            RenderOutcome::Exited { success, code, stderr } => {
                if success {
                    Ok(())
                } else {
                    let head = join3("'", self.render_cmd_inner.as_str(), "' render failed (exit ");
                    let code_text = debug_code(code);
                    let head = join3(head.as_str(), code_text.as_str(), "): ");
                    Err(FsStoreError(join2(head.as_str(), stderr.as_str())))
                }
            },
        }
    }
}

// ----------------------------------------------------------------------------
// Laws of the filesystem store
// ----------------------------------------------------------------------------

#[verifier::spinoff_prover]
proof fn lemma_listed_logs_are_session_logs(entries: Seq<DirEntryFacts>)
    ensures
        forall|i: int|
            0 <= i < listed_logs(entries).len() ==> is_session_log_path(
                #[trigger] listed_logs(entries)[i].path@,
            ),
    decreases entries.len(),
{
    if entries.len() > 0 {
        let rest = listed_logs(entries.drop_last());
        lemma_listed_logs_are_session_logs(entries.drop_last());
        assert forall|i: int|
            0 <= i < listed_logs(entries).len() implies is_session_log_path(
            #[trigger] listed_logs(entries)[i].path@,
        ) by {
            if i < rest.len() {
                assert(listed_logs(entries)[i] == rest[i]);
            }
        }
    }
}

/// The store's logs are session logs only: every log it reports for a
/// listing has the `ndjson` extension, whatever else the directory holds.
pub proof fn law_only_session_logs_listed(entries: Seq<DirEntryFacts>, logs: Seq<RawLog>)
    requires
        logs.to_multiset() == listed_logs(entries).to_multiset(),
    ensures
        forall|i: int| 0 <= i < logs.len() ==> is_session_log_path(#[trigger] logs[i].path@),
{
    broadcast use vstd::seq_lib::group_to_multiset_ensures;

    lemma_listed_logs_are_session_logs(entries);
    assert forall|i: int| 0 <= i < logs.len() implies is_session_log_path(#[trigger] logs[i].path@) by {
        assert(logs.contains(logs[i]));
        assert(logs.to_multiset().count(logs[i]) > 0);
        assert(listed_logs(entries).contains(logs[i]));
        let j = choose|j: int| 0 <= j < listed_logs(entries).len() && listed_logs(entries)[j] == logs[i];
        assert(is_session_log_path(listed_logs(entries)[j].path@));
    }
}

} // verus!
