//! coda — summary-debt model and sweep planner for ctrace session logs.
//!
//! ctrace records every agent session to `~/.cache/ctrace/sessions/<id>.ndjson`;
//! a clean session end renders `<id>.summary.md` beside the log. Logs whose
//! summary never got written are summary debt. This crate classifies logs
//! (`sweep`), plans how to pay the debt back (`close`), and holds the pieces
//! of configuration, store and status handling that the `coda` binary drives.
//!
//! Paths are carried as `String`s; `paths` holds the few path operations the
//! library needs, each backed by `std::path`.

use vstd::prelude::*;

use crate::paths::{join_path, path_joined, spec_extended};

pub mod boot;
pub mod close;
pub mod config;
pub mod paths;
pub mod report;
pub mod resolver;
pub mod store;
pub mod sweep;
pub mod text;

pub use boot::BootInstallArgs;
pub use close::{CloseArgs, CloseSummary};
pub use config::{CodaConfig, ConfigError};
pub use store::{FakeStore, FsStore, FsStoreError, LogStore, RawLog};
pub use sweep::{sweep, DebtClass, SessionLog, SummaryState, SweepAction, SweepPlan};

verus! {

/// Default grace period in seconds: 120s (2 minutes).
///
/// A missing-summary log younger than this is `Fresh` (the `SessionEnd` hook
/// may still fire); one at least this old is `Orphaned`.
pub const DEFAULT_GRACE_SECS: u64 = 120;

/// Default sessions directory.
pub const DEFAULT_SESSIONS_DIR: &'static str = "/home/jsy/.cache/ctrace/sessions";

/// `path` with a leading `~` resolved against `home`: `~/rest` becomes
/// `home` joined with `rest`, a lone `~` becomes `home`, and any other path
/// is left as it is.
pub open spec fn spec_expand_tilde(path: Seq<char>, home: Seq<char>) -> Seq<char> {
    if path.len() >= 2 && path[0] == '~' && path[1] == '/' {
        path_joined(home, path.skip(2))
    } else if path == seq!['~'] {
        home
    } else {
        path
    }
}

/// Resolve a `~` prefix in `path` against the home directory `home`.
///
/// `~/rest` becomes `home`, a `/` unless `home` ends in one, and `rest`.
/// With an absolute home directory the expansion is idempotent: expanding
/// the result again leaves it as it is.
pub fn expand_tilde(path: &str, home: &str) -> (r: String)
    ensures
        r@ == spec_expand_tilde(path@, home@),
        path@.len() >= 2 && path@[0] == '~' && path@[1] == '/' ==> r@ == if path@.len() > 2 && path@[2]
            == '/' {
            path@.skip(2)
        } else {
            spec_extended(home@, path@.skip(2))
        },
        home@.len() > 0 && home@[0] == '/' ==> spec_expand_tilde(r@, home@) == r@,
{
    let len = path.unicode_len();
    if len >= 2 && path.get_char(0) == '~' && path.get_char(1) == '/' {
        let rest = path.substring_char(2, len);
        assert(rest@ =~= path@.skip(2));
        let r = join_path(home, rest);
        proof {
            if home@.len() > 0 && home@[0] == '/' && !(rest@.len() > 0 && rest@[0] == '/') {
                assert(r@[0] == home@[0]);
            }
        }
        r
    } else if len == 1 && path.get_char(0) == '~' {
        assert(path@ =~= seq!['~']);
        String::from_str(home)
    } else {
        String::from_str(path)
    }
}

/// Only a leading `~` is expanded: a path that does not start with `~`
/// comes back unchanged, whatever the home directory.
pub proof fn law_expand_tilde_keeps_other_paths(path: Seq<char>, home: Seq<char>)
    requires
        path.len() == 0 || path[0] != '~',
    ensures
        spec_expand_tilde(path, home) == path,
{
}

} // verus!
