//! `coda boot install`: the systemd timer and `SessionStart` hook.
//!
//! `install` prints the `settings.json` hook entry; with `--enable` it also
//! copies the bundled unit files to `~/.config/systemd/user/` and reloads
//! the user daemon. It always prints, and never runs, the command that arms
//! the timer, also when installing the units failed. This module decides what is printed, which files go where,
//! where the bundled files are looked for, and the error messages; the
//! `coda` binary does the copying and runs `systemctl`.

use vstd::prelude::*;

use crate::paths::{join_path, path_joined, spec_extended};
use crate::text::{join2, join3, signed_decimal, spec_signed_decimal};

verus! {

broadcast use vstd::string::group_string_axioms;

/// The `SessionStart` hook entry printed by `coda boot install`.
pub const HOOK_JSON: &'static str = "{\"SessionStart\": [\"/bin/bash\", \"-c\", \"/home/jsy/.local/bin/coda close --apply --limit 50 >/dev/null 2>&1 &\"]}";

/// The command that arms the timer: printed, never run.
pub const ENABLE_CMD: &'static str = "systemctl --user enable --now coda-close.timer";

/// The unit files `coda boot install --enable` installs.
pub const SERVICE_UNIT: &'static str = "coda-close.service";

/// The timer unit installed beside the service.
pub const TIMER_UNIT: &'static str = "coda-close.timer";

/// Arguments of `coda boot install`.
#[derive(Debug, Clone, Copy, PartialEq, Eq, Structural)]
pub struct BootInstallArgs {
    /// If true, copy the unit files and run `daemon-reload`.
    pub enable: bool,
}

/// The views of a list of strings.
pub open spec fn line_views(v: Seq<String>) -> Seq<Seq<char>> {
    v.map_values(|s: String| s@)
}

/// What `coda boot install` prints before anything is installed.
pub open spec fn spec_preamble() -> Seq<Seq<char>> {
    seq!["Add this entry to the hooks of your settings.json:"@, HOOK_JSON@, Seq::empty()]
}

/// What it prints after the hook entry: with `--enable`, a heading once
/// the units are installed (none when installing failed); without it, how
/// to install them. Whatever happened, the last line is the command that
/// arms the timer.
pub open spec fn spec_followup(args: BootInstallArgs, installed: bool) -> Seq<Seq<char>> {
    let run_line = "  run: "@ + ENABLE_CMD@;
    if !args.enable {
        seq!["To install systemd units, re-run with --enable. Then run:"@, run_line]
    } else if installed {
        seq!["Unit files installed. Run:"@, run_line]
    } else {
        seq![run_line]
    }
}

/// The lines `coda boot install` prints first, whatever its arguments.
pub fn boot_preamble() -> (lines: Vec<String>)
    ensures
        line_views(lines@) == spec_preamble(),
{
    let mut lines: Vec<String> = Vec::new();
    lines.push(String::from_str("Add this entry to the hooks of your settings.json:"));
    lines.push(String::from_str(HOOK_JSON));
    lines.push(String::new());
    assert(line_views(lines@) =~= spec_preamble());
    lines
}

/// The lines `coda boot install` prints last. `installed` tells whether
/// copying the units and reloading the daemon succeeded; it only matters
/// with `--enable`. The enable command is printed in every case.
pub fn boot_followup(args: &BootInstallArgs, installed: bool) -> (lines: Vec<String>)
    ensures
        line_views(lines@) == spec_followup(*args, installed),
        lines@.len() >= 1,
        lines@.last()@ == "  run: "@ + ENABLE_CMD@,
{
    let mut lines: Vec<String> = Vec::new();
    if !args.enable {
        lines.push(String::from_str("To install systemd units, re-run with --enable. Then run:"));
    } else if installed {
        lines.push(String::from_str("Unit files installed. Run:"));
    }
    lines.push(join2("  run: ", ENABLE_CMD));
    assert(line_views(lines@) =~= spec_followup(*args, installed));
    lines
}

/// The directory user units go to: `~/.config/systemd/user`.
pub fn systemd_user_dir(home: &str) -> (r: String)
    ensures
        r@ == path_joined(home@, ".config/systemd/user"@),
        r@ == spec_extended(home@, ".config/systemd/user"@),
{
    proof {
        reveal_strlit(".config/systemd/user");
    }
    join_path(home, ".config/systemd/user")
}

/// The copies `--enable` makes: each bundled unit from `install_dir` to the
/// same name in `dest_dir`, service first, then timer.
pub fn unit_copies(install_dir: &str, dest_dir: &str) -> (r: Vec<(String, String)>)
    ensures
        r@.len() == 2,
        r@[0].0@ == path_joined(install_dir@, SERVICE_UNIT@),
        r@[0].1@ == path_joined(dest_dir@, SERVICE_UNIT@),
        r@[1].0@ == path_joined(install_dir@, TIMER_UNIT@),
        r@[1].1@ == path_joined(dest_dir@, TIMER_UNIT@),
        r@[0].0@ == spec_extended(install_dir@, SERVICE_UNIT@),
        r@[0].1@ == spec_extended(dest_dir@, SERVICE_UNIT@),
        r@[1].0@ == spec_extended(install_dir@, TIMER_UNIT@),
        r@[1].1@ == spec_extended(dest_dir@, TIMER_UNIT@),
{
    proof {
        reveal_strlit("coda-close.service");
        reveal_strlit("coda-close.timer");
    }
    let mut r: Vec<(String, String)> = Vec::new();
    r.push((join_path(install_dir, SERVICE_UNIT), join_path(dest_dir, SERVICE_UNIT)));
    r.push((join_path(install_dir, TIMER_UNIT), join_path(dest_dir, TIMER_UNIT)));
    r
}

/// The places the bundled `install/` directory is looked for, in order:
/// beside the source tree (`manifest_dir`, when known), beside the binary
/// (`exe_dir`, when known), and in `../share/coda/install` from the binary.
pub open spec fn spec_install_candidates(manifest_dir: Option<Seq<char>>, exe_dir: Option<Seq<char>>) -> Seq<
    Seq<char>,
> {
    let from_manifest = match manifest_dir {
        Some(m) => seq![path_joined(m, "install"@)],
        None => Seq::empty(),
    };
    let from_exe = match exe_dir {
        Some(e) => seq![path_joined(e, "install"@), path_joined(e, "../share/coda/install"@)],
        None => Seq::empty(),
    };
    from_manifest + from_exe
}

/// The candidate locations of the bundled `install/` directory; the first
/// one that is a directory is used.
pub fn install_dir_candidates(manifest_dir: Option<&str>, exe_dir: Option<&str>) -> (r: Vec<String>)
    ensures
        line_views(r@) == spec_install_candidates(
            match manifest_dir {
                Some(m) => Some(m@),
                None => None,
            },
            match exe_dir {
                Some(e) => Some(e@),
                None => None,
            },
        ),
{
    let mut r: Vec<String> = Vec::new();
    match manifest_dir {
        Some(m) => {
            r.push(join_path(m, "install"));
        },
        None => {},
    }
    match exe_dir {
        Some(e) => {
            r.push(join_path(e, "install"));
            r.push(join_path(e, "../share/coda/install"));
        },
        None => {},
    }
    assert(line_views(r@) =~= spec_install_candidates(
        match manifest_dir {
            Some(m) => Some(m@),
            None => None,
        },
        match exe_dir {
            Some(e) => Some(e@),
            None => None,
        },
    ));
    r
}

/// The error when no `install/` directory is found.
pub fn missing_install_dir_message() -> (r: String)
    ensures
        r@ == "cannot locate install/ directory; try running from the coda source tree"@,
{
    String::from_str("cannot locate install/ directory; try running from the coda source tree")
}

/// The error when the unit directory cannot be created.
pub fn create_failed_message(dir: &str, error: &str) -> (r: String)
    ensures
        r@ == "failed to create "@ + dir@ + ": "@ + error@,
{
    let head = join3("failed to create ", dir, ": ");
    join2(head.as_str(), error)
}

/// The error when a unit file cannot be copied.
pub fn copy_failed_message(from: &str, to: &str, error: &str) -> (r: String)
    ensures
        r@ == "failed to copy "@ + from@ + " → "@ + to@ + ": "@ + error@,
{
    let head = join3("failed to copy ", from, " → ");
    let head = join3(head.as_str(), to, ": ");
    join2(head.as_str(), error)
}

/// The error when `systemctl` cannot be started.
pub fn systemctl_spawn_message(error: &str) -> (r: String)
    ensures
        r@ == "failed to run systemctl: "@ + error@,
{
    join2("failed to run systemctl: ", error)
}

/// How a process end is named in an error: its exit code, or `signal`
/// when it had none.
pub open spec fn spec_exit_name(code: Option<i32>) -> Seq<char> {
    match code {
        Some(c) => spec_signed_decimal(c as int),
        None => "signal"@,
    }
}

/// The error when `systemctl --user daemon-reload` fails.
pub fn daemon_reload_failed_message(code: Option<i32>) -> (r: String)
    ensures
        r@ == "systemctl --user daemon-reload failed with "@ + spec_exit_name(code),
{
    let name = match code {
        Some(c) => signed_decimal(c as i64),
        None => String::from_str("signal"),
    };
    join2("systemctl --user daemon-reload failed with ", name.as_str())
}

/// The arguments `systemctl` is run with after the copies.
pub fn daemon_reload_args() -> (r: Vec<String>)
    ensures
        r@.len() == 2,
        r@[0]@ == "--user"@,
        r@[1]@ == "daemon-reload"@,
{
    let mut r: Vec<String> = Vec::new();
    r.push(String::from_str("--user"));
    r.push(String::from_str("daemon-reload"));
    r
}

} // verus!
