//! Configuration: the settings in `~/.config/coda/coda.toml`, merged with
//! built-in defaults, and command-line overrides on top.
//!
//! ```toml
//! grace_secs = 120        # logs younger than this (seconds) are Fresh, not Orphaned
//! sessions_dir = "/home/jsy/.cache/ctrace/sessions"
//! ```
//!
//! Both keys are optional; an absent file yields the defaults. Reading the
//! file and parsing its TOML into a `RawConfig` are the caller's part.

use vstd::prelude::*;

use crate::paths::{join_path, path_joined, spec_extended};
use crate::text::{join2, join3};
use crate::{expand_tilde, spec_expand_tilde, DEFAULT_GRACE_SECS, DEFAULT_SESSIONS_DIR};

verus! {

#[verifier::external_type_specification]
#[verifier::external_body]
pub struct ExIoError(std::io::Error);

/// Coda configuration (merged from file + defaults).
#[derive(Debug, PartialEq, Eq)]
pub struct CodaConfig {
    /// Grace period in seconds: missing-summary logs younger than this are
    /// `Fresh`, older ones `Orphaned`.
    pub grace_secs: u64,
    /// Path to the ctrace sessions directory.
    pub sessions_dir: String,
}

impl Clone for CodaConfig {
    fn clone(&self) -> (r: Self)
        ensures
            r == *self,
    {
        CodaConfig { grace_secs: self.grace_secs, sessions_dir: self.sessions_dir.clone() }
    }
}

/// The settings a config file holds: each key is optional.
#[derive(Debug, PartialEq, Eq)]
pub struct RawConfig {
    /// `grace_secs`, if the file sets it.
    pub grace_secs: Option<u64>,
    /// `sessions_dir`, if the file sets it (may start with `~`).
    pub sessions_dir: Option<String>,
}

/// Errors that can occur while loading config.
#[derive(Debug)]
pub enum ConfigError {
    /// I/O error reading the config file at the given path.
    Io(std::io::Error, String),
    /// TOML parse error, with the parser's message.
    Parse(String),
}

impl Default for CodaConfig {
    fn default() -> (r: Self)
        ensures
            r.grace_secs == DEFAULT_GRACE_SECS,
            r.sessions_dir@ == DEFAULT_SESSIONS_DIR@,
    {
        CodaConfig { grace_secs: DEFAULT_GRACE_SECS, sessions_dir: String::from_str(DEFAULT_SESSIONS_DIR) }
    }
}

/// The configuration a file with settings `raw` yields, for a user whose
/// home directory is `home`: each key the file sets wins over its default,
/// and a `sessions_dir` from the file has its `~` resolved.
pub open spec fn merged_grace(raw: RawConfig) -> u64 {
    match raw.grace_secs {
        Some(g) => g,
        None => DEFAULT_GRACE_SECS,
    }
}

pub open spec fn merged_dir(raw: RawConfig, home: Seq<char>) -> Seq<char> {
    match raw.sessions_dir {
        Some(d) => spec_expand_tilde(d@, home),
        None => DEFAULT_SESSIONS_DIR@,
    }
}

/// Where the config file of a user with home directory `home` lives.
pub open spec fn spec_config_path(home: Seq<char>) -> Seq<char> {
    path_joined(home, ".config/coda/coda.toml"@)
}

/// The home directory coda works with: `$HOME` when it is set, else
/// `/root`.
pub open spec fn spec_home(home_var: Option<Seq<char>>) -> Seq<char> {
    match home_var {
        Some(h) => h,
        None => "/root"@,
    }
}

/// The home directory from the value of `$HOME` (`None` when unset).
pub fn home_or_root(home_var: Option<String>) -> (r: String)
    ensures
        r@ == spec_home(
            match home_var {
                Some(h) => Some(h@),
                None => None,
            },
        ),
{
    match home_var {
        Some(h) => h,
        None => String::from_str("/root"),
    }
}

impl CodaConfig {
    /// Merge the settings of a config file with the defaults.
    pub fn from_raw(raw: RawConfig, home: &str) -> (r: Self)
        ensures
            r.grace_secs == merged_grace(raw),
            r.sessions_dir@ == merged_dir(raw, home@),
    {
        let defaults = CodaConfig::default();
        let grace_secs = match raw.grace_secs {
            Some(g) => g,
            None => defaults.grace_secs,
        };
        let sessions_dir = match raw.sessions_dir {
            Some(d) => expand_tilde(d.as_str(), home),
            None => defaults.sessions_dir,
        };
        CodaConfig { grace_secs, sessions_dir }
    }

    /// The configuration from what was found at the config path: no file
    /// at all gives the defaults; a file whose TOML could not be parsed
    /// gives a parse error carrying the parser's message; a parsed file gives
    /// its settings merged with the defaults.
    pub fn from_file(found: Option<Result<RawConfig, String>>, home: &str) -> (r: Result<Self, ConfigError>)
        ensures
            match found {
                None => r matches Ok(c) && c.grace_secs == DEFAULT_GRACE_SECS && c.sessions_dir@
                    == DEFAULT_SESSIONS_DIR@,
                Some(Ok(raw)) => r matches Ok(c) && c.grace_secs == merged_grace(raw) && c.sessions_dir@
                    == merged_dir(raw, home@),
                Some(Err(msg)) => r matches Err(ConfigError::Parse(m)) && m@ == msg@,
            },
    {
        match found {
            None => Ok(CodaConfig::default()),
            Some(Ok(raw)) => Ok(CodaConfig::from_raw(raw, home)),
            Some(Err(msg)) => Err(ConfigError::Parse(msg)),
        }
    }

    /// The configuration with command-line overrides applied: each override
    /// that is given takes precedence over the configured value.
    pub fn with_overrides(self, sessions_dir: Option<String>, grace_secs: Option<u64>) -> (r: Self)
        ensures
            r.sessions_dir@ == match sessions_dir {
                Some(d) => d@,
                None => self.sessions_dir@,
            },
            r.grace_secs == match grace_secs {
                Some(g) => g,
                None => self.grace_secs,
            },
    {
        let mut r = self;
        if let Some(d) = sessions_dir {
            r.sessions_dir = d;
        }
        if let Some(g) = grace_secs {
            r.grace_secs = g;
        }
        r
    }

    /// The default config file path, `~/.config/coda/coda.toml`, for the
    /// home directory `home`.
    pub fn default_path(home: &str) -> (r: String)
        ensures
            r@ == spec_config_path(home@),
            r@ == spec_extended(home@, ".config/coda/coda.toml"@),
    {
        proof {
            reveal_strlit(".config/coda/coda.toml");
        }
        join_path(home, ".config/coda/coda.toml")
    }
}

/// The text of an I/O error, as its `Display` shows it.
///
/// Trusted: `std::io::Error`'s `Display`. Nothing is claimed of the text: it
/// comes from the operating system.
#[verifier::external_body]
fn io_error_text(e: &std::io::Error) -> String {
    format!("{e}")
}

/// The first part of the description of a read error.
pub open spec fn io_message_head(path: Seq<char>) -> Seq<char> {
    "failed to read "@ + path + ": "@
}

/// The prefix of the description of a parse error.
pub open spec fn parse_message_prefix() -> Seq<char> {
    "config parse error: "@
}

impl ConfigError {
    /// The error as it is shown to a user.
    pub fn describe(&self) -> (s: String)
        ensures
            match self {
                ConfigError::Io(_, path) => s@.len() >= io_message_head(path@).len() && s@.subrange(
                    0,
                    io_message_head(path@).len() as int,
                ) == io_message_head(path@),
                ConfigError::Parse(msg) => s@ == parse_message_prefix() + msg@,
            },
    {
        match self {
            ConfigError::Io(e, path) => {
                let head = join3("failed to read ", path.as_str(), ": ");
                let text = io_error_text(e);
                let s = join2(head.as_str(), text.as_str());
                assert(s@.subrange(0, head@.len() as int) =~= head@);
                s
            },
            ConfigError::Parse(msg) => join2("config parse error: ", msg.as_str()),
        }
    }
}


// ----------------------------------------------------------------------------
// Laws of configuration
// ----------------------------------------------------------------------------

/// A config file that sets nothing configures exactly the defaults, the
/// same as no file at all.
pub proof fn law_empty_file_is_default(home: Seq<char>)
    ensures
        merged_grace(RawConfig { grace_secs: None, sessions_dir: None }) == DEFAULT_GRACE_SECS,
        merged_dir(RawConfig { grace_secs: None, sessions_dir: None }, home) == DEFAULT_SESSIONS_DIR@,
{
}

/// Keys merge independently: setting one key in the file leaves the other
/// at its default.
pub proof fn law_keys_merge_independently(g: u64, d: String, home: Seq<char>)
    ensures
        merged_grace(RawConfig { grace_secs: Some(g), sessions_dir: None }) == g,
        merged_dir(RawConfig { grace_secs: Some(g), sessions_dir: None }, home) == DEFAULT_SESSIONS_DIR@,
        merged_grace(RawConfig { grace_secs: None, sessions_dir: Some(d) }) == DEFAULT_GRACE_SECS,
        merged_dir(RawConfig { grace_secs: None, sessions_dir: Some(d) }, home) == spec_expand_tilde(
            d@,
            home,
        ),
{
}

/// The two keys of a config file merge independently, also when the file
/// sets both: `grace_secs` comes from the file whatever `sessions_dir` is,
/// and `sessions_dir` from the file, with a leading `~` resolved against
/// `home`, whatever `grace_secs` is.
pub proof fn law_keys_merge_independently_when_both_set(
    grace: Option<u64>,
    other_grace: Option<u64>,
    dir: Option<String>,
    other_dir: Option<String>,
    home: Seq<char>,
)
    ensures
        merged_grace(RawConfig { grace_secs: grace, sessions_dir: dir }) == merged_grace(
            RawConfig { grace_secs: grace, sessions_dir: other_dir },
        ),
        merged_dir(RawConfig { grace_secs: grace, sessions_dir: dir }, home) == merged_dir(
            RawConfig { grace_secs: other_grace, sessions_dir: dir },
            home,
        ),
        grace matches Some(g) ==> merged_grace(RawConfig { grace_secs: grace, sessions_dir: dir }) == g,
        dir matches Some(d) ==> merged_dir(RawConfig { grace_secs: grace, sessions_dir: dir }, home)
            == spec_expand_tilde(d@, home),
{
}

/// The default config file is `.config/coda/coda.toml` under `$HOME`, or
/// under `/root` when `$HOME` is unset.
pub proof fn law_default_config_location(home_var: Option<Seq<char>>)
    ensures
        spec_config_path(spec_home(home_var)) == path_joined(
            match home_var {
                Some(h) => h,
                None => "/root"@,
            },
            ".config/coda/coda.toml"@,
        ),
{
}

/// The default sessions directory needs no `~` expansion: resolving it
/// against any home directory leaves it as it is.
pub proof fn law_default_dir_is_expanded(home: Seq<char>)
    ensures
        spec_expand_tilde(DEFAULT_SESSIONS_DIR@, home) == DEFAULT_SESSIONS_DIR@,
{
    reveal_strlit("/home/jsy/.cache/ctrace/sessions");
}

} // verus!
