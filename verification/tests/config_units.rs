//! Configuration defaults, merging, overrides, and `~` expansion.

use coda::config::{home_or_root, RawConfig};
use coda::{expand_tilde, CodaConfig, ConfigError, DEFAULT_GRACE_SECS, DEFAULT_SESSIONS_DIR};

#[test]
fn defaults_are_sane() {
    let cfg = CodaConfig::default();
    assert_eq!(cfg.grace_secs, 120);
    assert!(cfg.sessions_dir.contains("ctrace/sessions"));
}

#[test]
fn expand_tilde_home() {
    let expanded = expand_tilde("~/foo/bar", "/root");
    assert!(expanded.ends_with("/foo/bar"));
    assert!(!expanded.starts_with('~'));
}

#[test]
fn expand_tilde_cases() {
    assert_eq!(expand_tilde("~/foo/bar", "/home/u"), "/home/u/foo/bar");
    assert_eq!(expand_tilde("~/foo", "/home/u/"), "/home/u/foo");
    assert_eq!(expand_tilde("~", "/home/u"), "/home/u");
    assert_eq!(expand_tilde("/abs/path", "/home/u"), "/abs/path");
    assert_eq!(expand_tilde("~user/x", "/home/u"), "~user/x");
    assert_eq!(expand_tilde("~//etc", "/home/u"), "/etc");
    assert_eq!(expand_tilde("", "/home/u"), "");
}

// The file reading and TOML parsing of `CodaConfig::load` belong to the
// `coda` binary; the tests below hand `CodaConfig::from_file` what they
// yield: nothing for an absent file, the parsed settings otherwise.

#[test]
fn absent_file_yields_defaults() {
    let cfg = CodaConfig::from_file(None, "/root").expect("absent file should yield defaults");
    assert_eq!(cfg, CodaConfig::default());
}

#[test]
fn test_config_defaults() {
    let cfg = CodaConfig::from_file(None, "/root").expect("absent file yields defaults");
    assert_eq!(cfg.grace_secs, 120, "default grace_secs");
    assert!(
        cfg.sessions_dir.contains("ctrace/sessions"),
        "default sessions_dir must contain 'ctrace/sessions', got: {}",
        cfg.sessions_dir
    );
    assert_eq!(cfg.grace_secs, DEFAULT_GRACE_SECS);
    assert_eq!(cfg.sessions_dir, DEFAULT_SESSIONS_DIR);
}

#[test]
fn partial_override_merges_with_defaults() {
    // grace_secs = 300
    let raw = RawConfig { grace_secs: Some(300), sessions_dir: None };
    let cfg = CodaConfig::from_file(Some(Ok(raw)), "/root").expect("load partial config");
    assert_eq!(cfg.grace_secs, 300);
    assert_eq!(cfg.sessions_dir, CodaConfig::default().sessions_dir);
}

#[test]
fn test_config_custom_grace() {
    // grace_secs = 600
    // sessions_dir = "/tmp/my_sessions"
    let raw = RawConfig { grace_secs: Some(600), sessions_dir: Some("/tmp/my_sessions".to_string()) };
    let cfg = CodaConfig::from_file(Some(Ok(raw)), "/root").expect("load custom config");
    assert_eq!(cfg.grace_secs, 600);
    assert_eq!(cfg.sessions_dir, "/tmp/my_sessions");
}

#[test]
fn config_sessions_dir_expands_tilde() {
    let raw = RawConfig { grace_secs: None, sessions_dir: Some("~/logs".to_string()) };
    let cfg = CodaConfig::from_file(Some(Ok(raw)), "/home/u").expect("tilde config");
    assert_eq!(cfg.grace_secs, 120);
    assert_eq!(cfg.sessions_dir, "/home/u/logs");
}

#[test]
fn malformed_file_is_a_parse_error() {
    let err = CodaConfig::from_file(Some(Err("expected `=`".to_string())), "/home/u").expect_err("parse error");
    assert!(matches!(&err, ConfigError::Parse(m) if m == "expected `=`"));
    assert_eq!(err.describe(), "config parse error: expected `=`");
}

#[test]
fn command_line_overrides_take_precedence() {
    let cfg = CodaConfig { grace_secs: 120, sessions_dir: "/a".to_string() };
    let same = cfg.clone().with_overrides(None, None);
    assert_eq!(same, cfg);
    let both = cfg.clone().with_overrides(Some("/b".to_string()), Some(5));
    assert_eq!(both, CodaConfig { grace_secs: 5, sessions_dir: "/b".to_string() });
    let grace_only = cfg.with_overrides(None, Some(0));
    assert_eq!(grace_only, CodaConfig { grace_secs: 0, sessions_dir: "/a".to_string() });
}

#[test]
fn config_lives_under_dot_config() {
    assert_eq!(CodaConfig::default_path("/home/u"), "/home/u/.config/coda/coda.toml");
}

#[test]
fn io_error_description_names_the_file() {
    let err = ConfigError::Io(std::io::Error::other("disk gone"), "/home/u/.config/coda/coda.toml".to_string());
    assert_eq!(err.describe(), "failed to read /home/u/.config/coda/coda.toml: disk gone");
}

#[test]
fn home_falls_back_to_root() {
    assert_eq!(home_or_root(Some("/home/u".to_string())), "/home/u");
    assert_eq!(home_or_root(None), "/root");
    assert_eq!(CodaConfig::default_path(&home_or_root(None)), "/root/.config/coda/coda.toml");
}
