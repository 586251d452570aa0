//! What `coda boot install` prints, and where its files go.

use coda::boot::{
    boot_followup, boot_preamble, copy_failed_message, create_failed_message, daemon_reload_args,
    daemon_reload_failed_message, install_dir_candidates, missing_install_dir_message, systemctl_spawn_message,
    systemd_user_dir, unit_copies, ENABLE_CMD, HOOK_JSON,
};
use coda::BootInstallArgs;

#[test]
fn install_prints_the_hook_and_the_enable_command() {
    assert_eq!(
        boot_preamble(),
        vec!["Add this entry to the hooks of your settings.json:".to_string(), HOOK_JSON.to_string(), String::new()]
    );
    assert_eq!(
        boot_followup(&BootInstallArgs { enable: false }, true),
        vec![
            "To install systemd units, re-run with --enable. Then run:".to_string(),
            "  run: systemctl --user enable --now coda-close.timer".to_string()
        ]
    );
    assert_eq!(
        boot_followup(&BootInstallArgs { enable: true }, true),
        vec!["Unit files installed. Run:".to_string(), format!("  run: {ENABLE_CMD}")]
    );
    // Without --enable nothing is installed, so the outcome does not matter.
    assert_eq!(
        boot_followup(&BootInstallArgs { enable: false }, false),
        boot_followup(&BootInstallArgs { enable: false }, true)
    );
    assert!(HOOK_JSON.contains("coda close --apply --limit 50"));
}

#[test]
fn units_go_to_the_user_systemd_dir() {
    let dest = systemd_user_dir("/home/u");
    assert_eq!(dest, "/home/u/.config/systemd/user");
    assert_eq!(
        unit_copies("/src/install", &dest),
        vec![
            ("/src/install/coda-close.service".to_string(), "/home/u/.config/systemd/user/coda-close.service".to_string()),
            ("/src/install/coda-close.timer".to_string(), "/home/u/.config/systemd/user/coda-close.timer".to_string()),
        ]
    );
    assert_eq!(daemon_reload_args(), vec!["--user".to_string(), "daemon-reload".to_string()]);
}

#[test]
fn install_dir_is_looked_for_beside_the_tree_then_the_binary() {
    assert_eq!(
        install_dir_candidates(Some("/src/coda"), Some("/home/u/.local/bin")),
        vec![
            "/src/coda/install".to_string(),
            "/home/u/.local/bin/install".to_string(),
            "/home/u/.local/bin/../share/coda/install".to_string(),
        ]
    );
    assert_eq!(install_dir_candidates(None, None), Vec::<String>::new());
    assert_eq!(install_dir_candidates(None, Some("/b")), vec!["/b/install".to_string(), "/b/../share/coda/install".to_string()]);
}

#[test]
fn boot_error_messages() {
    assert_eq!(
        missing_install_dir_message(),
        "cannot locate install/ directory; try running from the coda source tree"
    );
    assert_eq!(create_failed_message("/d", "denied"), "failed to create /d: denied");
    assert_eq!(copy_failed_message("/a", "/b", "gone"), "failed to copy /a → /b: gone");
    assert_eq!(systemctl_spawn_message("not found"), "failed to run systemctl: not found");
    assert_eq!(daemon_reload_failed_message(Some(5)), "systemctl --user daemon-reload failed with 5");
    assert_eq!(daemon_reload_failed_message(None), "systemctl --user daemon-reload failed with signal");
}

#[test]
fn failed_install_still_prints_the_enable_command() {
    assert_eq!(
        boot_followup(&BootInstallArgs { enable: true }, false),
        vec!["  run: systemctl --user enable --now coda-close.timer".to_string()]
    );
}
