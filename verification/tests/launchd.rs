use tailcloak::launchd::{
    bootstrap_outcome, gui_domain, log_path, plist_contents, plist_path, service_target,
    uid_from_output, LaunchdError, LABEL,
};

#[test]
fn plist_embeds_binary_path_log_and_label() {
    let xml = plist_contents(
        "/Users/me/.cargo/bin/tailcloak",
        "/Users/me/Library/Logs/tailcloak.log",
    );
    assert!(xml.contains("<string>/Users/me/.cargo/bin/tailcloak</string>"));
    assert!(xml.contains("/Users/me/Library/Logs/tailcloak.log"));
    assert!(xml.contains(&format!("<string>{LABEL}</string>")));
    assert!(xml.contains("<key>RunAtLoad</key>\n    <true/>"));
}

#[test]
fn plist_is_well_framed() {
    let xml = plist_contents("/bin/x", "/tmp/log");
    assert!(xml.starts_with("<?xml version=\"1.0\" encoding=\"UTF-8\"?>\n"));
    assert!(xml.ends_with("</dict>\n</plist>\n"));
    assert_eq!(xml.matches("<string>/tmp/log</string>").count(), 2);
}

#[test]
fn agent_paths_live_under_home() {
    assert_eq!(
        plist_path(Some("/Users/me")),
        Ok("/Users/me/Library/LaunchAgents/dev.fmeier.tailcloak.plist".to_string())
    );
    assert_eq!(
        log_path(Some("/Users/me/")),
        Ok("/Users/me/Library/Logs/tailcloak.log".to_string())
    );
    assert_eq!(plist_path(None), Err(LaunchdError::HomeNotSet));
    assert_eq!(LaunchdError::HomeNotSet.message(), "HOME is not set");
}

#[test]
fn launchctl_targets() {
    assert_eq!(gui_domain("501"), "gui/501");
    assert_eq!(service_target("501"), "gui/501/dev.fmeier.tailcloak");
}

#[test]
fn uid_is_trimmed_output() {
    assert_eq!(uid_from_output(true, b"501\n".to_vec()), Ok("501".to_string()));
    assert_eq!(uid_from_output(false, b"501\n".to_vec()), Err(LaunchdError::IdFailed));
    let bad = uid_from_output(true, vec![0xff, 0x35]).unwrap_err();
    assert_eq!(bad, LaunchdError::IdOutputNotUtf8 { valid_up_to: 0, error_len: Some(1) });
    assert_eq!(bad.message(), "invalid utf-8 sequence of 1 bytes from index 0");
    let cut = uid_from_output(true, vec![0x35, 0xe2, 0x82]).unwrap_err();
    assert_eq!(cut, LaunchdError::IdOutputNotUtf8 { valid_up_to: 1, error_len: None });
    assert_eq!(cut.message(), "incomplete utf-8 byte sequence from index 1");
}

#[test]
fn bootstrap_failure_names_status() {
    assert_eq!(bootstrap_outcome(true, "exit status: 0"), Ok(()));
    assert_eq!(
        bootstrap_outcome(false, "exit status: 5"),
        Err("launchctl bootstrap failed (exit status: 5)".to_string())
    );
}
