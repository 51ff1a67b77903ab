use codex_monitor::probe::{doctor_report, exit_verdict_of_trimmed, probe_verdict, ProbeOutcome, PROBE_TIMEOUT_SECS};

fn exited(success: bool, stdout: &str, stderr: &str) -> ProbeOutcome {
    ProbeOutcome::Exited { success, stdout: stdout.to_string(), stderr: stderr.to_string() }
}

#[test]
fn missing_binary_suggests_a_remedy() {
    let e = probe_verdict(&ProbeOutcome::NotFound).unwrap_err();
    assert_eq!(e, "OpenCode CLI not found. Install OpenCode and ensure `opencode` is on your PATH.");
}

#[test]
fn failing_exit_reports_stderr() {
    let e = probe_verdict(&exited(false, "ignored", "  bad config\n")).unwrap_err();
    assert!(e.contains("bad config"));
    assert_eq!(e, "OpenCode CLI failed to start: bad config. Try running `opencode --version` in Terminal.");
}

#[test]
fn failing_exit_falls_back_to_stdout_then_generic() {
    let e = probe_verdict(&exited(false, " usage \n", " \n")).unwrap_err();
    assert_eq!(e, "OpenCode CLI failed to start: usage. Try running `opencode --version` in Terminal.");
    let e = probe_verdict(&exited(false, "", "")).unwrap_err();
    assert_eq!(e, "OpenCode CLI failed to start. Try running `opencode --version` in Terminal.");
}

#[test]
fn probe_timeout_has_its_own_message() {
    assert_eq!(PROBE_TIMEOUT_SECS, 5);
    let e = probe_verdict(&ProbeOutcome::TimedOut).unwrap_err();
    assert_eq!(e, "Timed out while checking OpenCode CLI. Make sure `opencode --version` runs in Terminal.");
    let e = probe_verdict(&ProbeOutcome::SpawnFailed("permission denied".to_string())).unwrap_err();
    assert_eq!(e, "permission denied");
}

#[test]
fn success_reports_trimmed_version() {
    assert_eq!(probe_verdict(&exited(true, "  1.2.3\n", "warn")), Ok(Some("1.2.3".to_string())));
    assert_eq!(probe_verdict(&exited(true, " \n", "")), Ok(None));
    assert_eq!(exit_verdict_of_trimmed(true, "0.9", ""), Ok(Some("0.9".to_string())));
}

#[test]
fn doctor_summary() {
    let r = doctor_report(Some("1.0".to_string()), true);
    assert!(r.ok && r.acp_ok && r.details.is_none());
    let r = doctor_report(Some("1.0".to_string()), false);
    assert!(!r.ok);
    assert_eq!(r.details.as_deref(), Some("Failed to run `opencode acp --help`."));
    assert!(!doctor_report(None, true).ok);
}
