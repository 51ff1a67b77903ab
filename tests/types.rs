use codex_monitor::types::{AppSettings, BackendType, WorkspaceEntry, WorkspaceKind};

#[test]
fn app_settings_defaults_from_empty_json() {
    let settings = AppSettings::default();
    assert!(settings.codex_bin.is_none());
    assert_eq!(settings.default_access_mode, "current");
}

#[test]
fn workspace_entry_defaults_from_minimal_json() {
    let entry = WorkspaceEntry::with_defaults("1".to_string(), "Test".to_string(), "/tmp".to_string(), None);
    assert!(matches!(entry.kind, WorkspaceKind::Main));
    assert!(matches!(entry.backend, BackendType::Codex));
    assert!(entry.parent_id.is_none());
    assert!(entry.worktree.is_none());
    assert!(entry.opencode_bin.is_none());
    assert!(entry.settings.sort_order.is_none());
}

#[test]
fn worktree_kind_is_recognised() {
    assert!(WorkspaceKind::Worktree.is_worktree());
    assert!(!WorkspaceKind::Main.is_worktree());
    assert!(!WorkspaceKind::default().is_worktree());
    assert_eq!(BackendType::default(), BackendType::Codex);
    assert_eq!(codex_monitor::types::default_access_mode(), "current");
}
