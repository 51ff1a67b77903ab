use crate::text::owned;
use vstd::prelude::*;

verus! {

/// Which command-line backend a workspace uses.
#[derive(PartialEq, Eq, Structural, Clone, Copy, Debug)]
pub enum BackendType {
    Codex,
    OpenCode,
}

impl Default for BackendType {
    fn default() -> (r: Self)
        ensures
            r == BackendType::Codex,
    {
        BackendType::Codex
    }
}

/// Whether a workspace is a main checkout or a worktree of one.
#[derive(PartialEq, Eq, Structural, Clone, Copy, Debug)]
pub enum WorkspaceKind {
    Main,
    Worktree,
}

impl Default for WorkspaceKind {
    fn default() -> (r: Self)
        ensures
            r == WorkspaceKind::Main,
    {
        WorkspaceKind::Main
    }
}

impl WorkspaceKind {
    /// Whether this is a worktree.
    pub fn is_worktree(&self) -> (r: bool)
        ensures
            r == (*self == WorkspaceKind::Worktree),
    {
        match self {
            WorkspaceKind::Worktree => true,
            WorkspaceKind::Main => false,
        }
    }
}

/// The branch a worktree follows.
pub struct WorktreeInfo {
    pub branch: String,
}

/// Per-workspace display settings.
pub struct WorkspaceSettings {
    pub sidebar_collapsed: bool,
    pub sort_order: Option<u32>,
}

impl Default for WorkspaceSettings {
    fn default() -> (r: Self)
        ensures
            !r.sidebar_collapsed,
            r.sort_order is None,
    {
        WorkspaceSettings { sidebar_collapsed: false, sort_order: None }
    }
}

/// A project root and how its backend is run; it does not change while a
/// session runs.
pub struct WorkspaceEntry {
    pub id: String,
    pub name: String,
    pub path: String,
    pub codex_bin: Option<String>,
    pub opencode_bin: Option<String>,
    pub backend: BackendType,
    pub kind: WorkspaceKind,
    pub parent_id: Option<String>,
    pub worktree: Option<WorktreeInfo>,
    pub settings: WorkspaceSettings,
}

impl WorkspaceEntry {
    /// An entry with the given identity, name, root and Codex binary, and
    /// every other field at its default.
    pub fn with_defaults(id: String, name: String, path: String, codex_bin: Option<String>) -> (r:
        Self)
        ensures
            r.id == id,
            r.name == name,
            r.path == path,
            r.codex_bin == codex_bin,
            r.opencode_bin is None,
            r.backend == BackendType::Codex,
            r.kind == WorkspaceKind::Main,
            r.parent_id is None,
            r.worktree is None,
            !r.settings.sidebar_collapsed,
            r.settings.sort_order is None,
    {
        WorkspaceEntry {
            id,
            name,
            path,
            codex_bin,
            opencode_bin: None,
            backend: BackendType::Codex,
            kind: WorkspaceKind::Main,
            parent_id: None,
            worktree: None,
            settings: WorkspaceSettings { sidebar_collapsed: false, sort_order: None },
        }
    }
}

/// Application-wide settings.
pub struct AppSettings {
    pub codex_bin: Option<String>,
    pub opencode_bin: Option<String>,
    pub default_access_mode: String,
}

/// The access mode used when none is configured.
pub fn default_access_mode() -> (r: String)
    ensures
        r@ == "current"@,
{
    owned("current")
}

impl Default for AppSettings {
    fn default() -> (r: Self)
        ensures
            r.codex_bin is None,
            r.opencode_bin is None,
            r.default_access_mode@ == "current"@,
    {
        AppSettings { codex_bin: None, opencode_bin: None, default_access_mode: default_access_mode() }
    }
}

/// A conversation held by the backend.
pub struct OpenCodeSessionInfo {
    pub id: String,
    pub title: Option<String>,
    pub created_at: Option<i64>,
    pub updated_at: Option<i64>,
}

impl OpenCodeSessionInfo {
    /// The summary of a conversation just created under identifier `id`.
    pub fn created(id: String) -> (r: Self)
        ensures
            r.id == id,
            r.title is Some && r.title->0@ == "New Session"@,
            r.created_at is None,
            r.updated_at is None,
    {
        OpenCodeSessionInfo {
            id,
            title: Some(owned("New Session")),
            created_at: None,
            updated_at: None,
        }
    }
}

} // verus!
