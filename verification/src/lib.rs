//! Organises git worktrees (and jj workspaces) under `~/.worktrees/<repo>/<name>`.
pub mod text;
pub mod paths;
pub mod order;
pub mod worktree;
pub mod jj;
pub mod shell;
pub mod laws;
