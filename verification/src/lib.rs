//! Managed Git worktrees and their agent sessions: the decisions, formats and
//! parsers of the `david` command line tool.

pub mod app;
pub mod arguments;
pub mod bytes;
pub mod cli;
pub mod config;
pub mod direct;
pub mod dispatch;
pub mod error;
pub mod flow;
pub mod git;
pub mod hex;
pub mod identity;
pub mod keys;
pub mod layout;
pub mod listing;
pub mod migrate;
pub mod order;
pub mod path;
pub mod plans;
pub mod process;
pub mod prompting;
pub mod selection;
pub mod settings;
pub mod setup;
pub mod state;
pub mod steps;
pub mod storage;
pub mod tasks;
pub mod text;
pub mod tmux;
pub mod views;
pub mod worktree;

pub use crate::app::{AgentPicker, App, SessionBackend};
pub use crate::config::{Agent, Config};
pub use crate::error::ToolError;
pub use crate::git::Git;
pub use crate::identity::{repository_id, stable_hash};
pub use crate::layout::{validate_worktree_name, DavidPaths};
pub use crate::selection::{RunOptions, TerminalAgentPicker};
pub use crate::state::SessionMetadata;
pub use crate::tmux::TmuxBackend;
pub use crate::worktree::{parse_worktree_list, parse_worktree_list_bytes, Worktree};
