//! Host-side logic of the Helmor desktop app: resource limits, Codex
//! configuration lookup, the UI-sync wire protocol, Windows shell helpers and
//! the workspace script runner's bookkeeping.

pub mod limits;
pub mod text;
pub mod registry;
pub mod scripts;
pub mod paths;
pub mod codex_config;
pub mod ui_sync;
pub mod windows_shell;
