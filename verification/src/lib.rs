//! Core of a local session supervisor that hosts concurrent runs of an
//! external conversational coding agent: durable session state machine,
//! event codec, dashboard projection, worktree path management, and the
//! supervisor's terminal-transition and interrupt protocols.

pub mod cli;
pub mod codec;
pub mod events;
pub mod json;
pub mod laws;
pub mod orchestrator;
pub mod projection;
pub mod records;
pub mod status;
pub mod store;
pub mod supervisor;
pub mod text;
pub mod worktree;

pub use status::is_terminal_status;
