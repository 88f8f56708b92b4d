//! Sessions of interactive terminals, and what each of them is doing.
//!
//! A session is a pseudo-terminal with a shell or a command on it. This library
//! holds what is decided about sessions: how the bytes that a terminal produces
//! are cut into text (`stream`, `pty`), which command a session runs (`command`),
//! which sessions there are and what a request on them comes to (`commands`),
//! and what the signal files of the sessions tell of their activity (`activity`,
//! `notifications`). Beside these stand the decisions about worktrees (`git`)
//! and hooks (`hooks_config`). The system calls are made by the caller, which
//! hands their outcomes in and carries the decisions out.

pub mod activity;
pub mod command;
pub mod commands;
pub mod config;
pub mod error;
pub mod git;
pub mod hooks_config;
pub mod notifications;
pub mod pty;
pub mod stream;
pub mod table;
pub mod text;
