//! The daemon's public surface: commands, events, configuration, IPC.

pub mod attachment_janitor;
pub mod clock;
pub mod commands;
pub mod config;
pub mod dispatch;
pub mod error_kind;
pub mod events;
pub mod hex;
pub mod inbound;
pub mod ipc;
pub mod listing;
pub mod logs;
