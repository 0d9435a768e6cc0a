//! CLI ↔ daemon IPC: wire types, frame header rules, and the per-connection
//! decisions of the server.

pub mod codec;
pub mod server;
pub mod wire;
