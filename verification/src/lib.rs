//! Core library of a private messenger daemon: wire types, configuration,
//! attachment manifests, contact cards, hex encoding, log redaction and the
//! IPC framing rules, each stated and proved with Verus.

pub mod attachment;
pub mod cbor;
pub mod cli;
pub mod contact;
pub mod digest;
pub mod envelope;
pub mod identity;
pub mod paths;
pub mod text;

pub mod daemon;
