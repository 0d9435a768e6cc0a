//! Contacts and their routing info.
//!
//! A [`Contact`] is the local view of someone we can talk to: their identity
//! key, a nickname, and the most recent [`ContactCard`] we verified. The card
//! is the signed, versioned, self-published routing record (onion address,
//! mailboxes, version).

pub mod card;
#[allow(clippy::module_inception)]
pub mod contact;
pub mod error_kind;
pub mod rotation;
pub mod self_card;

pub use card::{ContactCard, ContactCardBody};
pub use contact::Contact;
pub use error_kind::ContactErrorKind;
