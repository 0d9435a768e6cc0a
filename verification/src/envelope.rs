//! The message envelope: id, sender timestamp and payload kind.

use vstd::prelude::*;
use crate::contact::card::{ContactCard, ContactCardView};

verus! {

/// 16-byte per-message id.
#[derive(Debug, Clone, Copy, PartialEq, Eq, Hash)]
pub struct MessageId(pub [u8; 16]);

/// Envelope payload.
#[derive(Debug)]
pub enum Kind {
    /// A text message.
    Text { body: String },
    /// A file announcement carrying the encoded attachment manifest.
    File { manifest: Vec<u8> },
    /// A new routing card from the sender; produced only by the daemon's own
    /// card-publishing path, never sent by a user.
    ContactCardUpdate { card: ContactCard },
}

/// Mathematical value of a payload.
pub enum KindView {
    Text(Seq<char>),
    File(Seq<u8>),
    ContactCardUpdate(ContactCardView),
}

impl View for Kind {
    type V = KindView;

    open spec fn view(&self) -> KindView {
        match self {
            Kind::Text { body } => KindView::Text(body@),
            Kind::File { manifest } => KindView::File(manifest@),
            Kind::ContactCardUpdate { card } => KindView::ContactCardUpdate(card@),
        }
    }
}

impl Kind {
    /// A copy of this payload.
    pub fn duplicate(&self) -> (k: Kind)
        ensures
            k@ == self@,
    {
        match self {
            Kind::Text { body } => Kind::Text { body: body.clone() },
            Kind::File { manifest } => Kind::File { manifest: manifest.clone() },
            Kind::ContactCardUpdate { card } => Kind::ContactCardUpdate { card: card.duplicate() },
        }
    }
}

impl Clone for Kind {
    fn clone(&self) -> Self {
        self.duplicate()
    }
}

/// A message as sealed by its sender.
#[derive(Debug)]
pub struct Envelope {
    /// Envelope format version.
    pub v: u8,
    /// Per-message id.
    pub id: MessageId,
    /// Sender-claimed timestamp, in milliseconds since the Unix epoch.
    pub ts: i64,
    /// Message this one replies to, if any.
    pub reply_to: Option<MessageId>,
    /// Payload.
    pub kind: Kind,
}

} // verus!
