//! Typed contact-layer error kinds.

use vstd::prelude::*;
use crate::text::{decimal, u64_to_decimal};

verus! {

/// Why a contact lookup or update failed.
#[derive(Debug)]
pub enum ContactErrorKind {
    /// No contact row found for the given identity key or prefix.
    NotFound,
    /// A prefix lookup matched more than one contact.
    Ambiguous { matches: u32 },
    /// Everything else.
    Other(String),
}

/// The message of each kind.
pub open spec fn contact_error_message(e: ContactErrorKind) -> Seq<char> {
    match e {
        ContactErrorKind::NotFound => "contact not found"@,
        ContactErrorKind::Ambiguous { matches } => "contact ambiguous ("@ + decimal(
            matches as nat,
        ) + " matches)"@,
        ContactErrorKind::Other(s) => "contact: "@ + s@,
    }
}

impl ContactErrorKind {
    /// The human-readable message of this error.
    pub fn message(&self) -> (m: String)
        ensures
            m@ == contact_error_message(*self),
    {
        match self {
            ContactErrorKind::NotFound => {
                proof {
                    reveal_strlit("contact not found");
                }
                String::from_str("contact not found")
            },
            ContactErrorKind::Ambiguous { matches } => {
                let mut m = String::from_str("contact ambiguous (");
                let n = u64_to_decimal(*matches as u64);
                m.append(n.as_str());
                m.append(" matches)");
                proof {
                    reveal_strlit("contact ambiguous (");
                    reveal_strlit(" matches)");
                }
                m
            },
            ContactErrorKind::Other(s) => {
                let mut m = String::from_str("contact: ");
                m.append(s.as_str());
                proof {
                    reveal_strlit("contact: ");
                }
                m
            },
        }
    }
}

} // verus!
