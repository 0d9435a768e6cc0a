//! File-system paths as carried through configuration and commands.

use vstd::prelude::*;

verus! {

/// `std::path::PathBuf`, carried through the library without being inspected.
#[verifier::external_type_specification]
#[verifier::external_body]
pub struct ExPathBuf(std::path::PathBuf);

/// A `PathBuf` naming the relative path `s` (std `PathBuf::from`).
///
/// Trusted: nothing is stated of the result, which Verus cannot inspect.
#[verifier::external_body]
pub(crate) fn path_from(s: &str) -> std::path::PathBuf {
    std::path::PathBuf::from(s)
}

} // verus!
