//! Failures of reading the archive and of delivering files.

use vstd::prelude::*;

verus! {

/// Why a page could not become a work or a series, or a work could not be
/// placed.
#[derive(Clone, Copy, Debug, PartialEq, Eq, Structural)]
pub enum Ao3Error {
    /// A required element is missing or does not parse.
    Extraction,
    /// The archive asks for an account to show the page.
    Restricted,
    /// The identifier leads to no work or series, or a work is not part of
    /// the series it is filed under.
    NotFound,
}

} // verus!
