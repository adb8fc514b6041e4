//! Parses the change notification that a flake lock update prints and
//! renders each change as one Markdown line.
use vstd::prelude::*;

pub mod scan;
pub mod flake_ref;
pub mod entry;
pub mod laws;

pub use entry::{AddInfo, Entry, UpdateInfo, parse_document, parse_entries, parse_entry, parse_header};
pub use flake_ref::{DatedFlakeRef, FlakeRef, FlakeRefType};

verus! {

/// Why a parse failed.
#[derive(Debug, Clone, Copy, PartialEq, Eq, Structural)]
pub enum ParseError {
    /// The input does not start with the title line and one blank line.
    Header,
    /// A block, a quoted field or a line ending is missing or malformed.
    Block,
    /// A locator names a provider other than `github` or `gitlab`.
    Provider,
    /// A locator has no `:`, or its body is empty or does not hold exactly two `/`.
    Locator,
}

} // verus!
