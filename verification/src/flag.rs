//! Message flags.
//!
//! A strongly-typed enum for flags instead of raw strings.  Standard
//! system flags have dedicated variants; arbitrary keyword flags use
//! the `Keyword` variant.

use vstd::prelude::*;

verus! {

/// A message flag.
///
/// System flags (prefixed with `\` on the wire) have dedicated
/// variants.  User-defined keyword flags use [`Flag::Keyword`].
#[derive(Debug, Clone, PartialEq, Eq, Hash)]
pub enum Flag {
    /// Message has been read (`\Seen`).
    Seen,
    /// Message has been answered (`\Answered`).
    Answered,
    /// Message is flagged for attention (`\Flagged`).
    Flagged,
    /// Message is marked for deletion (`\Deleted`).
    Deleted,
    /// Message is a draft (`\Draft`).
    Draft,
    /// A user-defined keyword flag (no `\` prefix).
    Keyword(String),
}

impl Flag {
    /// The wire representation of this flag.
    pub open spec fn spec_imap_str(&self) -> Seq<char> {
        match self {
            Flag::Seen => "\\Seen"@,
            Flag::Answered => "\\Answered"@,
            Flag::Flagged => "\\Flagged"@,
            Flag::Deleted => "\\Deleted"@,
            Flag::Draft => "\\Draft"@,
            Flag::Keyword(kw) => kw@,
        }
    }

    /// The wire representation of this flag.
    ///
    /// System flags include the leading backslash (e.g. `\Seen`).
    /// Keyword flags are returned as-is.
    pub fn as_imap_str(&self) -> (r: &str)
        ensures
            r@ == self.spec_imap_str(),
    {
        match self {
            Flag::Seen => "\\Seen",
            Flag::Answered => "\\Answered",
            Flag::Flagged => "\\Flagged",
            Flag::Deleted => "\\Deleted",
            Flag::Draft => "\\Draft",
            Flag::Keyword(kw) => kw.as_str(),
        }
    }

    /// The wire representation as an owned string.
    pub fn imap_string(&self) -> (r: String)
        ensures
            r@ == self.spec_imap_str(),
    {
        String::from_str(self.as_imap_str())
    }
}

} // verus!
