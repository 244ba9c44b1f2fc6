//! Mailbox folder names.
//!
//! Well-known folders like the inbox, sent mail and trash have
//! dedicated variants.  User-defined folders use the `Custom`
//! variant.  The inbox is matched case-insensitively; every other
//! name is an exact match.

use vstd::prelude::*;
use crate::text::{seq_eq_ic, str_eq, str_eq_ic};

verus! {

/// A mailbox folder.
///
/// Well-known folders have dedicated variants that map to their
/// standard names.  For user-created folders, use [`Folder::custom`].
#[derive(Debug, Clone, PartialEq, Eq, Hash)]
pub enum Folder {
    /// The inbox (required by the protocol, case-insensitive).
    Inbox,
    /// Sent messages.
    Sent,
    /// Draft messages.
    Drafts,
    /// Deleted messages.
    Trash,
    /// Spam / junk messages.
    Spam,
    /// Archived messages.
    Archive,
    /// A user-defined or server-specific folder.
    Custom(String),
}

impl Folder {
    /// The folder name on the wire.
    pub open spec fn spec_name(&self) -> Seq<char> {
        match self {
            Folder::Inbox => "INBOX"@,
            Folder::Sent => "Sent"@,
            Folder::Drafts => "Drafts"@,
            Folder::Trash => "Trash"@,
            Folder::Spam => "Spam"@,
            Folder::Archive => "Archive"@,
            Folder::Custom(name) => name@,
        }
    }

    /// Create a folder for a user-defined or non-standard mailbox.
    pub fn custom(name: &str) -> (r: Self)
        ensures
            r matches Folder::Custom(n) && n@ == name@,
    {
        Folder::Custom(String::from_str(name))
    }

    /// The folder name as a string slice.
    pub fn as_str(&self) -> (r: &str)
        ensures
            r@ == self.spec_name(),
    {
        match self {
            Folder::Inbox => "INBOX",
            Folder::Sent => "Sent",
            Folder::Drafts => "Drafts",
            Folder::Trash => "Trash",
            Folder::Spam => "Spam",
            Folder::Archive => "Archive",
            Folder::Custom(name) => name.as_str(),
        }
    }

    /// The folder name as an owned string.
    pub fn name_string(&self) -> (r: String)
        ensures
            r@ == self.spec_name(),
    {
        String::from_str(self.as_str())
    }

    /// Recognise a folder from its name.
    ///
    /// The inbox name is matched without regard to ASCII case; the
    /// other well-known names match exactly; anything else becomes a
    /// custom folder carrying the name unchanged.
    pub fn from_name(s: &str) -> (r: Self)
        ensures
            seq_eq_ic(s@, "inbox"@) ==> r is Inbox,
            !seq_eq_ic(s@, "inbox"@) ==> {
                if s@ == "Sent"@ {
                    r is Sent
                } else if s@ == "Drafts"@ {
                    r is Drafts
                } else if s@ == "Trash"@ {
                    r is Trash
                } else if s@ == "Spam"@ {
                    r is Spam
                } else if s@ == "Archive"@ {
                    r is Archive
                } else {
                    r matches Folder::Custom(n) && n@ == s@
                }
            },
    {
        if str_eq_ic(s, "inbox") {
            Folder::Inbox
        } else if str_eq(s, "Sent") {
            Folder::Sent
        } else if str_eq(s, "Drafts") {
            Folder::Drafts
        } else if str_eq(s, "Trash") {
            Folder::Trash
        } else if str_eq(s, "Spam") {
            Folder::Spam
        } else if str_eq(s, "Archive") {
            Folder::Archive
        } else {
            Folder::Custom(String::from_str(s))
        }
    }
}

impl<'a> From<&'a str> for Folder {
    fn from(s: &'a str) -> Self {
        Folder::from_name(s)
    }
}

impl<'a> vstd::std_specs::convert::FromSpecImpl<&'a str> for Folder {
    /// The exact contract lives on [`Folder::from_name`]; the name of
    /// a custom folder cannot be stated as a spec-level value of
    /// `Self`, so the conversion trait itself promises nothing.
    open spec fn obeys_from_spec() -> bool {
        false
    }

    open spec fn from_spec(s: &'a str) -> Folder {
        Folder::Inbox
    }
}

impl From<String> for Folder {
    fn from(s: String) -> Self {
        Folder::from_name(s.as_str())
    }
}

impl vstd::std_specs::convert::FromSpecImpl<String> for Folder {
    /// As for `&str`: the exact contract lives on `from_name`.
    open spec fn obeys_from_spec() -> bool {
        false
    }

    open spec fn from_spec(s: String) -> Folder {
        Folder::Inbox
    }
}

} // verus!
