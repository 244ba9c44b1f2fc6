//! Flag and folder naming behaviour.

use protonmail_client::{Flag, Folder};

#[test]
fn system_flags() {
    assert_eq!(Flag::Seen.as_imap_str(), "\\Seen");
    assert_eq!(Flag::Answered.as_imap_str(), "\\Answered");
    assert_eq!(Flag::Flagged.as_imap_str(), "\\Flagged");
    assert_eq!(Flag::Deleted.as_imap_str(), "\\Deleted");
    assert_eq!(Flag::Draft.as_imap_str(), "\\Draft");
}

#[test]
fn keyword_flag() {
    let kw = Flag::Keyword("$Important".to_string());
    assert_eq!(kw.as_imap_str(), "$Important");
}

#[test]
fn display_matches_imap_str() {
    assert_eq!(Flag::Seen.imap_string(), "\\Seen");
    assert_eq!(Flag::Keyword("$Junk".to_string()).imap_string(), "$Junk");
}

#[test]
fn inbox_name() {
    assert_eq!(Folder::Inbox.as_str(), "INBOX");
}

#[test]
fn custom_name() {
    let f = Folder::custom("Work");
    assert_eq!(f.as_str(), "Work");
}

#[test]
fn from_str_inbox_case_insensitive() {
    assert_eq!(Folder::from("inbox"), Folder::Inbox);
    assert_eq!(Folder::from("INBOX"), Folder::Inbox);
    assert_eq!(Folder::from("Inbox"), Folder::Inbox);
}

#[test]
fn from_str_known_folders() {
    assert_eq!(Folder::from("Sent"), Folder::Sent);
    assert_eq!(Folder::from("Drafts"), Folder::Drafts);
    assert_eq!(Folder::from("Trash"), Folder::Trash);
    assert_eq!(Folder::from("Spam"), Folder::Spam);
    assert_eq!(Folder::from("Archive"), Folder::Archive);
}

#[test]
fn from_str_unknown_becomes_custom() {
    assert_eq!(Folder::from("My Stuff"), Folder::Custom("My Stuff".to_string()));
}

#[test]
fn display_matches_as_str() {
    assert_eq!(Folder::Inbox.name_string(), "INBOX");
    assert_eq!(Folder::custom("Notes").name_string(), "Notes");
}
