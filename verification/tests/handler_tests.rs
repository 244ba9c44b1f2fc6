//! The simple command handlers, exercised over rendered wire text,
//! mirroring the behaviour of an in-process authority.

use protonmail_client::dispatch::{
    handle_capability, handle_list, handle_login, handle_logout, handle_noop, handle_select,
    ConnState,
};
use protonmail_client::mailbox::{Mailbox, MailboxBuilder};
use protonmail_client::reply::{render_reply, Chunk, Reply};

fn render_all(tag: &str, replies: &[Reply]) -> String {
    let mut out = String::new();
    for r in replies {
        for ch in render_reply(tag, r) {
            match ch {
                Chunk::Text(t) => out.push_str(&t),
                Chunk::Raw(b) => out.push_str(&String::from_utf8(b).unwrap()),
            }
        }
    }
    out
}

fn make_raw_email() -> Vec<u8> {
    b"From: a@b.com\r\nSubject: Test\r\n\r\nBody".to_vec()
}

#[test]
fn sends_capability_list() {
    let output = render_all("A1", &handle_capability());
    assert!(output.contains("* CAPABILITY IMAP4rev1 STARTTLS"));
    assert!(output.contains("A1 OK CAPABILITY completed"));
}

#[test]
fn lists_all_folders() {
    let mailbox = MailboxBuilder::new().folder("INBOX").folder("Sent").folder("Trash").build();
    let output = render_all("A1", &handle_list(&mailbox));
    assert!(output.contains("\"INBOX\""));
    assert!(output.contains("\"Sent\""));
    assert!(output.contains("\"Trash\""));
}

#[test]
fn ends_with_tagged_ok() {
    let mailbox = MailboxBuilder::new().folder("INBOX").build();
    let output = render_all("T1", &handle_list(&mailbox));
    assert!(output.ends_with("T1 OK LIST completed\r\n"));
}

#[test]
fn empty_mailbox_returns_only_ok() {
    let mailbox = MailboxBuilder::new().build();
    let output = render_all("T2", &handle_list(&mailbox));
    assert_eq!(output, "T2 OK LIST completed\r\n");
}

#[test]
fn includes_has_no_children_flag() {
    let mailbox = MailboxBuilder::new().folder("INBOX").build();
    let output = render_all("T3", &handle_list(&mailbox));
    assert!(output.contains("\\HasNoChildren"));
}

#[test]
fn responds_with_ok() {
    let output = render_all("A0001", &handle_login());
    assert_eq!(output, "A0001 OK LOGIN completed\r\n");
}

#[test]
fn echoes_client_tag() {
    let output = render_all("TAG42", &handle_login());
    assert!(output.starts_with("TAG42 "));
}

#[test]
fn sends_bye_then_ok() {
    let output = render_all("A0005", &handle_logout());
    assert!(output.starts_with("* BYE\r\n"));
    assert!(output.contains("A0005 OK LOGOUT completed\r\n"));
}

#[test]
fn bye_comes_before_ok() {
    let output = render_all("X1", &handle_logout());
    let bye_pos = output.find("* BYE").unwrap();
    let ok_pos = output.find("X1 OK").unwrap();
    assert!(bye_pos < ok_pos);
}

#[test]
fn sends_ok() {
    let output = render_all("A1", &handle_noop());
    assert!(output.contains("A1 OK NOOP completed"));
}

fn run_select(tag: &str, folder_name: &str, mailbox: &Mailbox) -> (String, Option<String>) {
    let mut st = ConnState::new();
    let output = render_all(tag, &handle_select(mailbox, folder_name, &mut st));
    (output, st.selected)
}

#[test]
fn selects_existing_folder() {
    let raw = make_raw_email();
    let mailbox = MailboxBuilder::new()
        .folder("INBOX")
        .email(1, false, raw.clone())
        .email(2, true, raw.clone())
        .build();
    let (output, selected) = run_select("A1", "INBOX", &mailbox);
    assert_eq!(selected, Some("INBOX".to_string()));
    assert!(output.contains("* 2 EXISTS"));
    assert!(output.contains("UIDVALIDITY"));
    assert!(output.contains("A1 OK"));
}

#[test]
fn returns_none_for_missing_folder() {
    let mailbox = MailboxBuilder::new().folder("INBOX").build();
    let (output, selected) = run_select("A1", "NoSuchFolder", &mailbox);
    assert!(selected.is_none());
    assert!(output.contains("A1 NO Folder not found"));
}

#[test]
fn exists_count_matches_email_count() {
    let raw = make_raw_email();
    let mailbox = MailboxBuilder::new()
        .folder("INBOX")
        .email(1, true, raw.clone())
        .email(2, true, raw.clone())
        .email(3, false, raw.clone())
        .build();
    let (output, _) = run_select("A1", "INBOX", &mailbox);
    assert!(output.contains("* 3 EXISTS"));
}

#[test]
fn sends_flags_response() {
    let mailbox = MailboxBuilder::new().folder("INBOX").build();
    let (output, _) = run_select("A1", "INBOX", &mailbox);
    assert!(output.contains("* FLAGS (\\Seen \\Answered \\Flagged \\Deleted \\Draft)"));
}

#[test]
fn sends_recent_response() {
    let mailbox = MailboxBuilder::new().folder("INBOX").build();
    let (output, _) = run_select("A1", "INBOX", &mailbox);
    assert!(output.contains("* 0 RECENT"));
}

#[test]
fn sends_uidnext_response() {
    let raw = make_raw_email();
    let mailbox = MailboxBuilder::new()
        .folder("INBOX")
        .email(5, true, raw.clone())
        .email(10, true, raw.clone())
        .build();
    let (output, _) = run_select("A1", "INBOX", &mailbox);
    assert!(output.contains("* OK [UIDNEXT 11]"));
}

#[test]
fn sends_uidnext_1_for_empty_folder() {
    let mailbox = MailboxBuilder::new().folder("INBOX").build();
    let (output, _) = run_select("A1", "INBOX", &mailbox);
    assert!(output.contains("* OK [UIDNEXT 1]"));
}

#[test]
fn sends_permanentflags_response() {
    let mailbox = MailboxBuilder::new().folder("INBOX").build();
    let (output, _) = run_select("A1", "INBOX", &mailbox);
    assert!(output.contains("* OK [PERMANENTFLAGS (\\Seen \\Deleted)] Limited"));
}

#[test]
fn sends_unseen_for_first_unseen_message() {
    let raw = make_raw_email();
    let mailbox = MailboxBuilder::new()
        .folder("INBOX")
        .email(1, true, raw.clone())
        .email(2, true, raw.clone())
        .email(3, false, raw.clone())
        .build();
    let (output, _) = run_select("A1", "INBOX", &mailbox);
    assert!(output.contains("* OK [UNSEEN 3]"));
}

#[test]
fn no_unseen_when_all_read() {
    let raw = make_raw_email();
    let mailbox = MailboxBuilder::new()
        .folder("INBOX")
        .email(1, true, raw.clone())
        .email(2, true, raw.clone())
        .build();
    let (output, _) = run_select("A1", "INBOX", &mailbox);
    assert!(!output.contains("UNSEEN"));
}

#[test]
fn select_on_missing_folder_keeps_prior_selection() {
    let mailbox = MailboxBuilder::new().folder("INBOX").folder("Sent").build();
    let mut st = ConnState::new();
    let _ = handle_select(&mailbox, "Sent", &mut st);
    assert_eq!(st.selected, Some("Sent".to_string()));
    let output = render_all("A2", &handle_select(&mailbox, "Gone", &mut st));
    assert!(output.contains("A2 NO Folder not found"));
    assert_eq!(st.selected, Some("Sent".to_string()));
}
