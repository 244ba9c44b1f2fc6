//! Search evaluation: flags, date bounds, and date extraction.

use protonmail_client::date::message_date;
use protonmail_client::dispatch::{handle_search, ConnState};
use protonmail_client::mailbox::{Mailbox, MailboxBuilder};
use protonmail_client::reply::{render_reply, Chunk, Reply};
use protonmail_client::{Date, Pred};

fn render_all(tag: &str, replies: &[Reply]) -> String {
    let mut out = String::new();
    for r in replies {
        for ch in render_reply(tag, r) {
            match ch {
                Chunk::Text(t) => out.push_str(&t),
                Chunk::Raw(b) => out.push_str(&String::from_utf8(b).unwrap()),
            }
        }
    }
    out
}

fn make_raw_email() -> Vec<u8> {
    b"From: a@b.com\r\nSubject: Test\r\n\r\nBody".to_vec()
}

fn make_dated_email(date: &str) -> Vec<u8> {
    format!("From: a@b.com\r\nDate: {date}\r\nSubject: Test\r\n\r\nBody").into_bytes()
}

fn run(tag: &str, criteria: &[Pred], mailbox: &Mailbox, selected: Option<&str>) -> String {
    let st = ConnState { selected: selected.map(|s| s.to_string()) };
    let mut crit = Vec::new();
    for c in criteria {
        crit.push(clone_pred(c));
    }
    render_all(tag, &handle_search(mailbox, &crit, &st))
}

fn clone_pred(p: &Pred) -> Pred {
    match p {
        Pred::All => Pred::All,
        Pred::Seen => Pred::Seen,
        Pred::Unseen => Pred::Unseen,
        Pred::Since(d) => Pred::Since(*d),
        Pred::Before(d) => Pred::Before(*d),
        Pred::And(a, b) => Pred::And(Box::new(clone_pred(a)), Box::new(clone_pred(b))),
        Pred::Or(a, b) => Pred::Or(Box::new(clone_pred(a)), Box::new(clone_pred(b))),
        Pred::Not(a) => Pred::Not(Box::new(clone_pred(a))),
        Pred::Other => Pred::Other,
    }
}

fn date(y: i32, m: u32, d: u32) -> Date {
    Date::new(y, m, d)
}

#[test]
fn search_all_returns_all_uids() {
    let raw = make_raw_email();
    let mailbox = MailboxBuilder::new()
        .folder("INBOX")
        .email(1, true, raw.clone())
        .email(2, false, raw.clone())
        .email(5, true, raw.clone())
        .build();
    let output = run("A1", &[Pred::All], &mailbox, Some("INBOX"));
    assert!(output.contains("* SEARCH 1 2 5"));
    assert!(output.contains("A1 OK SEARCH completed"));
}

#[test]
fn search_unseen_filters_seen() {
    let raw = make_raw_email();
    let mailbox = MailboxBuilder::new()
        .folder("INBOX")
        .email(1, true, raw.clone())
        .email(2, false, raw.clone())
        .email(3, true, raw.clone())
        .build();
    let output = run("A1", &[Pred::Unseen], &mailbox, Some("INBOX"));
    assert!(output.contains("* SEARCH 2\r\n"));
}

#[test]
fn uid_search_no_folder_selected_returns_bad() {
    let mailbox = MailboxBuilder::new().folder("INBOX").build();
    let output = run("A1", &[Pred::All], &mailbox, None);
    assert!(output.contains("A1 BAD No folder selected"));
}

#[test]
fn missing_folder_returns_bad() {
    let mailbox = MailboxBuilder::new().folder("INBOX").build();
    let output = run("A1", &[Pred::All], &mailbox, Some("Gone"));
    assert!(output.contains("A1 BAD Folder not found"));
}

#[test]
fn empty_folder_returns_empty_search() {
    let mailbox = MailboxBuilder::new().folder("INBOX").build();
    let output = run("A1", &[Pred::All], &mailbox, Some("INBOX"));
    assert!(output.contains("* SEARCH \r\n"));
    assert!(output.contains("A1 OK SEARCH completed"));
}

#[test]
fn since_filters_older_emails() {
    let old = make_dated_email("Mon, 01 Jan 2024 10:00:00 +0000");
    let new = make_dated_email("Mon, 15 Jan 2024 10:00:00 +0000");
    let mailbox = MailboxBuilder::new()
        .folder("INBOX")
        .email(1, true, old)
        .email(2, true, new)
        .build();
    let output = run("A1", &[Pred::Since(date(2024, 1, 10))], &mailbox, Some("INBOX"));
    assert!(output.contains("* SEARCH 2\r\n"));
}

#[test]
fn before_filters_newer_emails() {
    let old = make_dated_email("Mon, 01 Jan 2024 10:00:00 +0000");
    let new = make_dated_email("Mon, 15 Jan 2024 10:00:00 +0000");
    let mailbox = MailboxBuilder::new()
        .folder("INBOX")
        .email(1, true, old)
        .email(2, true, new)
        .build();
    let output = run("A1", &[Pred::Before(date(2024, 1, 10))], &mailbox, Some("INBOX"));
    assert!(output.contains("* SEARCH 1\r\n"));
}

#[test]
fn since_before_combined_range() {
    let jan1 = make_dated_email("Mon, 01 Jan 2024 10:00:00 +0000");
    let jan10 = make_dated_email("Wed, 10 Jan 2024 10:00:00 +0000");
    let jan20 = make_dated_email("Sat, 20 Jan 2024 10:00:00 +0000");
    let mailbox = MailboxBuilder::new()
        .folder("INBOX")
        .email(1, true, jan1)
        .email(2, true, jan10)
        .email(3, true, jan20)
        .build();
    let output = run(
        "A1",
        &[Pred::Since(date(2024, 1, 5)), Pred::Before(date(2024, 1, 15))],
        &mailbox,
        Some("INBOX"),
    );
    assert!(output.contains("* SEARCH 2\r\n"));
}

#[test]
fn since_is_inclusive() {
    let exact = make_dated_email("Wed, 10 Jan 2024 10:00:00 +0000");
    let mailbox = MailboxBuilder::new().folder("INBOX").email(1, true, exact).build();
    let output = run("A1", &[Pred::Since(date(2024, 1, 10))], &mailbox, Some("INBOX"));
    assert!(output.contains("* SEARCH 1\r\n"));
}

#[test]
fn before_is_exclusive() {
    let exact = make_dated_email("Wed, 10 Jan 2024 10:00:00 +0000");
    let mailbox = MailboxBuilder::new().folder("INBOX").email(1, true, exact).build();
    let output = run("A1", &[Pred::Before(date(2024, 1, 10))], &mailbox, Some("INBOX"));
    assert!(output.contains("* SEARCH \r\n"));
}

#[test]
fn emails_without_date_header_excluded() {
    let no_date = make_raw_email();
    let with_date = make_dated_email("Wed, 10 Jan 2024 10:00:00 +0000");
    let mailbox = MailboxBuilder::new()
        .folder("INBOX")
        .email(1, true, no_date)
        .email(2, true, with_date)
        .build();
    let output = run("A1", &[Pred::Since(date(2024, 1, 1))], &mailbox, Some("INBOX"));
    assert!(output.contains("* SEARCH 2\r\n"));
}

#[test]
fn parse_email_date_extracts_date() {
    let raw = make_dated_email("Mon, 01 Jan 2024 12:00:00 +0000");
    let d = message_date(&raw);
    assert_eq!(d, Some(date(2024, 1, 1)));
}

#[test]
fn parse_email_date_missing_header() {
    let raw = make_raw_email();
    assert!(message_date(&raw).is_none());
}

#[test]
fn date_parser_reads_the_header_value() {
    // two different header values must give two different dates:
    // the parser cannot be returning its input or a constant
    let a = message_date(&make_dated_email("Mon, 01 Jan 2024 12:00:00 +0000"));
    let b = message_date(&make_dated_email("Sat, 20 Jan 2024 12:00:00 +0000"));
    assert_eq!(a, Some(date(2024, 1, 1)));
    assert_eq!(b, Some(date(2024, 1, 20)));
    assert_ne!(a, b);
}

#[test]
fn nested_criteria_evaluate() {
    let raw = make_raw_email();
    let mailbox = MailboxBuilder::new()
        .folder("INBOX")
        .email(1, true, raw.clone())
        .email(2, false, raw.clone())
        .build();
    // NOT UNSEEN is the seen message
    let output = run("A1", &[Pred::Not(Box::new(Pred::Unseen))], &mailbox, Some("INBOX"));
    assert!(output.contains("* SEARCH 1\r\n"));
    // OR SEEN UNSEEN is everything
    let output2 = run(
        "A2",
        &[Pred::Or(Box::new(Pred::Seen), Box::new(Pred::Unseen))],
        &mailbox,
        Some("INBOX"),
    );
    assert!(output2.contains("* SEARCH 1 2\r\n"));
    // an unrecognized criterion permissively matches everything
    let output3 = run("A3", &[Pred::Other], &mailbox, Some("INBOX"));
    assert!(output3.contains("* SEARCH 1 2\r\n"));
}
