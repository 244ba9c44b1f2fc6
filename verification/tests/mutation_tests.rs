//! Flag mutation, cross-folder copy, deletion compaction, and
//! literal-framed fetch.

use protonmail_client::dispatch::{
    handle_copy, handle_expunge, handle_fetch, handle_search, handle_store, ConnState,
};
use protonmail_client::Pred;
use protonmail_client::mailbox::{Mailbox, MailboxBuilder, StoreOp};
use protonmail_client::reply::{render_reply, Chunk, Reply};
use protonmail_client::uidset::{UidBound, UidEntry};
use protonmail_client::Flag;

fn render_all(tag: &str, replies: &[Reply]) -> String {
    let mut out = String::new();
    for r in replies {
        for ch in render_reply(tag, r) {
            match ch {
                Chunk::Text(t) => out.push_str(&t),
                Chunk::Raw(b) => out.push_str(&String::from_utf8(b).unwrap()),
            }
        }
    }
    out
}

fn make_raw_email() -> Vec<u8> {
    b"From: a@b.com\r\nSubject: Test\r\n\r\nBody".to_vec()
}

fn uid_set(uid: u32) -> Vec<UidEntry> {
    vec![UidEntry::One(UidBound::Num(uid))]
}

fn selected(name: &str) -> ConnState {
    ConnState { selected: Some(name.to_string()) }
}

fn unselected() -> ConnState {
    ConnState { selected: None }
}

// ── store ──────────────────────────────────────────────────────────

#[test]
fn add_seen_flag() {
    let raw = make_raw_email();
    let mut mb = MailboxBuilder::new().folder("INBOX").email(1, false, raw).build();
    let st = selected("INBOX");
    let output = render_all(
        "A1",
        &handle_store(&mut mb, &uid_set(1), StoreOp::Add, &vec![Flag::Seen], false, &st),
    );
    assert!(output.contains("FLAGS (\\Seen)"));
    assert!(output.contains("A1 OK STORE completed"));
    assert!(mb.folders[0].msgs[0].seen);
}

#[test]
fn remove_seen_flag() {
    let raw = make_raw_email();
    let mut mb = MailboxBuilder::new().folder("INBOX").email(1, true, raw).build();
    let st = selected("INBOX");
    let _output = render_all(
        "A1",
        &handle_store(&mut mb, &uid_set(1), StoreOp::Remove, &vec![Flag::Seen], false, &st),
    );
    assert!(!mb.folders[0].msgs[0].seen);
}

#[test]
fn add_deleted_flag() {
    let raw = make_raw_email();
    let mut mb = MailboxBuilder::new().folder("INBOX").email(1, false, raw).build();
    let st = selected("INBOX");
    let _output = render_all(
        "A1",
        &handle_store(&mut mb, &uid_set(1), StoreOp::Add, &vec![Flag::Deleted], false, &st),
    );
    assert!(mb.folders[0].msgs[0].deleted);
}

#[test]
fn uid_store_no_folder_selected_returns_bad() {
    let mut mb = MailboxBuilder::new().folder("INBOX").build();
    let st = unselected();
    let output = render_all(
        "A1",
        &handle_store(&mut mb, &uid_set(1), StoreOp::Add, &vec![Flag::Seen], false, &st),
    );
    assert!(output.contains("A1 BAD No folder selected"));
}

#[test]
fn silent_store_emits_no_echo() {
    let raw = make_raw_email();
    let mut mb = MailboxBuilder::new().folder("INBOX").email(1, false, raw).build();
    let st = selected("INBOX");
    let output = render_all(
        "A1",
        &handle_store(&mut mb, &uid_set(1), StoreOp::Add, &vec![Flag::Seen], true, &st),
    );
    assert!(!output.contains("FETCH"));
    assert!(output.contains("A1 OK STORE completed"));
    assert!(mb.folders[0].msgs[0].seen);
}

#[test]
fn store_range_with_star_covers_tail() {
    let raw = make_raw_email();
    let mut mb = MailboxBuilder::new()
        .folder("INBOX")
        .email(1, false, raw.clone())
        .email(2, false, raw.clone())
        .email(3, false, raw.clone())
        .build();
    let st = selected("INBOX");
    let set = vec![UidEntry::Span(UidBound::Num(2), UidBound::Star)];
    let _ = handle_store(&mut mb, &set, StoreOp::Add, &vec![Flag::Seen], true, &st);
    assert!(!mb.folders[0].msgs[0].seen);
    assert!(mb.folders[0].msgs[1].seen);
    assert!(mb.folders[0].msgs[2].seen);
}

// ── copy ───────────────────────────────────────────────────────────

#[test]
fn copies_email_to_destination() {
    let raw = make_raw_email();
    let mut mb = MailboxBuilder::new()
        .folder("INBOX")
        .email(1, false, raw)
        .folder("Archive")
        .build();
    let st = selected("INBOX");
    let output = render_all("A1", &handle_copy(&mut mb, &uid_set(1), "Archive", &st));
    assert!(output.contains("A1 OK COPY completed"));
    assert_eq!(mb.folders[1].msgs.len(), 1);
    assert_eq!(mb.folders[1].msgs[0].uid, 1);
}

#[test]
fn source_email_remains() {
    let raw = make_raw_email();
    let mut mb = MailboxBuilder::new()
        .folder("INBOX")
        .email(1, false, raw)
        .folder("Trash")
        .build();
    let st = selected("INBOX");
    let _output = render_all("A1", &handle_copy(&mut mb, &uid_set(1), "Trash", &st));
    assert_eq!(mb.folders[0].msgs.len(), 1);
}

#[test]
fn uid_copy_no_folder_selected_returns_bad() {
    let mut mb = MailboxBuilder::new().folder("INBOX").build();
    let st = unselected();
    let output = render_all("A1", &handle_copy(&mut mb, &uid_set(1), "Trash", &st));
    assert!(output.contains("A1 BAD No folder selected"));
}

#[test]
fn missing_dest_returns_trycreate() {
    let raw = make_raw_email();
    let mut mb = MailboxBuilder::new().folder("INBOX").email(1, false, raw).build();
    let st = selected("INBOX");
    let output = render_all("A1", &handle_copy(&mut mb, &uid_set(1), "NoSuch", &st));
    assert!(output.contains("TRYCREATE"));
}

#[test]
fn copy_preserves_source_count_and_content() {
    let raw1 = b"First message".to_vec();
    let raw2 = b"Second message".to_vec();
    let mut mb = MailboxBuilder::new()
        .folder("INBOX")
        .email(1, false, raw1.clone())
        .email(2, true, raw2.clone())
        .folder("Archive")
        .build();
    let st = selected("INBOX");
    let set = vec![UidEntry::One(UidBound::Num(1)), UidEntry::One(UidBound::Num(2))];
    let _ = handle_copy(&mut mb, &set, "Archive", &st);
    // the source is unchanged in count and content
    assert_eq!(mb.folders[0].msgs.len(), 2);
    assert_eq!(mb.folders[0].msgs[0].raw, raw1);
    assert_eq!(mb.folders[0].msgs[1].raw, raw2);
    // the destination gained exactly the copied messages, in order
    assert_eq!(mb.folders[1].msgs.len(), 2);
    assert_eq!(mb.folders[1].msgs[0].uid, 1);
    assert_eq!(mb.folders[1].msgs[0].raw, raw1);
    assert_eq!(mb.folders[1].msgs[1].uid, 2);
    assert_eq!(mb.folders[1].msgs[1].raw, raw2);
}

// ── expunge ────────────────────────────────────────────────────────

fn run_expunge(tag: &str, mb: &mut Mailbox, sel: Option<&str>) -> String {
    let st = ConnState { selected: sel.map(|s| s.to_string()) };
    render_all(tag, &handle_expunge(mb, &st))
}

#[test]
fn removes_deleted_emails() {
    let raw = make_raw_email();
    let mut mb = MailboxBuilder::new()
        .folder("INBOX")
        .email(1, false, raw.clone())
        .email(2, false, raw.clone())
        .build();
    mb.folders[0].msgs[0].deleted = true;
    let output = run_expunge("A1", &mut mb, Some("INBOX"));
    assert!(output.contains("* 1 EXPUNGE"));
    assert!(output.contains("A1 OK EXPUNGE completed"));
    assert_eq!(mb.folders[0].msgs.len(), 1);
    assert_eq!(mb.folders[0].msgs[0].uid, 2);
}

#[test]
fn no_deleted_emails_is_noop() {
    let raw = make_raw_email();
    let mut mb = MailboxBuilder::new().folder("INBOX").email(1, false, raw).build();
    let output = run_expunge("A1", &mut mb, Some("INBOX"));
    assert!(!output.contains("EXPUNGE\r\n") || output.contains("A1 OK EXPUNGE completed\r\n"));
    assert!(!output.contains("* 1 EXPUNGE"));
    assert!(output.contains("A1 OK EXPUNGE completed"));
    assert_eq!(mb.folders[0].msgs.len(), 1);
}

#[test]
fn expunge_no_folder_selected_returns_bad() {
    let mut mb = MailboxBuilder::new().folder("INBOX").build();
    let output = run_expunge("A1", &mut mb, None);
    assert!(output.contains("A1 BAD No folder selected"));
}

#[test]
fn multiple_deletions() {
    let raw = make_raw_email();
    let mut mb = MailboxBuilder::new()
        .folder("INBOX")
        .email(1, false, raw.clone())
        .email(2, false, raw.clone())
        .email(3, false, raw.clone())
        .build();
    mb.folders[0].msgs[0].deleted = true;
    mb.folders[0].msgs[2].deleted = true;
    let output = run_expunge("A1", &mut mb, Some("INBOX"));
    assert!(output.contains("EXPUNGE"));
    assert!(output.contains("A1 OK EXPUNGE completed"));
    assert_eq!(mb.folders[0].msgs.len(), 1);
    assert_eq!(mb.folders[0].msgs[0].uid, 2);
}

#[test]
fn expunge_reports_live_positions() {
    // messages at positions 1 and 3 marked deleted: the first is
    // reported at 1; the third, after one earlier removal, at 2;
    // the survivor ends at sequence 1
    let raw = make_raw_email();
    let mut mb = MailboxBuilder::new()
        .folder("INBOX")
        .email(1, false, raw.clone())
        .email(2, false, raw.clone())
        .email(3, false, raw.clone())
        .build();
    mb.folders[0].msgs[0].deleted = true;
    mb.folders[0].msgs[2].deleted = true;
    let output = run_expunge("A1", &mut mb, Some("INBOX"));
    let first = output.find("* 1 EXPUNGE").unwrap();
    let second = output.find("* 2 EXPUNGE").unwrap();
    assert!(first < second);
    assert_eq!(mb.folders[0].msgs.len(), 1);
    assert_eq!(mb.folders[0].msgs[0].uid, 2);
}

// ── fetch ──────────────────────────────────────────────────────────

fn run_fetch(tag: &str, set: &[UidEntry], mb: &Mailbox, sel: Option<&str>) -> String {
    let st = ConnState { selected: sel.map(|s| s.to_string()) };
    let mut v = Vec::new();
    for e in set {
        v.push(*e);
    }
    render_all(tag, &handle_fetch(mb, &v, &st))
}

#[test]
fn fetches_email_by_uid() {
    let raw = make_raw_email();
    let mb = MailboxBuilder::new().folder("INBOX").email(42, false, raw).build();
    let output = run_fetch("A1", &uid_set(42), &mb, Some("INBOX"));
    assert!(output.contains("* 1 FETCH (UID 42 BODY[]"));
    assert!(output.contains("From: a@b.com"));
    assert!(output.contains("A1 OK FETCH completed"));
}

#[test]
fn literal_length_matches_body() {
    let raw = make_raw_email();
    let expected_len = raw.len();
    let mb = MailboxBuilder::new().folder("INBOX").email(1, false, raw).build();
    let output = run_fetch("A1", &uid_set(1), &mb, Some("INBOX"));
    let literal = format!("{{{expected_len}}}");
    assert!(output.contains(&literal));
}

#[test]
fn missing_uid_returns_only_ok() {
    let mb = MailboxBuilder::new().folder("INBOX").build();
    let output = run_fetch("A1", &uid_set(99), &mb, Some("INBOX"));
    assert!(!output.contains("FETCH (UID"));
    assert!(output.contains("A1 OK FETCH completed"));
}

#[test]
fn uid_fetch_no_folder_selected_returns_bad() {
    let mb = MailboxBuilder::new().folder("INBOX").build();
    let output = run_fetch("A1", &uid_set(1), &mb, None);
    assert!(output.contains("A1 BAD No folder selected"));
}

#[test]
fn store_then_search_unseen_excludes_marked() {
    // marking one message seen, then searching for the unseen,
    // returns a list without it
    let raw = make_raw_email();
    let mut mb = MailboxBuilder::new()
        .folder("INBOX")
        .email(1, false, raw.clone())
        .email(2, false, raw.clone())
        .build();
    let st = selected("INBOX");
    let output = render_all(
        "A1",
        &handle_store(&mut mb, &uid_set(1), StoreOp::Add, &vec![Flag::Seen], false, &st),
    );
    assert!(output.contains("FLAGS (\\Seen)"));
    let search_out = render_all("A2", &handle_search(&mb, &vec![Pred::Unseen], &st));
    assert!(search_out.contains("* SEARCH 2\r\n"));
    assert!(!search_out.contains("* SEARCH 1"));
}

#[test]
fn uids_stay_unique_across_operations() {
    // a copy into another folder, a store, and an expunge never
    // duplicate an identifier within a folder
    let raw = make_raw_email();
    let mut mb = MailboxBuilder::new()
        .folder("INBOX")
        .email(1, false, raw.clone())
        .email(2, false, raw.clone())
        .email(3, false, raw.clone())
        .folder("Archive")
        .build();
    let st = selected("INBOX");
    let set = vec![UidEntry::One(UidBound::Num(1)), UidEntry::One(UidBound::Num(3))];
    let _ = handle_copy(&mut mb, &set, "Archive", &st);
    let _ = handle_store(&mut mb, &uid_set(2), StoreOp::Add, &vec![Flag::Deleted], true, &st);
    let _ = handle_expunge(&mut mb, &st);
    for f in &mb.folders {
        for i in 0..f.msgs.len() {
            for j in (i + 1)..f.msgs.len() {
                assert_ne!(f.msgs[i].uid, f.msgs[j].uid);
            }
        }
    }
    // and the expunge removed exactly the message marked deleted
    assert_eq!(mb.folders[0].msgs.len(), 2);
    assert_eq!(mb.folders[0].msgs[0].uid, 1);
    assert_eq!(mb.folders[0].msgs[1].uid, 3);
    assert_eq!(mb.folders[1].msgs.len(), 2);
}

#[test]
fn copy_assigns_fresh_uids_in_destination() {
    // the destination already holds the copied identifier: the copy
    // arrives under a fresh one, just above the destination's
    // greatest, so identifiers stay unique
    let raw = make_raw_email();
    let mut mb = MailboxBuilder::new()
        .folder("INBOX")
        .email(1, false, raw.clone())
        .folder("Archive")
        .email(1, true, raw.clone())
        .email(7, true, raw.clone())
        .build();
    let st = selected("INBOX");
    let output = render_all("A1", &handle_copy(&mut mb, &uid_set(1), "Archive", &st));
    assert!(output.contains("A1 OK COPY completed"));
    assert_eq!(mb.folders[1].msgs.len(), 3);
    assert_eq!(mb.folders[1].msgs[2].uid, 8);
    assert_eq!(mb.folders[1].msgs[2].raw, raw);
    // a self-copy duplicates into the same folder under a fresh uid
    let output2 = render_all("A2", &handle_copy(&mut mb, &uid_set(1), "INBOX", &st));
    assert!(output2.contains("A2 OK COPY completed"));
    assert_eq!(mb.folders[0].msgs.len(), 2);
    assert_eq!(mb.folders[0].msgs[0].uid, 1);
    assert_eq!(mb.folders[0].msgs[1].uid, 2);
}
