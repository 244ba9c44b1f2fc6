//! Line parsing, literal decoding, the session lifecycle, and the
//! typed client's computations.

use protonmail_client::client::{last_n_uids, sort_uids};
use protonmail_client::dispatch::ConnState;
use protonmail_client::literal::parse_literal_count;
use protonmail_client::mailbox::MailboxBuilder;
use protonmail_client::parser::{parse_imap_date, parse_request, parse_uid_set, split_tag};
use protonmail_client::reply::{render_reply, Chunk, Reply};
use protonmail_client::session::{
    advance, greeting_line, serve_line, upgrade_step, LineOutcome, SessionEvent, SessionPhase,
};
use protonmail_client::uidset::{UidBound, UidEntry};
use protonmail_client::{Date, Error, Flag, Folder, ImapConfig, Pred, ProtonClient, ReadWrite};

fn render_all(tag: &str, replies: &[Reply]) -> String {
    let mut out = String::new();
    for r in replies {
        for ch in render_reply(tag, r) {
            match ch {
                Chunk::Text(t) => out.push_str(&t),
                Chunk::Raw(b) => out.push_str(&String::from_utf8(b).unwrap()),
            }
        }
    }
    out
}

// ── literals ───────────────────────────────────────────────────────

#[test]
fn literal_header_roundtrip() {
    let body = b"From: a@b.com\r\n\r\nHello".to_vec();
    let reply = Reply::FetchBody { pos: 1, uid: 42, body: body.clone() };
    let chunks = render_reply("A1", &reply);
    assert_eq!(chunks.len(), 3);
    let header = match &chunks[0] {
        Chunk::Text(t) => t.clone(),
        Chunk::Raw(_) => panic!("expected a text header"),
    };
    // the declared count reads back as exactly the payload length
    assert_eq!(parse_literal_count(&header), Some(body.len()));
    match &chunks[1] {
        Chunk::Raw(b) => assert_eq!(b, &body),
        Chunk::Text(_) => panic!("expected the raw payload"),
    }
    match &chunks[2] {
        Chunk::Text(t) => assert_eq!(t, ")\r\n"),
        Chunk::Raw(_) => panic!("expected the closing line"),
    }
}

#[test]
fn literal_count_reads_plain_headers() {
    assert_eq!(parse_literal_count("* 1 FETCH (UID 7 BODY[] {38}\r\n"), Some(38));
    assert_eq!(parse_literal_count("no literal here\r\n"), None);
    assert_eq!(parse_literal_count("{}\r\n"), None);
}

// ── line parsing ───────────────────────────────────────────────────

#[test]
fn split_tag_separates_tag_and_command() {
    let (tag, rest) = split_tag("A7 SELECT INBOX").unwrap();
    assert_eq!(tag, "A7");
    assert_eq!(rest, "SELECT INBOX");
    assert!(split_tag("LONELY").is_none());
}

#[test]
fn parse_select_trims_quotes() {
    match parse_request("SELECT \"INBOX\"") {
        protonmail_client::Request::Select(name) => assert_eq!(name, "INBOX"),
        _ => panic!("expected a select request"),
    }
}

#[test]
fn parse_search_since_before() {
    match parse_request("UID SEARCH SINCE 5-Jan-2024 BEFORE 15-Jan-2024") {
        protonmail_client::Request::Search(crit) => {
            assert_eq!(crit.len(), 2);
            assert!(matches!(crit[0], Pred::Since(d) if d == Date::new(2024, 1, 5)));
            assert!(matches!(crit[1], Pred::Before(d) if d == Date::new(2024, 1, 15)));
        }
        _ => panic!("expected a search request"),
    }
}

#[test]
fn parse_imap_date_reads_day_month_year() {
    assert_eq!(parse_imap_date("5-Jan-2024"), Some(Date::new(2024, 1, 5)));
    assert_eq!(parse_imap_date("31-dec-1999"), Some(Date::new(1999, 12, 31)));
    assert_eq!(parse_imap_date("nonsense"), None);
    assert_eq!(parse_imap_date("0-Jan-2024"), None);
}

#[test]
fn parse_uid_set_reads_numbers_and_ranges() {
    let set = parse_uid_set("1,3,5");
    assert_eq!(
        set,
        vec![
            UidEntry::One(UidBound::Num(1)),
            UidEntry::One(UidBound::Num(3)),
            UidEntry::One(UidBound::Num(5)),
        ]
    );
    let range = parse_uid_set("2:*");
    assert_eq!(range, vec![UidEntry::Span(UidBound::Num(2), UidBound::Star)]);
}

#[test]
fn parse_store_reads_op_and_flags() {
    match parse_request("UID STORE 4 +FLAGS (\\Seen)") {
        protonmail_client::Request::Store { set, op, flags, silent } => {
            assert_eq!(set, vec![UidEntry::One(UidBound::Num(4))]);
            assert!(matches!(op, protonmail_client::mailbox::StoreOp::Add));
            assert!(!silent);
            assert_eq!(flags, vec![Flag::Seen]);
        }
        _ => panic!("expected a store request"),
    }
}

#[test]
fn parse_unknown_command() {
    assert!(matches!(parse_request("FROBNICATE now"), protonmail_client::Request::Unknown));
}

// ── the session lifecycle ──────────────────────────────────────────

#[test]
fn greeting_is_sent_first() {
    assert_eq!(greeting_line(), "* OK IMAP4rev1 ready\r\n");
}

#[test]
fn upgrade_request_is_acknowledged() {
    let (resp, proceed) = upgrade_step("A1 STARTTLS\r\n");
    assert_eq!(resp.unwrap(), "A1 OK Begin TLS negotiation now\r\n");
    assert!(proceed);
}

#[test]
fn other_first_command_fails_closed() {
    let (resp, proceed) = upgrade_step("A1 NOOP\r\n");
    assert_eq!(resp.unwrap(), "A1 BAD Expected STARTTLS\r\n");
    assert!(!proceed);
    let (none_resp, p2) = upgrade_step("garbage\r\n");
    assert!(none_resp.is_none());
    assert!(!p2);
}

#[test]
fn phase_machine_follows_lifecycle() {
    let p = SessionPhase::Greeting;
    let p = advance(p, SessionEvent::GreetingSent);
    assert_eq!(p, SessionPhase::AwaitingUpgrade);
    let p = advance(p, SessionEvent::UpgradeRequested);
    assert_eq!(p, SessionPhase::Upgrading);
    let p = advance(p, SessionEvent::UpgradeFinished(true));
    assert_eq!(p, SessionPhase::Authenticated);
    let p = advance(p, SessionEvent::CommandHandled);
    assert_eq!(p, SessionPhase::Authenticated);
    let p = advance(p, SessionEvent::LogoutHandled);
    assert_eq!(p, SessionPhase::Closed);
    assert_eq!(
        advance(SessionPhase::Upgrading, SessionEvent::UpgradeFinished(false)),
        SessionPhase::Closed
    );
    assert_eq!(
        advance(SessionPhase::AwaitingUpgrade, SessionEvent::UpgradeRefused),
        SessionPhase::Closed
    );
}

#[test]
fn serve_line_runs_a_whole_exchange() {
    let raw = b"From: a@b.com\r\nSubject: Hi\r\n\r\nBody".to_vec();
    let mut mb = MailboxBuilder::new().folder("INBOX").email(1, false, raw).build();
    let mut st = ConnState::new();
    // empty lines are ignored
    assert!(matches!(serve_line("   \r\n", &mut st, &mut mb), LineOutcome::Ignored));
    // select, then search
    match serve_line("A1 SELECT INBOX\r\n", &mut st, &mut mb) {
        LineOutcome::Run { tag, replies, ends } => {
            assert_eq!(tag, "A1");
            assert!(!ends);
            assert!(render_all(&tag, &replies).contains("* 1 EXISTS"));
        }
        LineOutcome::Ignored => panic!("expected a run"),
    }
    match serve_line("A2 UID SEARCH UNSEEN\r\n", &mut st, &mut mb) {
        LineOutcome::Run { tag, replies, ends } => {
            assert!(!ends);
            assert!(render_all(&tag, &replies).contains("* SEARCH 1\r\n"));
        }
        LineOutcome::Ignored => panic!("expected a run"),
    }
    // logout ends the session
    match serve_line("A3 LOGOUT\r\n", &mut st, &mut mb) {
        LineOutcome::Run { tag, replies, ends } => {
            assert!(ends);
            let out = render_all(&tag, &replies);
            assert!(out.contains("* BYE"));
            assert!(out.contains("A3 OK LOGOUT completed"));
        }
        LineOutcome::Ignored => panic!("expected a run"),
    }
}

#[test]
fn lone_token_is_refused_under_it() {
    let mut mb = MailboxBuilder::new().build();
    let mut st = ConnState::new();
    match serve_line("JUSTATAG\r\n", &mut st, &mut mb) {
        LineOutcome::Run { tag, replies, ends } => {
            assert_eq!(tag, "JUSTATAG");
            assert!(!ends);
            assert!(render_all(&tag, &replies).contains("JUSTATAG BAD"));
        }
        LineOutcome::Ignored => panic!("expected a run"),
    }
}

// ── the typed client ───────────────────────────────────────────────

fn config() -> ImapConfig {
    ImapConfig::new("127.0.0.1".to_string(), 1143, "user".to_string(), "pass".to_string())
}

#[test]
fn sort_and_last_n_select_most_recent() {
    let sorted = sort_uids(vec![5, 1, 9, 3]);
    assert_eq!(sorted, vec![1, 3, 5, 9]);
    assert_eq!(last_n_uids(vec![5, 1, 9, 3], 2), vec![5, 9]);
    assert_eq!(last_n_uids(vec![5, 1], 10), vec![1, 5]);
    assert_eq!(last_n_uids(vec![], 3), Vec::<u32>::new());
}

#[test]
fn date_range_query_formats_bounds() {
    let client: ProtonClient = ProtonClient::new(config());
    let q = client.date_range_query(&Date::new(2024, 1, 5), &Date::new(2024, 2, 15));
    assert_eq!(q, "SINCE 5-Jan-2024 BEFORE 15-Feb-2024");
}

#[test]
fn write_plans_require_the_read_write_client() {
    let client: ProtonClient<ReadWrite> = ProtonClient::new(config());
    assert_eq!(client.add_flag_arg(&Flag::Seen), "+FLAGS (\\Seen)");
    assert_eq!(client.remove_flag_arg(&Flag::Seen), "-FLAGS (\\Seen)");
    assert_eq!(client.uid_set_token(&vec![3, 1, 4]), "3,1,4");
    let steps = client.move_steps(7, &Folder::Trash);
    assert_eq!(steps, vec!["UID COPY 7 Trash", "UID STORE 7 +FLAGS (\\Deleted)", "EXPUNGE"]);
    assert_eq!(client.archive_steps(7)[0], "UID COPY 7 Archive");
    let (query, arg) = client.unmark_all_read_plan();
    assert_eq!(query, "SEEN");
    assert_eq!(arg, "-FLAGS (\\Seen)");
}

#[test]
fn error_descriptions_name_their_category() {
    assert_eq!(Error::Imap("boom".to_string()).describe(), "IMAP error: boom");
    assert_eq!(Error::Parse("bad".to_string()).describe(), "Email parsing error: bad");
    assert_eq!(Error::Config("missing".to_string()).describe(), "Configuration error: missing");
    assert_eq!(Error::Io("gone".to_string()).describe(), "IO error: gone");
    assert_eq!(Error::Tls("handshake".to_string()).describe(), "TLS error: handshake");
}

#[test]
fn truncate_shortens_long_text() {
    assert_eq!(protonmail_client::truncate("short", 10), "short");
    assert_eq!(protonmail_client::truncate("a very long subject line", 10), "a very ...");
}
