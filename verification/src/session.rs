//! The session lifecycle: greeting, opportunistic encryption
//! upgrade, and the authenticated command loop.
//!
//! The connection's owner performs the reads, writes and the
//! transport upgrade; this module decides, from each event, the next
//! phase and the exact bytes to send.  A connection fails closed:
//! anything but the upgrade request as the first line ends it, as
//! does a failed upgrade, a read error, or end of stream.

use vstd::prelude::*;
use crate::dispatch::{ConnState, Request, dispatch};
use crate::mailbox::Mailbox;
use crate::parser::{find_char, parse_request, split_tag};
use crate::reply::Reply;
use crate::text::seq_eq_ic;

verus! {

// ── the phase machine ──────────────────────────────────────────────

/// Where a connection stands in its lifecycle.
#[derive(Debug, Clone, Copy, PartialEq, Eq, Structural)]
pub enum SessionPhase {
    /// Connected; the server-ready announcement is owed.
    Greeting,
    /// Greeting sent; the next line must request the upgrade.
    AwaitingUpgrade,
    /// Upgrade acknowledged; the transport handshake is running.
    Upgrading,
    /// Encrypted; commands are served until logout or disconnect.
    Authenticated,
    /// Finished; nothing more is read or written.
    Closed,
}

/// What happened on the connection.
#[derive(Debug, Clone, Copy, PartialEq, Eq, Structural)]
pub enum SessionEvent {
    /// The connection was accepted and the greeting written.
    GreetingSent,
    /// The first line requested the upgrade and was acknowledged.
    UpgradeRequested,
    /// The first line was something else; the refusal was written.
    UpgradeRefused,
    /// The transport handshake finished, successfully or not.
    UpgradeFinished(bool),
    /// One command line was served and the session continues.
    CommandHandled,
    /// A logout was served.
    LogoutHandled,
    /// A read failed or the stream ended.
    StreamEnded,
}

/// The phase after an event: greeting, then upgrade negotiation,
/// then the authenticated loop; anything out of order fails closed.
pub open spec fn next_phase(p: SessionPhase, e: SessionEvent) -> SessionPhase {
    match (p, e) {
        (SessionPhase::Greeting, SessionEvent::GreetingSent) => SessionPhase::AwaitingUpgrade,
        (SessionPhase::AwaitingUpgrade, SessionEvent::UpgradeRequested) => SessionPhase::Upgrading,
        (SessionPhase::Upgrading, SessionEvent::UpgradeFinished(ok)) => if ok {
            SessionPhase::Authenticated
        } else {
            SessionPhase::Closed
        },
        (SessionPhase::Authenticated, SessionEvent::CommandHandled) => SessionPhase::Authenticated,
        _ => SessionPhase::Closed,
    }
}

/// Advance the phase machine by one event.
pub fn advance(p: SessionPhase, e: SessionEvent) -> (r: SessionPhase)
    ensures
        r == next_phase(p, e),
{
    match (p, e) {
        (SessionPhase::Greeting, SessionEvent::GreetingSent) => SessionPhase::AwaitingUpgrade,
        (SessionPhase::AwaitingUpgrade, SessionEvent::UpgradeRequested) => SessionPhase::Upgrading,
        (SessionPhase::Upgrading, SessionEvent::UpgradeFinished(ok)) => if ok {
            SessionPhase::Authenticated
        } else {
            SessionPhase::Closed
        },
        (SessionPhase::Authenticated, SessionEvent::CommandHandled) => SessionPhase::Authenticated,
        _ => SessionPhase::Closed,
    }
}

// ── line trimming ──────────────────────────────────────────────────

/// Whitespace around a command line.
pub open spec fn is_ws_char(c: char) -> bool {
    c == ' ' || c == '\t' || c == '\r' || c == '\n'
}

pub open spec fn trim_line_front(s: Seq<char>) -> Seq<char>
    decreases s.len(),
{
    if s.len() > 0 && is_ws_char(s[0]) {
        trim_line_front(s.drop_first())
    } else {
        s
    }
}

pub open spec fn trim_line_back(s: Seq<char>) -> Seq<char>
    decreases s.len(),
{
    if s.len() > 0 && is_ws_char(s.last()) {
        trim_line_back(s.drop_last())
    } else {
        s
    }
}

/// A line without its surrounding whitespace.
pub open spec fn trim_line(s: Seq<char>) -> Seq<char> {
    trim_line_back(trim_line_front(s))
}

fn is_ws_c(c: char) -> (r: bool)
    ensures
        r == is_ws_char(c),
{
    c == ' ' || c == '\t' || c == '\r' || c == '\n'
}

/// Trim the whitespace around a line.
pub fn trim_str(s: &str) -> (r: String)
    ensures
        r@ == trim_line(s@),
{
    let n = s.unicode_len();
    let mut a: usize = 0;
    proof {
        assert(s@.subrange(0, n as int) =~= s@);
    }
    while a < n && is_ws_c(s.get_char(a))
        invariant
            0 <= a <= n,
            n == s@.len(),
            trim_line_front(s@) == trim_line_front(s@.subrange(a as int, n as int)),
        decreases n - a,
    {
        proof {
            assert(s@.subrange(a as int, n as int).drop_first() =~= s@.subrange(
                a + 1 as int,
                n as int,
            ));
            assert(s@.subrange(a as int, n as int)[0] == s@[a as int]);
        }
        a = a + 1;
    }
    proof {
        if a < n {
            assert(s@.subrange(a as int, n as int)[0] == s@[a as int]);
        }
        assert(trim_line_front(s@.subrange(a as int, n as int)) == s@.subrange(a as int, n as int));
    }
    let mut b = n;
    while b > a && is_ws_c(s.get_char(b - 1))
        invariant
            0 <= a <= b <= n,
            n == s@.len(),
            trim_line_front(s@) == s@.subrange(a as int, n as int),
            trim_line_back(s@.subrange(a as int, n as int)) == trim_line_back(
                s@.subrange(a as int, b as int),
            ),
        decreases b - a,
    {
        proof {
            assert(s@.subrange(a as int, b as int).drop_last() =~= s@.subrange(
                a as int,
                b - 1 as int,
            ));
            assert(s@.subrange(a as int, b as int).last() == s@[b - 1]);
        }
        b = b - 1;
    }
    proof {
        if b > a {
            assert(s@.subrange(a as int, b as int).last() == s@[b - 1]);
        }
        assert(trim_line_back(s@.subrange(a as int, b as int)) == s@.subrange(a as int, b as int));
    }
    String::from_str(s.substring_char(a, b))
}

// ── greeting and upgrade negotiation ───────────────────────────────

/// The server-ready announcement, written unprompted on connect,
/// before anything is read.
pub fn greeting_line() -> (r: String)
    ensures
        r@ == "* OK IMAP4rev1 ready\r\n"@,
{
    String::from_str("* OK IMAP4rev1 ready\r\n")
}

/// Answer the first line of a connection, which must request the
/// encryption upgrade.
///
/// The upgrade request is acknowledged and the transport handshake
/// may begin.  Any other command is refused and the connection ends.
/// A line without a tag and a command gets no answer; the connection
/// simply ends.
pub fn upgrade_step(line: &str) -> (r: (Option<String>, bool))
    ensures
        ({
            let t = trim_line(line@);
            let e = find_char(t, ' ', 0);
            if e >= t.len() {
                r.0 is None && !r.1
            } else {
                let tag = t.take(e);
                let rest = t.skip(e + 1);
                if seq_eq_ic(rest, "STARTTLS"@) {
                    (r.0 matches Some(out) && out@ == tag + " OK Begin TLS negotiation now\r\n"@)
                        && r.1
                } else {
                    (r.0 matches Some(out) && out@ == tag + " BAD Expected STARTTLS\r\n"@) && !r.1
                }
            }
        }),
{
    let trimmed = trim_str(line);
    match split_tag(trimmed.as_str()) {
        None => (None, false),
        Some(parts) => {
            let tag = parts.0;
            let rest = parts.1;
            if crate::text::str_eq_ic(rest.as_str(), "STARTTLS") {
                let out = tag.concat(" OK Begin TLS negotiation now\r\n");
                (Some(out), true)
            } else {
                let out = tag.concat(" BAD Expected STARTTLS\r\n");
                (Some(out), false)
            }
        }
    }
}

// ── the authenticated command loop ─────────────────────────────────

/// What one line of the authenticated loop produces.
#[derive(Debug)]
pub enum LineOutcome {
    /// An empty line: nothing is sent, the loop reads on.
    Ignored,
    /// A command was served: the tag to answer under, the replies to
    /// render, and whether the session ends after sending them.
    Run { tag: String, replies: Vec<Reply>, ends: bool },
}

/// Serve one line of the authenticated loop.
///
/// An empty line is ignored.  A lone token is answered under that
/// token as a refusal.  Anything else is split into tag and command,
/// parsed, and dispatched; the session ends exactly on a logout.
pub fn serve_line(line: &str, st: &mut ConnState, mb: &mut Mailbox) -> (r: LineOutcome)
    ensures
        ({
            let t = trim_line(line@);
            let e = find_char(t, ' ', 0);
            match r {
                LineOutcome::Ignored => t.len() == 0 && *final(st) == *old(st) && *final(mb)
                    == *old(mb),
                LineOutcome::Run { tag, replies, ends } => {
                    &&& t.len() > 0
                    &&& replies@.len() >= 1
                    &&& replies@[replies@.len() - 1] matches Reply::Done(_, _)
                    &&& (if e >= t.len() {
                        tag@ == t && *final(st) == *old(st) && *final(mb) == *old(mb) && !ends
                    } else {
                        let ws = crate::parser::words(t.skip(e + 1));
                        &&& tag@ == t.take(e)
                        &&& ends == (ws.len() > 0 && seq_eq_ic(ws[0], "LOGOUT"@))
                        &&& (!(ws.len() > 0 && seq_eq_ic(ws[0], "SELECT"@)) ==> *final(st) == *old(
                            st,
                        ))
                        &&& (!(ws.len() > 0 && (seq_eq_ic(ws[0], "EXPUNGE"@) || seq_eq_ic(
                            ws[0],
                            "UID"@,
                        ))) ==> *final(mb) == *old(mb))
                        &&& (exists|req: Request|
                            #[trigger] crate::parser::parsed_request(t.skip(e + 1), req)
                                && crate::dispatch::request_post(
                                req,
                                *old(st),
                                *final(st),
                                *old(mb),
                                *final(mb),
                                replies,
                            ))
                    })
                },
            }
        }),
{
    let trimmed = trim_str(line);
    if trimmed.as_str().unicode_len() == 0 {
        return LineOutcome::Ignored;
    }
    match split_tag(trimmed.as_str()) {
        None => {
            // a lone token: answer a refusal under it
            let replies = crate::dispatch::handle_unknown();
            LineOutcome::Run { tag: trimmed, replies, ends: false }
        }
        Some(parts) => {
            let tag = parts.0;
            let rest = parts.1;
            let req = parse_request(rest.as_str());
            proof {
                // keyword lengths tell a logout apart from every
                // keyword matched before it
                reveal_strlit("CAPABILITY");
                reveal_strlit("NOOP");
                reveal_strlit("LOGIN");
                reveal_strlit("LIST");
                reveal_strlit("LOGOUT");
            }
            let ends = matches!(&req, Request::Logout);
            let replies = dispatch(&req, st, mb);
            proof {
                assert(crate::parser::parsed_request(rest@, req)
                    && crate::dispatch::request_post(
                    req,
                    *old(st),
                    *final(st),
                    *old(mb),
                    *final(mb),
                    replies,
                ));
            }
            LineOutcome::Run { tag, replies, ends }
        }
    }
}

} // verus!
