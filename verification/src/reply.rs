//! Structured authority responses and their exact wire rendering.
//!
//! A handler produces a list of [`Reply`] values; rendering turns
//! each into wire chunks: CRLF-terminated text lines, except for a
//! fetched body, which is framed as a length-prefixed literal — a
//! text header declaring the exact byte count, the raw bytes, and a
//! closing line.

use vstd::prelude::*;
use crate::text::{copy_bytes, dec_rep, fmt_u32, fmt_u64, fmt_usize};

verus! {

/// Completion status of a tagged response.
#[derive(Debug, Clone, Copy, PartialEq, Eq, Structural)]
pub enum Status {
    /// The command completed.
    Okay,
    /// The command was valid but cannot be satisfied.
    No,
    /// The command was invalid or violated connection state.
    Bad,
}

/// The fixed completion phrase of a tagged response.
#[derive(Debug, Clone, Copy, PartialEq, Eq, Structural)]
pub enum DonePhrase {
    CapabilityDone,
    NoopDone,
    LoginDone,
    ListDone,
    SelectDone,
    SearchDone,
    FetchDone,
    StoreDone,
    CopyDone,
    ExpungeDone,
    LogoutDone,
    NoFolderSelected,
    FolderNotFound,
    SourceNotFound,
    TryCreate,
    UidsExhausted,
    UnknownCommand,
    BadSyntax,
}

/// One response the authority emits: the untagged data lines, and
/// the tagged completion that ends every exchange.
#[derive(Debug)]
pub enum Reply {
    /// `* CAPABILITY ...`
    Capability,
    /// `* LIST (\HasNoChildren) "/" "<name>"`
    ListItem(String),
    /// `* FLAGS (...)`: the flags the folder supports.
    FlagsSupported,
    /// `* <n> EXISTS`: the folder's live message count.
    Exists(usize),
    /// `* <n> RECENT`
    Recent(usize),
    /// `* OK [UIDVALIDITY <v>]`
    UidValidity(u32),
    /// `* OK [UIDNEXT <v>]`: one above the folder's greatest uid.
    UidNext(u64),
    /// `* OK [PERMANENTFLAGS (...)]`
    PermanentFlags,
    /// `* OK [UNSEEN <pos>]`: 1-based position of the first unseen
    /// message.
    FirstUnseen(usize),
    /// `* SEARCH <uid> <uid> ...` (possibly empty).
    SearchResult(Vec<u32>),
    /// A literal-framed message body.
    FetchBody { pos: usize, uid: u32, body: Vec<u8> },
    /// `* <pos> FETCH (UID <uid> FLAGS (...))`: a store echo.
    FetchFlags { pos: usize, uid: u32, seen: bool, deleted: bool },
    /// `* <pos> EXPUNGE`: a removal notice.
    Expunged(usize),
    /// `* BYE`
    Bye,
    /// `<tag> OK|NO|BAD <phrase>`
    Done(Status, DonePhrase),
}

/// One piece of wire output: a text line, or raw literal bytes.
#[derive(Debug)]
pub enum Chunk {
    Text(String),
    Raw(Vec<u8>),
}

// ── the rendered text, as specification ────────────────────────────

pub open spec fn status_word(s: Status) -> Seq<char> {
    match s {
        Status::Okay => "OK"@,
        Status::No => "NO"@,
        Status::Bad => "BAD"@,
    }
}

pub open spec fn done_words(p: DonePhrase) -> Seq<char> {
    match p {
        DonePhrase::CapabilityDone => "CAPABILITY completed"@,
        DonePhrase::NoopDone => "NOOP completed"@,
        DonePhrase::LoginDone => "LOGIN completed"@,
        DonePhrase::ListDone => "LIST completed"@,
        DonePhrase::SelectDone => "[READ-WRITE] SELECT completed"@,
        DonePhrase::SearchDone => "SEARCH completed"@,
        DonePhrase::FetchDone => "FETCH completed"@,
        DonePhrase::StoreDone => "STORE completed"@,
        DonePhrase::CopyDone => "COPY completed"@,
        DonePhrase::ExpungeDone => "EXPUNGE completed"@,
        DonePhrase::LogoutDone => "LOGOUT completed"@,
        DonePhrase::NoFolderSelected => "No folder selected"@,
        DonePhrase::FolderNotFound => "Folder not found"@,
        DonePhrase::SourceNotFound => "Source folder not found"@,
        DonePhrase::TryCreate => "[TRYCREATE] Destination folder not found"@,
        DonePhrase::UidsExhausted => "No free identifiers in destination"@,
        DonePhrase::UnknownCommand => "Unknown command"@,
        DonePhrase::BadSyntax => "Invalid command line"@,
    }
}

/// The flag list a store echo shows for a message's two flags.
pub open spec fn flags_words(seen: bool, deleted: bool) -> Seq<char> {
    if seen && deleted {
        "\\Seen \\Deleted"@
    } else if seen {
        "\\Seen"@
    } else if deleted {
        "\\Deleted"@
    } else {
        ""@
    }
}

/// Space-joined decimal identifiers.
pub open spec fn join_uids(uids: Seq<u32>) -> Seq<char>
    decreases uids.len(),
{
    if uids.len() == 0 {
        Seq::empty()
    } else if uids.len() == 1 {
        dec_rep(uids[0] as nat)
    } else {
        join_uids(uids.drop_last()) + " "@ + dec_rep(uids.last() as nat)
    }
}

/// The header line of a literal-framed body: it declares, inside
/// braces, the exact byte count of the raw payload that follows.
pub open spec fn fetch_header(pos: int, uid: int, count: int) -> Seq<char> {
    "* "@ + dec_rep(pos as nat) + " FETCH (UID "@ + dec_rep(uid as nat) + " BODY[] {"@ + dec_rep(
        count as nat,
    ) + "}\r\n"@
}

/// The text line a reply renders to.  For a literal-framed body this
/// is the header line; the raw bytes and the closing line follow as
/// separate chunks.
pub open spec fn line_of(tag: Seq<char>, r: Reply) -> Seq<char> {
    match r {
        Reply::Capability => "* CAPABILITY IMAP4rev1 STARTTLS\r\n"@,
        Reply::ListItem(name) => "* LIST (\\HasNoChildren) \"/\" \""@ + name@ + "\"\r\n"@,
        Reply::FlagsSupported => "* FLAGS (\\Seen \\Answered \\Flagged \\Deleted \\Draft)\r\n"@,
        Reply::Exists(n) => "* "@ + dec_rep(n as nat) + " EXISTS\r\n"@,
        Reply::Recent(n) => "* "@ + dec_rep(n as nat) + " RECENT\r\n"@,
        Reply::UidValidity(v) => "* OK [UIDVALIDITY "@ + dec_rep(v as nat) + "]\r\n"@,
        Reply::UidNext(v) => "* OK [UIDNEXT "@ + dec_rep(v as nat) + "]\r\n"@,
        Reply::PermanentFlags => "* OK [PERMANENTFLAGS (\\Seen \\Deleted)] Limited\r\n"@,
        Reply::FirstUnseen(p) => "* OK [UNSEEN "@ + dec_rep(p as nat) + "]\r\n"@,
        Reply::SearchResult(uids) => "* SEARCH "@ + join_uids(uids@) + "\r\n"@,
        Reply::FetchBody { pos, uid, body } => fetch_header(
            pos as int,
            uid as int,
            body@.len() as int,
        ),
        Reply::FetchFlags { pos, uid, seen, deleted } => "* "@ + dec_rep(pos as nat)
            + " FETCH (UID "@ + dec_rep(uid as nat) + " FLAGS ("@ + flags_words(seen, deleted)
            + "))\r\n"@,
        Reply::Expunged(pos) => "* "@ + dec_rep(pos as nat) + " EXPUNGE\r\n"@,
        Reply::Bye => "* BYE\r\n"@,
        Reply::Done(s, p) => tag + " "@ + status_word(s) + " "@ + done_words(p) + "\r\n"@,
    }
}

// ── rendering ──────────────────────────────────────────────────────

fn join_uids_exec(uids: &Vec<u32>) -> (r: String)
    ensures
        r@ == join_uids(uids@),
{
    let mut r = String::new();
    let mut i: usize = 0;
    proof {
        assert(r@ =~= join_uids(uids@.take(0)));
        assert(uids@.take(0) =~= Seq::<u32>::empty());
    }
    while i < uids.len()
        invariant
            0 <= i <= uids@.len(),
            r@ == join_uids(uids@.take(i as int)),
        decreases uids@.len() - i,
    {
        proof {
            assert(uids@.take(i + 1 as int).drop_last() =~= uids@.take(i as int));
            assert(uids@.take(i + 1 as int).last() == uids@[i as int]);
        }
        if i > 0 {
            r.append(" ");
        }
        let d = fmt_u32(uids[i]);
        r.append(d.as_str());
        i = i + 1;
    }
    proof {
        assert(uids@.take(uids@.len() as int) =~= uids@);
    }
    r
}

/// Render one reply to its wire chunks: one text line, except a
/// fetched body, which renders as header line, raw bytes, and the
/// closing line.  Every tagged completion repeats exactly the tag
/// the initiator supplied.
pub fn render_reply(tag: &str, r: &Reply) -> (out: Vec<Chunk>)
    ensures
        match r {
            Reply::FetchBody { pos, uid, body } => {
                &&& out@.len() == 3
                &&& out@[0] matches Chunk::Text(t) && t@ == line_of(tag@, *r)
                &&& out@[1] matches Chunk::Raw(b) && b@ == body@
                &&& out@[2] matches Chunk::Text(t) && t@ == ")\r\n"@
            },
            _ => out@.len() == 1 && (out@[0] matches Chunk::Text(t) && t@ == line_of(tag@, *r)),
        },
{
    let mut out: Vec<Chunk> = Vec::new();
    match r {
        Reply::Capability => {
            out.push(Chunk::Text(String::from_str("* CAPABILITY IMAP4rev1 STARTTLS\r\n")));
        }
        Reply::ListItem(name) => {
            let mut t = String::from_str("* LIST (\\HasNoChildren) \"/\" \"");
            t.append(name.as_str());
            t.append("\"\r\n");
            proof {
                assert(t@ =~= line_of(tag@, *r));
            }
            out.push(Chunk::Text(t));
        }
        Reply::FlagsSupported => {
            out.push(
                Chunk::Text(
                    String::from_str("* FLAGS (\\Seen \\Answered \\Flagged \\Deleted \\Draft)\r\n"),
                ),
            );
        }
        Reply::Exists(n) => {
            let mut t = String::from_str("* ");
            let d = fmt_usize(*n);
            t.append(d.as_str());
            t.append(" EXISTS\r\n");
            proof {
                assert(t@ =~= line_of(tag@, *r));
            }
            out.push(Chunk::Text(t));
        }
        Reply::Recent(n) => {
            let mut t = String::from_str("* ");
            let d = fmt_usize(*n);
            t.append(d.as_str());
            t.append(" RECENT\r\n");
            proof {
                assert(t@ =~= line_of(tag@, *r));
            }
            out.push(Chunk::Text(t));
        }
        Reply::UidValidity(v) => {
            let mut t = String::from_str("* OK [UIDVALIDITY ");
            let d = fmt_u32(*v);
            t.append(d.as_str());
            t.append("]\r\n");
            proof {
                assert(t@ =~= line_of(tag@, *r));
            }
            out.push(Chunk::Text(t));
        }
        Reply::UidNext(v) => {
            let mut t = String::from_str("* OK [UIDNEXT ");
            let d = fmt_u64(*v);
            t.append(d.as_str());
            t.append("]\r\n");
            proof {
                assert(t@ =~= line_of(tag@, *r));
            }
            out.push(Chunk::Text(t));
        }
        Reply::PermanentFlags => {
            out.push(
                Chunk::Text(String::from_str("* OK [PERMANENTFLAGS (\\Seen \\Deleted)] Limited\r\n")),
            );
        }
        Reply::FirstUnseen(p) => {
            let mut t = String::from_str("* OK [UNSEEN ");
            let d = fmt_usize(*p);
            t.append(d.as_str());
            t.append("]\r\n");
            proof {
                assert(t@ =~= line_of(tag@, *r));
            }
            out.push(Chunk::Text(t));
        }
        Reply::SearchResult(uids) => {
            let mut t = String::from_str("* SEARCH ");
            let joined = join_uids_exec(uids);
            t.append(joined.as_str());
            t.append("\r\n");
            proof {
                assert(t@ =~= line_of(tag@, *r));
            }
            out.push(Chunk::Text(t));
        }
        Reply::FetchBody { pos, uid, body } => {
            let mut t = String::from_str("* ");
            let d1 = fmt_usize(*pos);
            t.append(d1.as_str());
            t.append(" FETCH (UID ");
            let d2 = fmt_u32(*uid);
            t.append(d2.as_str());
            t.append(" BODY[] {");
            let d3 = fmt_usize(body.len());
            t.append(d3.as_str());
            t.append("}\r\n");
            proof {
                assert(t@ =~= line_of(tag@, *r));
            }
            out.push(Chunk::Text(t));
            out.push(Chunk::Raw(copy_bytes(body)));
            out.push(Chunk::Text(String::from_str(")\r\n")));
        }
        Reply::FetchFlags { pos, uid, seen, deleted } => {
            let mut t = String::from_str("* ");
            let d1 = fmt_usize(*pos);
            t.append(d1.as_str());
            t.append(" FETCH (UID ");
            let d2 = fmt_u32(*uid);
            t.append(d2.as_str());
            t.append(" FLAGS (");
            if *seen && *deleted {
                t.append("\\Seen \\Deleted");
            } else if *seen {
                t.append("\\Seen");
            } else if *deleted {
                t.append("\\Deleted");
            }
            t.append("))\r\n");
            proof {
                reveal_strlit("");
                assert(t@ =~= line_of(tag@, *r));
            }
            out.push(Chunk::Text(t));
        }
        Reply::Expunged(pos) => {
            let mut t = String::from_str("* ");
            let d = fmt_usize(*pos);
            t.append(d.as_str());
            t.append(" EXPUNGE\r\n");
            proof {
                assert(t@ =~= line_of(tag@, *r));
            }
            out.push(Chunk::Text(t));
        }
        Reply::Bye => {
            out.push(Chunk::Text(String::from_str("* BYE\r\n")));
        }
        Reply::Done(s, p) => {
            let mut t = String::from_str(tag);
            t.append(" ");
            match s {
                Status::Okay => t.append("OK"),
                Status::No => t.append("NO"),
                Status::Bad => t.append("BAD"),
            }
            t.append(" ");
            match p {
                DonePhrase::CapabilityDone => t.append("CAPABILITY completed"),
                DonePhrase::NoopDone => t.append("NOOP completed"),
                DonePhrase::LoginDone => t.append("LOGIN completed"),
                DonePhrase::ListDone => t.append("LIST completed"),
                DonePhrase::SelectDone => t.append("[READ-WRITE] SELECT completed"),
                DonePhrase::SearchDone => t.append("SEARCH completed"),
                DonePhrase::FetchDone => t.append("FETCH completed"),
                DonePhrase::StoreDone => t.append("STORE completed"),
                DonePhrase::CopyDone => t.append("COPY completed"),
                DonePhrase::ExpungeDone => t.append("EXPUNGE completed"),
                DonePhrase::LogoutDone => t.append("LOGOUT completed"),
                DonePhrase::NoFolderSelected => t.append("No folder selected"),
                DonePhrase::FolderNotFound => t.append("Folder not found"),
                DonePhrase::SourceNotFound => t.append("Source folder not found"),
                DonePhrase::TryCreate => t.append("[TRYCREATE] Destination folder not found"),
                DonePhrase::UidsExhausted => t.append("No free identifiers in destination"),
                DonePhrase::UnknownCommand => t.append("Unknown command"),
                DonePhrase::BadSyntax => t.append("Invalid command line"),
            }
            t.append("\r\n");
            proof {
                assert(t@ =~= line_of(tag@, *r));
            }
            out.push(Chunk::Text(t));
        }
    }
    out
}

} // verus!
