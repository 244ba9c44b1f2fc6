//! The command dispatcher: one parsed request maps to exactly one
//! dispatch call, which routes it to the matching handler, reads or
//! mutates the mailbox, and yields the responses to emit.
//!
//! Per-connection state is the selected folder.  Commands that need
//! a selection are refused without one; selecting a missing folder
//! leaves any prior selection unchanged.

use vstd::prelude::*;
use crate::flag::Flag;
use crate::mailbox::{
    MailFolder, Mailbox, MsgModel, StoreEcho, StoreOp, copied_msgs, expunge_notices, find_folder,
    find_uid, first_unseen, keep_undeleted, max_uid, renumbered, store_trace,
};
use crate::reply::{DonePhrase, Reply, Status};
use crate::search::{Pred, matching_uids, search_folder};
use crate::text::copy_bytes;
use crate::uidset::{UidEntry, expand_entries, single_entries, expand_uid_entries, single_uid_entries};

verus! {

// ── per-connection state ───────────────────────────────────────────

/// What a connection remembers between commands: its selected
/// folder, if any.
pub struct ConnState {
    pub selected: Option<String>,
}

impl View for ConnState {
    type V = Option<Seq<char>>;

    open spec fn view(&self) -> Option<Seq<char>> {
        match self.selected {
            Some(ref s) => Some(s@),
            None => None,
        }
    }
}

impl ConnState {
    /// A fresh connection: nothing selected.
    pub fn new() -> (r: ConnState)
        ensures
            r@ is None,
    {
        ConnState { selected: None }
    }
}

// ── requests ───────────────────────────────────────────────────────

/// One parsed command body.
#[derive(Debug)]
pub enum Request {
    /// Capability query.
    Capability,
    /// No-op keepalive.
    Noop,
    /// Login; credentials are accepted unconditionally (policy is
    /// external).
    Login,
    /// List all folders.
    List,
    /// Open a folder for subsequent commands.
    Select(String),
    /// Evaluate search criteria against the selected folder; all
    /// criteria must match.
    Search(Vec<Pred>),
    /// Emit the bodies of the listed messages.
    Fetch(Vec<UidEntry>),
    /// Mutate flags on the listed messages.
    Store { set: Vec<UidEntry>, op: StoreOp, flags: Vec<Flag>, silent: bool },
    /// Duplicate the listed messages into another folder.
    Copy { set: Vec<UidEntry>, dest: String },
    /// Remove every message marked deleted.
    Expunge,
    /// End the session.
    Logout,
    /// Anything else.
    Unknown,
}

/// Whether a store request named the seen flag.
pub open spec fn wants_seen(flags: Seq<Flag>) -> bool {
    exists|i: int| 0 <= i < flags.len() && flags[i] is Seen
}

/// Whether a store request named the deleted flag.
pub open spec fn wants_deleted(flags: Seq<Flag>) -> bool {
    exists|i: int| 0 <= i < flags.len() && flags[i] is Deleted
}

fn flags_want_seen(flags: &Vec<Flag>) -> (r: bool)
    ensures
        r == wants_seen(flags@),
{
    let mut i: usize = 0;
    while i < flags.len()
        invariant
            0 <= i <= flags@.len(),
            forall|j: int| 0 <= j < i ==> !(flags@[j] is Seen),
        decreases flags@.len() - i,
    {
        if matches!(&flags[i], Flag::Seen) {
            return true;
        }
        i = i + 1;
    }
    false
}

fn flags_want_deleted(flags: &Vec<Flag>) -> (r: bool)
    ensures
        r == wants_deleted(flags@),
{
    let mut i: usize = 0;
    while i < flags.len()
        invariant
            0 <= i <= flags@.len(),
            forall|j: int| 0 <= j < i ==> !(flags@[j] is Deleted),
        decreases flags@.len() - i,
    {
        if matches!(&flags[i], Flag::Deleted) {
            return true;
        }
        i = i + 1;
    }
    false
}

// ── simple handlers ────────────────────────────────────────────────

/// Capability query: one untagged capability list, then completion.
pub fn handle_capability() -> (r: Vec<Reply>)
    ensures
        r@.len() == 2,
        r@[0] is Capability,
        r@[1] matches Reply::Done(s, p) && s is Okay && p is CapabilityDone,
{
    let mut r: Vec<Reply> = Vec::new();
    r.push(Reply::Capability);
    r.push(Reply::Done(Status::Okay, DonePhrase::CapabilityDone));
    r
}

/// No-op: no state change, completion only.
pub fn handle_noop() -> (r: Vec<Reply>)
    ensures
        r@.len() == 1,
        r@[0] matches Reply::Done(s, p) && s is Okay && p is NoopDone,
{
    let mut r: Vec<Reply> = Vec::new();
    r.push(Reply::Done(Status::Okay, DonePhrase::NoopDone));
    r
}

/// Login: any credentials are accepted; authentication policy is a
/// pluggable concern outside this engine.
pub fn handle_login() -> (r: Vec<Reply>)
    ensures
        r@.len() == 1,
        r@[0] matches Reply::Done(s, p) && s is Okay && p is LoginDone,
{
    let mut r: Vec<Reply> = Vec::new();
    r.push(Reply::Done(Status::Okay, DonePhrase::LoginDone));
    r
}

/// Logout: a connection-ending notice, then completion.
pub fn handle_logout() -> (r: Vec<Reply>)
    ensures
        r@.len() == 2,
        r@[0] is Bye,
        r@[1] matches Reply::Done(s, p) && s is Okay && p is LogoutDone,
{
    let mut r: Vec<Reply> = Vec::new();
    r.push(Reply::Bye);
    r.push(Reply::Done(Status::Okay, DonePhrase::LogoutDone));
    r
}

/// List: one untagged line per folder, in order, then completion.
pub fn handle_list(mb: &Mailbox) -> (r: Vec<Reply>)
    ensures
        r@.len() == mb@.len() + 1,
        forall|i: int|
            0 <= i < mb@.len() ==> ((#[trigger] r@[i]) matches Reply::ListItem(n) && n@
                == mb@[i].name),
        r@[mb@.len() as int] matches Reply::Done(s, p) && s is Okay && p is ListDone,
{
    let mut r: Vec<Reply> = Vec::new();
    let mut i: usize = 0;
    let n = mb.folders.len();
    while i < n
        invariant
            0 <= i <= n,
            n == mb@.len(),
            r@.len() == i,
            forall|j: int|
                0 <= j < i ==> ((#[trigger] r@[j]) matches Reply::ListItem(nm) && nm@
                    == mb@[j].name),
        decreases n - i,
    {
        let name = String::from_str(mb.folders[i].name.as_str());
        r.push(Reply::ListItem(name));
        i = i + 1;
    }
    r.push(Reply::Done(Status::Okay, DonePhrase::ListDone));
    r
}

// ── selection ──────────────────────────────────────────────────────

/// Select: opening an existing folder emits its metadata — flags,
/// the live message count, the recent count, identifier validity,
/// the next identifier, permanent flags, and (when one exists) the
/// position of the first unseen message — and records the selection.
/// A missing folder is refused and leaves any prior selection
/// unchanged.
pub fn handle_select(mb: &Mailbox, name: &str, st: &mut ConnState) -> (r: Vec<Reply>)
    ensures
        ({
            let fi = find_folder(mb@, name@);
            if fi >= 0 {
                let f = mb@[fi];
                let fu = first_unseen(f.msgs);
                &&& final(st)@ matches Some(n) && n == name@
                &&& r@.len() == (if fu >= 0 {
                    8int
                } else {
                    7int
                })
                &&& r@[0] is FlagsSupported
                &&& (r@[1] matches Reply::Exists(n) && n == f.msgs.len())
                &&& (r@[2] matches Reply::Recent(n) && n == 0)
                &&& (r@[3] matches Reply::UidValidity(v) && v == 1)
                &&& (r@[4] matches Reply::UidNext(v) && v as int == max_uid(f.msgs) + 1)
                &&& r@[5] is PermanentFlags
                &&& (fu >= 0 ==> (r@[6] matches Reply::FirstUnseen(p) && p == fu + 1))
                &&& (r@[r@.len() - 1] matches Reply::Done(s, p) && s is Okay && p is SelectDone)
            } else {
                &&& *final(st) == *old(st)
                &&& r@.len() == 1
                &&& (r@[0] matches Reply::Done(s, p) && s is No && p is FolderNotFound)
            }
        }),
{
    let mut r: Vec<Reply> = Vec::new();
    match mb.find(name) {
        Some(fi) => {
            let f = &mb.folders[fi];
            r.push(Reply::FlagsSupported);
            r.push(Reply::Exists(f.msgs.len()));
            r.push(Reply::Recent(0));
            r.push(Reply::UidValidity(1));
            let m = f.max_uid();
            r.push(Reply::UidNext(m as u64 + 1));
            r.push(Reply::PermanentFlags);
            match f.first_unseen_pos() {
                Some(p) => {
                    r.push(Reply::FirstUnseen(p));
                }
                None => {
                }
            }
            r.push(Reply::Done(Status::Okay, DonePhrase::SelectDone));
            st.selected = Some(String::from_str(name));
            r
        }
        None => {
            r.push(Reply::Done(Status::No, DonePhrase::FolderNotFound));
            r
        }
    }
}

// ── search ─────────────────────────────────────────────────────────

/// Search: evaluate the criteria against every message of the
/// selected folder, in order, and report the matching identifiers in
/// one untagged line (still emitted when empty).
pub fn handle_search(mb: &Mailbox, crit: &Vec<Pred>, st: &ConnState) -> (r: Vec<Reply>)
    ensures
        ({
            match st@ {
                None => r@.len() == 1 && (r@[0] matches Reply::Done(s, p) && s is Bad
                    && p is NoFolderSelected),
                Some(name) => {
                    let fi = find_folder(mb@, name);
                    if fi < 0 {
                        r@.len() == 1 && (r@[0] matches Reply::Done(s, p) && s is Bad
                            && p is FolderNotFound)
                    } else {
                        &&& r@.len() == 2
                        &&& (r@[0] matches Reply::SearchResult(uids) && uids@ == matching_uids(
                            mb@[fi].msgs,
                            crit@,
                        ))
                        &&& (r@[1] matches Reply::Done(s, p) && s is Okay && p is SearchDone)
                    }
                },
            }
        }),
{
    let mut r: Vec<Reply> = Vec::new();
    let name = match &st.selected {
        None => {
            r.push(Reply::Done(Status::Bad, DonePhrase::NoFolderSelected));
            return r;
        }
        Some(n) => n,
    };
    match mb.find(name.as_str()) {
        None => {
            r.push(Reply::Done(Status::Bad, DonePhrase::FolderNotFound));
            r
        }
        Some(fi) => {
            let uids = search_folder(&mb.folders[fi], crit);
            r.push(Reply::SearchResult(uids));
            r.push(Reply::Done(Status::Okay, DonePhrase::SearchDone));
            r
        }
    }
}

// ── fetch ──────────────────────────────────────────────────────────

/// The literal-framed items a fetch emits: for each requested
/// identifier present in the folder, its current 1-based position,
/// the identifier, and the raw bytes; identifiers not found are
/// skipped silently.
pub open spec fn fetch_items(msgs: Seq<MsgModel>, uids: Seq<u32>) -> Seq<(int, u32, Seq<u8>)>
    decreases uids.len(),
{
    if uids.len() == 0 {
        Seq::empty()
    } else {
        let i = find_uid(msgs, uids[0]);
        let rest = fetch_items(msgs, uids.drop_first());
        if i < 0 {
            rest
        } else {
            seq![(i + 1, uids[0], msgs[i].raw)] + rest
        }
    }
}

/// Fetch: emit one literal-framed body per requested identifier
/// present in the selected folder.
pub fn handle_fetch(mb: &Mailbox, set: &Vec<UidEntry>, st: &ConnState) -> (r: Vec<Reply>)
    ensures
        ({
            match st@ {
                None => r@.len() == 1 && (r@[0] matches Reply::Done(s, p) && s is Bad
                    && p is NoFolderSelected),
                Some(name) => {
                    let fi = find_folder(mb@, name);
                    if fi < 0 {
                        r@.len() == 1 && (r@[0] matches Reply::Done(s, p) && s is Bad
                            && p is FolderNotFound)
                    } else {
                        let items = fetch_items(mb@[fi].msgs, single_entries(set@));
                        &&& r@.len() == items.len() + 1
                        &&& forall|k: int|
                            0 <= k < items.len() ==> ((#[trigger] r@[k]) matches Reply::FetchBody {
                                pos,
                                uid,
                                body,
                            } && pos as int == items[k].0 && uid == items[k].1 && body@
                                == items[k].2)
                        &&& (r@[items.len() as int] matches Reply::Done(s, p) && s is Okay
                            && p is FetchDone)
                    }
                },
            }
        }),
{
    let mut r: Vec<Reply> = Vec::new();
    let name = match &st.selected {
        None => {
            r.push(Reply::Done(Status::Bad, DonePhrase::NoFolderSelected));
            return r;
        }
        Some(n) => n,
    };
    let fi = match mb.find(name.as_str()) {
        None => {
            r.push(Reply::Done(Status::Bad, DonePhrase::FolderNotFound));
            return r;
        }
        Some(fi) => fi,
    };
    let f = &mb.folders[fi];
    let uids = single_uid_entries(set);
    let ghost items = fetch_items(f@.msgs, uids@);
    let mut k: usize = 0;
    proof {
        assert(uids@.skip(0) =~= uids@);
        assert(items.skip(0) =~= items);
    }
    while k < uids.len()
        invariant
            0 <= k <= uids@.len(),
            items == fetch_items(f@.msgs, uids@),
            f == &mb.folders[fi as int],
            fi < mb.folders@.len(),
            r@.len() <= items.len(),
            fetch_items(f@.msgs, uids@.skip(k as int)) == items.skip(r@.len() as int),
            forall|j: int|
                0 <= j < r@.len() ==> ((#[trigger] r@[j]) matches Reply::FetchBody {
                    pos,
                    uid,
                    body,
                } && pos as int == items[j].0 && uid == items[j].1 && body@ == items[j].2),
        decreases uids@.len() - k,
    {
        let ghost rest = uids@.skip(k as int);
        proof {
            assert(rest[0] == uids@[k as int]);
            assert(rest.drop_first() =~= uids@.skip(k + 1 as int));
        }
        let u = uids[k];
        match f.find_uid(u) {
            Some(i) => {
                let n = f.msgs.len();
                proof {
                    assert(i < n);
                    assert(items.skip(r@.len() as int)[0] == (i + 1, u, f@.msgs[i as int].raw));
                }
                let ghost rlen = r@.len();
                let body = copy_bytes(&f.msgs[i].raw);
                r.push(Reply::FetchBody { pos: i + 1, uid: u, body });
                proof {
                    assert(items.skip(rlen as int).drop_first() =~= items.skip(rlen as int + 1));
                }
            }
            None => {
            }
        }
        k = k + 1;
    }
    proof {
        assert(uids@.skip(uids@.len() as int) =~= Seq::<u32>::empty());
        assert(items.skip(r@.len() as int).len() == 0);
        assert(r@.len() == items.len());
    }
    r.push(Reply::Done(Status::Okay, DonePhrase::FetchDone));
    r
}

// ── store ──────────────────────────────────────────────────────────

/// Store: expand the identifier set against the folder's greatest
/// identifier, mutate flags per the operation, and — unless silent —
/// echo each touched message's position and resulting flags.
pub fn handle_store(
    mb: &mut Mailbox,
    set: &Vec<UidEntry>,
    op: StoreOp,
    flags: &Vec<Flag>,
    silent: bool,
    st: &ConnState,
) -> (r: Vec<Reply>)
    ensures
        ({
            match st@ {
                None => {
                    &&& *final(mb) == *old(mb)
                    &&& r@.len() == 1
                    &&& (r@[0] matches Reply::Done(s, p) && s is Bad && p is NoFolderSelected)
                },
                Some(name) => {
                    let fi = find_folder(old(mb)@, name);
                    if fi < 0 {
                        &&& *final(mb) == *old(mb)
                        &&& r@.len() == 1
                        &&& (r@[0] matches Reply::Done(s, p) && s is Bad && p is FolderNotFound)
                    } else {
                        let msgs = old(mb)@[fi].msgs;
                        let uids = expand_entries(set@, max_uid(msgs) as u32);
                        let trace = store_trace(msgs, uids, op, wants_seen(flags@), wants_deleted(flags@));
                        &&& final(mb)@.len() == old(mb)@.len()
                        &&& (forall|j: int|
                            0 <= j < old(mb)@.len() && j != fi ==> final(mb)@[j] == old(mb)@[j])
                        &&& final(mb)@[fi].name == old(mb)@[fi].name
                        &&& final(mb)@[fi].msgs == trace.0
                        &&& (if silent {
                            r@.len() == 1
                        } else {
                            &&& r@.len() == trace.1.len() + 1
                            &&& forall|j: int|
                                0 <= j < trace.1.len() ==> ((#[trigger] r@[j])
                                    matches Reply::FetchFlags { pos, uid, seen, deleted }
                                    && pos as int == trace.1[j].pos && uid == trace.1[j].uid
                                    && seen == trace.1[j].seen && deleted == trace.1[j].deleted)
                        })
                        &&& (r@[r@.len() - 1] matches Reply::Done(s, p) && s is Okay
                            && p is StoreDone)
                    }
                },
            }
        }),
{
    let mut r: Vec<Reply> = Vec::new();
    let name = match &st.selected {
        None => {
            r.push(Reply::Done(Status::Bad, DonePhrase::NoFolderSelected));
            return r;
        }
        Some(n) => n,
    };
    let fi = match mb.find(name.as_str()) {
        None => {
            r.push(Reply::Done(Status::Bad, DonePhrase::FolderNotFound));
            return r;
        }
        Some(fi) => fi,
    };
    let want_seen = flags_want_seen(flags);
    let want_deleted = flags_want_deleted(flags);
    let ghost mb0 = mb@;
    let mut f = take_folder(mb, fi);
    let m = f.max_uid();
    let uids = expand_uid_entries(set, m);
    let echoes = f.store(&uids, op, want_seen, want_deleted);
    put_folder(mb, fi, f);
    proof {
        assert(mb@ =~= mb0.update(fi as int, mb@[fi as int]));
        assert(mb@.len() == mb0.len());
        assert forall|j: int| 0 <= j < mb0.len() && j != fi implies mb@[j] == mb0[j] by {}
    }
    if !silent {
        let ghost trace1 = echoes@.map_values(|e: StoreEcho| e@);
        let mut j: usize = 0;
        while j < echoes.len()
            invariant
                0 <= j <= echoes@.len(),
                trace1 == echoes@.map_values(|e: StoreEcho| e@),
                r@.len() == j,
                forall|q: int|
                    0 <= q < j ==> ((#[trigger] r@[q]) matches Reply::FetchFlags {
                        pos,
                        uid,
                        seen,
                        deleted,
                    } && pos as int == trace1[q].pos && uid == trace1[q].uid && seen
                        == trace1[q].seen && deleted == trace1[q].deleted),
            decreases echoes@.len() - j,
        {
            let e = &echoes[j];
            r.push(
                Reply::FetchFlags { pos: e.pos, uid: e.uid, seen: e.seen, deleted: e.deleted },
            );
            j = j + 1;
        }
    }
    r.push(Reply::Done(Status::Okay, DonePhrase::StoreDone));
    r
}

/// Take the folder at `fi` out of the mailbox.
fn take_folder(mb: &mut Mailbox, fi: usize) -> (f: MailFolder)
    requires
        fi < old(mb)@.len(),
    ensures
        f@ == old(mb)@[fi as int],
        final(mb)@ == old(mb)@.remove(fi as int),
{
    let f = mb.folders.remove(fi);
    proof {
        assert(final(mb)@ =~= old(mb)@.remove(fi as int));
    }
    f
}

/// Put a folder back at `fi`.
fn put_folder(mb: &mut Mailbox, fi: usize, f: MailFolder)
    requires
        fi <= old(mb)@.len(),
    ensures
        final(mb)@ == old(mb)@.insert(fi as int, f@),
{
    mb.folders.insert(fi, f);
    proof {
        assert(final(mb)@ =~= old(mb)@.insert(fi as int, f@));
    }
}

} // verus!

verus! {

// ── copy ───────────────────────────────────────────────────────────

/// Copy: duplicate the listed messages of the selected folder into
/// the destination, leaving the source untouched; each copy arrives
/// under a fresh identifier unique within the destination, assigned
/// ascending from just above the destination's greatest.  A missing
/// source is refused; a missing destination is refused with a
/// try-create hint; a destination with no free identifiers left is
/// refused without change.
pub fn handle_copy(mb: &mut Mailbox, set: &Vec<UidEntry>, dest: &str, st: &ConnState) -> (r: Vec<
    Reply,
>)
    ensures
        ({
            match st@ {
                None => {
                    &&& *final(mb) == *old(mb)
                    &&& r@.len() == 1
                    &&& (r@[0] matches Reply::Done(s, p) && s is Bad && p is NoFolderSelected)
                },
                Some(name) => {
                    let fi = find_folder(old(mb)@, name);
                    let di = find_folder(old(mb)@, dest@);
                    if fi < 0 {
                        &&& *final(mb) == *old(mb)
                        &&& r@.len() == 1
                        &&& (r@[0] matches Reply::Done(s, p) && s is Bad && p is SourceNotFound)
                    } else if di < 0 {
                        &&& *final(mb) == *old(mb)
                        &&& r@.len() == 1
                        &&& (r@[0] matches Reply::Done(s, p) && s is No && p is TryCreate)
                    } else {
                        let copied = copied_msgs(old(mb)@[fi].msgs, single_entries(set@));
                        let base = max_uid(old(mb)@[di].msgs);
                        if base + copied.len() <= u32::MAX {
                            &&& final(mb)@.len() == old(mb)@.len()
                            &&& (forall|j: int|
                                0 <= j < old(mb)@.len() && j != di ==> final(mb)@[j] == old(
                                    mb,
                                )@[j])
                            &&& final(mb)@[di].name == old(mb)@[di].name
                            &&& final(mb)@[di].msgs == old(mb)@[di].msgs + renumbered(
                                copied,
                                base,
                            )
                            &&& r@.len() == 1
                            &&& (r@[0] matches Reply::Done(s, p) && s is Okay && p is CopyDone)
                        } else {
                            &&& final(mb)@ == old(mb)@
                            &&& r@.len() == 1
                            &&& (r@[0] matches Reply::Done(s, p) && s is No && p is UidsExhausted)
                        }
                    }
                },
            }
        }),
{
    let mut r: Vec<Reply> = Vec::new();
    let name = match &st.selected {
        None => {
            r.push(Reply::Done(Status::Bad, DonePhrase::NoFolderSelected));
            return r;
        }
        Some(n) => n,
    };
    let uids = single_uid_entries(set);
    let fi = match mb.find(name.as_str()) {
        None => {
            r.push(Reply::Done(Status::Bad, DonePhrase::SourceNotFound));
            return r;
        }
        Some(fi) => fi,
    };
    let di = match mb.find(dest) {
        None => {
            r.push(Reply::Done(Status::No, DonePhrase::TryCreate));
            return r;
        }
        Some(di) => di,
    };
    if mb.copy_messages(fi, di, &uids) {
        r.push(Reply::Done(Status::Okay, DonePhrase::CopyDone));
    } else {
        r.push(Reply::Done(Status::No, DonePhrase::UidsExhausted));
    }
    r
}

// ── expunge ────────────────────────────────────────────────────────

/// Expunge: remove every message marked deleted from the selected
/// folder, reporting each removal at the sequence number the message
/// occupies at the moment it is removed.
pub fn handle_expunge(mb: &mut Mailbox, st: &ConnState) -> (r: Vec<Reply>)
    ensures
        ({
            match st@ {
                None => {
                    &&& *final(mb) == *old(mb)
                    &&& r@.len() == 1
                    &&& (r@[0] matches Reply::Done(s, p) && s is Bad && p is NoFolderSelected)
                },
                Some(name) => {
                    let fi = find_folder(old(mb)@, name);
                    if fi < 0 {
                        &&& *final(mb) == *old(mb)
                        &&& r@.len() == 1
                        &&& (r@[0] matches Reply::Done(s, p) && s is Bad && p is FolderNotFound)
                    } else {
                        let notices = expunge_notices(old(mb)@[fi].msgs);
                        &&& final(mb)@.len() == old(mb)@.len()
                        &&& (forall|j: int|
                            0 <= j < old(mb)@.len() && j != fi ==> final(mb)@[j] == old(mb)@[j])
                        &&& final(mb)@[fi].name == old(mb)@[fi].name
                        &&& final(mb)@[fi].msgs == keep_undeleted(old(mb)@[fi].msgs)
                        &&& r@.len() == notices.len() + 1
                        &&& (forall|k: int|
                            0 <= k < notices.len() ==> ((#[trigger] r@[k])
                                matches Reply::Expunged(pos) && pos as int == notices[k]))
                        &&& (r@[notices.len() as int] matches Reply::Done(s, p) && s is Okay
                            && p is ExpungeDone)
                    }
                },
            }
        }),
{
    let mut r: Vec<Reply> = Vec::new();
    let name = match &st.selected {
        None => {
            r.push(Reply::Done(Status::Bad, DonePhrase::NoFolderSelected));
            return r;
        }
        Some(n) => n,
    };
    let fi = match mb.find(name.as_str()) {
        None => {
            r.push(Reply::Done(Status::Bad, DonePhrase::FolderNotFound));
            return r;
        }
        Some(fi) => fi,
    };
    let ghost mb0 = mb@;
    let mut f = take_folder(mb, fi);
    let notices = f.expunge();
    put_folder(mb, fi, f);
    proof {
        assert(mb@ =~= mb0.update(fi as int, mb@[fi as int]));
        assert(mb@.len() == mb0.len());
        assert forall|j: int| 0 <= j < mb0.len() && j != fi implies mb@[j] == mb0[j] by {}
    }
    let ghost ns = expunge_notices(mb0[fi as int].msgs);
    let mut k: usize = 0;
    while k < notices.len()
        invariant
            0 <= k <= notices@.len(),
            notices@.map_values(|x: usize| x as int) == ns,
            r@.len() == k,
            forall|q: int|
                0 <= q < k ==> ((#[trigger] r@[q]) matches Reply::Expunged(pos) && pos as int
                    == ns[q]),
        decreases notices@.len() - k,
    {
        r.push(Reply::Expunged(notices[k]));
        k = k + 1;
    }
    r.push(Reply::Done(Status::Okay, DonePhrase::ExpungeDone));
    r
}

// ── unknown commands ───────────────────────────────────────────────

/// An unknown or unsupported command never crashes the loop: it is
/// refused and the connection continues.
pub fn handle_unknown() -> (r: Vec<Reply>)
    ensures
        r@.len() == 1,
        r@[0] matches Reply::Done(s, p) && s is Bad && p is UnknownCommand,
{
    let mut r: Vec<Reply> = Vec::new();
    r.push(Reply::Done(Status::Bad, DonePhrase::UnknownCommand));
    r
}

// ── the dispatcher ─────────────────────────────────────────────────

/// Whether a request can change the mailbox.
pub open spec fn is_write_request(req: Request) -> bool {
    req is Store || req is Copy || req is Expunge
}

/// What a dispatch promises for each request, stated in the same
/// vocabulary as the handlers' own contracts: `st0`/`mb0` are the
/// connection state and mailbox before the call, `st1`/`mb1` after,
/// and `r` the replies.
pub open spec fn request_post(
    req: Request,
    st0: ConnState,
    st1: ConnState,
    mb0: Mailbox,
    mb1: Mailbox,
    r: Vec<Reply>,
) -> bool {
    match req {
        Request::Capability => {
            &&& st1 == st0
            &&& mb1 == mb0
            &&& r@.len() == 2
            &&& r@[0] is Capability
            &&& (r@[1] matches Reply::Done(s, p) && s is Okay && p is CapabilityDone)
        },
        Request::Noop => {
            &&& st1 == st0
            &&& mb1 == mb0
            &&& r@.len() == 1
            &&& (r@[0] matches Reply::Done(s, p) && s is Okay && p is NoopDone)
        },
        Request::Login => {
            &&& st1 == st0
            &&& mb1 == mb0
            &&& r@.len() == 1
            &&& (r@[0] matches Reply::Done(s, p) && s is Okay && p is LoginDone)
        },
        Request::List => {
            &&& st1 == st0
            &&& mb1 == mb0
            &&& r@.len() == mb0@.len() + 1
            &&& (forall|i: int|
                0 <= i < mb0@.len() ==> ((#[trigger] r@[i]) matches Reply::ListItem(n) && n@
                    == mb0@[i].name))
            &&& (r@[mb0@.len() as int] matches Reply::Done(s, p) && s is Okay && p is ListDone)
        },
        Request::Select(name) => {
            &&& mb1 == mb0
            &&& ({
                let fi = find_folder(mb0@, name@);
                if fi >= 0 {
                    let f = mb0@[fi];
                    let fu = first_unseen(f.msgs);
                    &&& st1@ matches Some(n) && n == name@
                    &&& r@.len() == (if fu >= 0 {
                        8int
                    } else {
                        7int
                    })
                    &&& r@[0] is FlagsSupported
                    &&& (r@[1] matches Reply::Exists(n) && n == f.msgs.len())
                    &&& (r@[2] matches Reply::Recent(n) && n == 0)
                    &&& (r@[3] matches Reply::UidValidity(v) && v == 1)
                    &&& (r@[4] matches Reply::UidNext(v) && v as int == max_uid(f.msgs) + 1)
                    &&& r@[5] is PermanentFlags
                    &&& (fu >= 0 ==> (r@[6] matches Reply::FirstUnseen(p) && p == fu + 1))
                    &&& (r@[r@.len() - 1] matches Reply::Done(s, p) && s is Okay
                        && p is SelectDone)
                } else {
                    &&& st1 == st0
                    &&& r@.len() == 1
                    &&& (r@[0] matches Reply::Done(s, p) && s is No && p is FolderNotFound)
                }
            })
        },
        Request::Search(crit) => {
            &&& st1 == st0
            &&& mb1 == mb0
            &&& ({
                match st0@ {
                    None => r@.len() == 1 && (r@[0] matches Reply::Done(s, p) && s is Bad
                        && p is NoFolderSelected),
                    Some(name) => {
                        let fi = find_folder(mb0@, name);
                        if fi < 0 {
                            r@.len() == 1 && (r@[0] matches Reply::Done(s, p) && s is Bad
                                && p is FolderNotFound)
                        } else {
                            &&& r@.len() == 2
                            &&& (r@[0] matches Reply::SearchResult(uids) && uids@
                                == matching_uids(mb0@[fi].msgs, crit@))
                            &&& (r@[1] matches Reply::Done(s, p) && s is Okay && p is SearchDone)
                        }
                    },
                }
            })
        },
        Request::Fetch(set) => {
            &&& st1 == st0
            &&& mb1 == mb0
            &&& ({
                match st0@ {
                    None => r@.len() == 1 && (r@[0] matches Reply::Done(s, p) && s is Bad
                        && p is NoFolderSelected),
                    Some(name) => {
                        let fi = find_folder(mb0@, name);
                        if fi < 0 {
                            r@.len() == 1 && (r@[0] matches Reply::Done(s, p) && s is Bad
                                && p is FolderNotFound)
                        } else {
                            let items = fetch_items(mb0@[fi].msgs, single_entries(set@));
                            &&& r@.len() == items.len() + 1
                            &&& (forall|k: int|
                                0 <= k < items.len() ==> ((#[trigger] r@[k])
                                    matches Reply::FetchBody { pos, uid, body } && pos as int
                                    == items[k].0 && uid == items[k].1 && body@ == items[k].2))
                            &&& (r@[items.len() as int] matches Reply::Done(s, p) && s is Okay
                                && p is FetchDone)
                        }
                    },
                }
            })
        },
        Request::Store { set, op, flags, silent } => {
            &&& st1 == st0
            &&& ({
                match st0@ {
                    None => {
                        &&& mb1 == mb0
                        &&& r@.len() == 1
                        &&& (r@[0] matches Reply::Done(s, p) && s is Bad && p is NoFolderSelected)
                    },
                    Some(name) => {
                        let fi = find_folder(mb0@, name);
                        if fi < 0 {
                            &&& mb1 == mb0
                            &&& r@.len() == 1
                            &&& (r@[0] matches Reply::Done(s, p) && s is Bad
                                && p is FolderNotFound)
                        } else {
                            let msgs = mb0@[fi].msgs;
                            let uids = expand_entries(set@, max_uid(msgs) as u32);
                            let trace = store_trace(
                                msgs,
                                uids,
                                op,
                                wants_seen(flags@),
                                wants_deleted(flags@),
                            );
                            &&& mb1@.len() == mb0@.len()
                            &&& (forall|j: int|
                                0 <= j < mb0@.len() && j != fi ==> mb1@[j] == mb0@[j])
                            &&& mb1@[fi].name == mb0@[fi].name
                            &&& mb1@[fi].msgs == trace.0
                            &&& (if silent {
                                r@.len() == 1
                            } else {
                                &&& r@.len() == trace.1.len() + 1
                                &&& (forall|j: int|
                                    0 <= j < trace.1.len() ==> ((#[trigger] r@[j])
                                        matches Reply::FetchFlags { pos, uid, seen, deleted }
                                        && pos as int == trace.1[j].pos && uid == trace.1[j].uid
                                        && seen == trace.1[j].seen && deleted
                                        == trace.1[j].deleted))
                            })
                            &&& (r@[r@.len() - 1] matches Reply::Done(s, p) && s is Okay
                                && p is StoreDone)
                        }
                    },
                }
            })
        },
        Request::Copy { set, dest } => {
            &&& st1 == st0
            &&& ({
                match st0@ {
                    None => {
                        &&& mb1 == mb0
                        &&& r@.len() == 1
                        &&& (r@[0] matches Reply::Done(s, p) && s is Bad && p is NoFolderSelected)
                    },
                    Some(name) => {
                        let fi = find_folder(mb0@, name);
                        let di = find_folder(mb0@, dest@);
                        if fi < 0 {
                            &&& mb1 == mb0
                            &&& r@.len() == 1
                            &&& (r@[0] matches Reply::Done(s, p) && s is Bad
                                && p is SourceNotFound)
                        } else if di < 0 {
                            &&& mb1 == mb0
                            &&& r@.len() == 1
                            &&& (r@[0] matches Reply::Done(s, p) && s is No && p is TryCreate)
                        } else {
                            let copied = copied_msgs(mb0@[fi].msgs, single_entries(set@));
                            let base = max_uid(mb0@[di].msgs);
                            if base + copied.len() <= u32::MAX {
                                &&& mb1@.len() == mb0@.len()
                                &&& (forall|j: int|
                                    0 <= j < mb0@.len() && j != di ==> mb1@[j] == mb0@[j])
                                &&& mb1@[di].name == mb0@[di].name
                                &&& mb1@[di].msgs == mb0@[di].msgs + renumbered(copied, base)
                                &&& r@.len() == 1
                                &&& (r@[0] matches Reply::Done(s, p) && s is Okay && p is CopyDone)
                            } else {
                                &&& mb1@ == mb0@
                                &&& r@.len() == 1
                                &&& (r@[0] matches Reply::Done(s, p) && s is No
                                    && p is UidsExhausted)
                            }
                        }
                    },
                }
            })
        },
        Request::Expunge => {
            &&& st1 == st0
            &&& ({
                match st0@ {
                    None => {
                        &&& mb1 == mb0
                        &&& r@.len() == 1
                        &&& (r@[0] matches Reply::Done(s, p) && s is Bad && p is NoFolderSelected)
                    },
                    Some(name) => {
                        let fi = find_folder(mb0@, name);
                        if fi < 0 {
                            &&& mb1 == mb0
                            &&& r@.len() == 1
                            &&& (r@[0] matches Reply::Done(s, p) && s is Bad
                                && p is FolderNotFound)
                        } else {
                            let notices = expunge_notices(mb0@[fi].msgs);
                            &&& mb1@.len() == mb0@.len()
                            &&& (forall|j: int|
                                0 <= j < mb0@.len() && j != fi ==> mb1@[j] == mb0@[j])
                            &&& mb1@[fi].name == mb0@[fi].name
                            &&& mb1@[fi].msgs == keep_undeleted(mb0@[fi].msgs)
                            &&& r@.len() == notices.len() + 1
                            &&& (forall|k: int|
                                0 <= k < notices.len() ==> ((#[trigger] r@[k])
                                    matches Reply::Expunged(pos) && pos as int == notices[k]))
                            &&& (r@[notices.len() as int] matches Reply::Done(s, p) && s is Okay
                                && p is ExpungeDone)
                        }
                    },
                }
            })
        },
        Request::Logout => {
            &&& st1 == st0
            &&& mb1 == mb0
            &&& r@.len() == 2
            &&& r@[0] is Bye
            &&& (r@[1] matches Reply::Done(s, p) && s is Okay && p is LogoutDone)
        },
        Request::Unknown => {
            &&& st1 == st0
            &&& mb1 == mb0
            &&& r@.len() == 1
            &&& (r@[0] matches Reply::Done(s, p) && s is Bad && p is UnknownCommand)
        },
    }
}

/// Route one parsed request to its handler.
///
/// Every dispatch ends with exactly one tagged completion; only a
/// select changes the connection state; only a write request (store,
/// copy, expunge) can change the mailbox; and, per request variant,
/// the replies and the state and mailbox effects are exactly those
/// [`request_post`] states — the same promises the handlers make.
pub fn dispatch(req: &Request, st: &mut ConnState, mb: &mut Mailbox) -> (r: Vec<Reply>)
    ensures
        r@.len() >= 1,
        r@[r@.len() - 1] matches Reply::Done(_, _),
        !(*req is Select) ==> *final(st) == *old(st),
        !is_write_request(*req) ==> *final(mb) == *old(mb),
        request_post(*req, *old(st), *final(st), *old(mb), *final(mb), r),
{
    match req {
        Request::Capability => handle_capability(),
        Request::Noop => handle_noop(),
        Request::Login => handle_login(),
        Request::List => handle_list(mb),
        Request::Select(name) => handle_select(mb, name.as_str(), st),
        Request::Search(crit) => handle_search(mb, crit, st),
        Request::Fetch(set) => handle_fetch(mb, set, st),
        Request::Store { set, op, flags, silent } => handle_store(mb, set, *op, flags, *silent, st),
        Request::Copy { set, dest } => handle_copy(mb, set, dest.as_str(), st),
        Request::Expunge => handle_expunge(mb, st),
        Request::Logout => handle_logout(),
        Request::Unknown => handle_unknown(),
    }
}

} // verus!
