//! The mailbox store: folders, messages and flags, with lookup and
//! mutation operations.
//!
//! Every message carries a per-folder-unique identifier (`uid`) that
//! is never renumbered, two flags (`seen`, `deleted`) and the raw
//! message bytes.  A message's sequence number — its 1-based position
//! in the folder — is never stored; it is derived from the current
//! order and shifts when earlier messages are removed.

use vstd::prelude::*;
use crate::seqs::{first_idx, lemma_first_idx, lemma_first_idx_unique};
use crate::text::{copy_bytes, seq_eq_ic, str_eq, str_eq_ic};

verus! {

// ── data model ─────────────────────────────────────────────────────

/// Mathematical model of one message.
pub ghost struct MsgModel {
    pub uid: u32,
    pub seen: bool,
    pub deleted: bool,
    pub raw: Seq<u8>,
}

/// A message stored in a folder.
pub struct Message {
    /// Folder-unique identifier, stable for the message's lifetime.
    pub uid: u32,
    /// Whether the message has been read.
    pub seen: bool,
    /// Whether the message is marked for removal.
    pub deleted: bool,
    /// The complete raw message (headers and body) as bytes.
    pub raw: Vec<u8>,
}

impl View for Message {
    type V = MsgModel;

    open spec fn view(&self) -> MsgModel {
        MsgModel { uid: self.uid, seen: self.seen, deleted: self.deleted, raw: self.raw@ }
    }
}

impl Message {
    /// Build a message with both flags clear.
    pub fn new(uid: u32, seen: bool, raw: Vec<u8>) -> (r: Message)
        ensures
            r@ == (MsgModel { uid, seen, deleted: false, raw: raw@ }),
    {
        Message { uid, seen, deleted: false, raw }
    }

    /// An independent copy with the same identifier, flags and bytes.
    pub fn duplicate(&self) -> (r: Message)
        ensures
            r@ == self@,
    {
        Message { uid: self.uid, seen: self.seen, deleted: self.deleted, raw: copy_bytes(&self.raw) }
    }
}

/// Mathematical model of one folder.
pub ghost struct FolderModel {
    pub name: Seq<char>,
    pub msgs: Seq<MsgModel>,
}

/// A named folder holding an ordered sequence of messages.
pub struct MailFolder {
    pub name: String,
    pub msgs: Vec<Message>,
}

impl View for MailFolder {
    type V = FolderModel;

    open spec fn view(&self) -> FolderModel {
        FolderModel { name: self.name@, msgs: self.msgs@.map_values(|m: Message| m@) }
    }
}

/// The set of all folders.
pub struct Mailbox {
    pub folders: Vec<MailFolder>,
}

impl View for Mailbox {
    type V = Seq<FolderModel>;

    open spec fn view(&self) -> Seq<FolderModel> {
        self.folders@.map_values(|f: MailFolder| f@)
    }
}

// ── well-formedness ────────────────────────────────────────────────

/// No two messages of one folder share an identifier.
pub open spec fn uids_unique(msgs: Seq<MsgModel>) -> bool {
    forall|i: int, j: int| 0 <= i < j < msgs.len() ==> msgs[i].uid != msgs[j].uid
}

/// Every folder keeps its identifiers unique.
pub open spec fn mailbox_wf(folders: Seq<FolderModel>) -> bool {
    forall|i: int| 0 <= i < folders.len() ==> uids_unique(#[trigger] folders[i].msgs)
}

// ── folder lookup ──────────────────────────────────────────────────

/// Whether a stored folder name answers to a requested name: the
/// inbox is matched without regard to ASCII case, every other name
/// exactly.
pub open spec fn name_matches(fname: Seq<char>, name: Seq<char>) -> bool {
    if seq_eq_ic(name, "INBOX"@) {
        seq_eq_ic(fname, "INBOX"@)
    } else {
        fname == name
    }
}

/// The index of the first folder answering to `name`, or `-1`.
pub open spec fn find_folder(folders: Seq<FolderModel>, name: Seq<char>) -> int {
    first_idx(folders, |f: FolderModel| name_matches(f.name, name))
}

fn folder_name_matches(fname: &String, name: &str) -> (r: bool)
    ensures
        r == name_matches(fname@, name@),
{
    if str_eq_ic(name, "INBOX") {
        str_eq_ic(fname.as_str(), "INBOX")
    } else {
        str_eq(fname.as_str(), name)
    }
}

impl Mailbox {
    /// An empty mailbox.
    pub fn empty() -> (r: Mailbox)
        ensures
            r@ == Seq::<FolderModel>::empty(),
    {
        let r = Mailbox { folders: Vec::new() };
        proof {
            assert(r@ =~= Seq::<FolderModel>::empty());
        }
        r
    }

    /// Append a folder with no messages.
    pub fn add_folder(&mut self, name: &str)
        ensures
            final(self)@ == old(self)@.push(
                FolderModel { name: name@, msgs: Seq::empty() },
            ),
    {
        let f = MailFolder { name: String::from_str(name), msgs: Vec::new() };
        proof {
            assert(f@.msgs =~= Seq::<MsgModel>::empty());
        }
        self.folders.push(f);
        proof {
            assert(final(self)@ =~= old(self)@.push(
                FolderModel { name: name@, msgs: Seq::empty() },
            ));
        }
    }

    /// Append a message to the folder at `fi`.
    pub fn add_message(&mut self, fi: usize, m: Message)
        requires
            fi < old(self)@.len(),
        ensures
            final(self)@.len() == old(self)@.len(),
            final(self)@[fi as int].name == old(self)@[fi as int].name,
            final(self)@[fi as int].msgs == old(self)@[fi as int].msgs.push(m@),
            forall|k: int|
                0 <= k < old(self)@.len() && k != fi ==> final(self)@[k] == old(self)@[k],
    {
        let mut f = self.folders.remove(fi);
        f.msgs.push(m);
        self.folders.insert(fi, f);
        proof {
            assert(final(self)@[fi as int].msgs =~= old(self)@[fi as int].msgs.push(m@));
        }
    }

    /// Find the folder answering to `name`: the first match, or
    /// `None` when no folder matches.
    pub fn find(&self, name: &str) -> (r: Option<usize>)
        ensures
            match r {
                Some(i) => find_folder(self@, name@) == i && i < self@.len() && name_matches(
                    self@[i as int].name,
                    name@,
                ),
                None => find_folder(self@, name@) == -1,
            },
    {
        let ghost p = |f: FolderModel| name_matches(f.name, name@);
        let mut i: usize = 0;
        while i < self.folders.len()
            invariant
                0 <= i <= self@.len(),
                self@.len() == self.folders@.len(),
                forall|j: int| 0 <= j < i ==> !p(self@[j]),
                p == (|f: FolderModel| name_matches(f.name, name@)),
            decreases self@.len() - i,
        {
            if folder_name_matches(&self.folders[i].name, name) {
                proof {
                    lemma_first_idx_unique(self@, p, i as int);
                }
                return Some(i);
            }
            i = i + 1;
        }
        proof {
            lemma_first_idx(self@, p);
            if find_folder(self@, name@) >= 0 {
                assert(p(self@[find_folder(self@, name@)]));
            }
        }
        None
    }
}

// ── derived per-folder quantities ──────────────────────────────────

/// The greatest identifier among the messages, `0` for none.
pub open spec fn max_uid(msgs: Seq<MsgModel>) -> int
    decreases msgs.len(),
{
    if msgs.len() == 0 {
        0
    } else {
        let m = max_uid(msgs.drop_last());
        if msgs.last().uid > m {
            msgs.last().uid as int
        } else {
            m
        }
    }
}

/// The index of the first message not yet seen, or `-1`.
pub open spec fn first_unseen(msgs: Seq<MsgModel>) -> int {
    first_idx(msgs, |m: MsgModel| !m.seen)
}

/// The index of the first message with identifier `uid`, or `-1`.
pub open spec fn find_uid(msgs: Seq<MsgModel>, uid: u32) -> int {
    first_idx(msgs, |m: MsgModel| m.uid == uid)
}

impl MailFolder {
    /// The greatest identifier among this folder's messages.
    pub fn max_uid(&self) -> (r: u32)
        ensures
            r as int == max_uid(self@.msgs),
    {
        let mut r: u32 = 0;
        let mut i: usize = 0;
        while i < self.msgs.len()
            invariant
                0 <= i <= self@.msgs.len(),
                self@.msgs.len() == self.msgs@.len(),
                r as int == max_uid(self@.msgs.take(i as int)),
            decreases self@.msgs.len() - i,
        {
            let u = self.msgs[i].uid;
            proof {
                assert(self@.msgs.take(i + 1 as int).drop_last() =~= self@.msgs.take(i as int));
                assert(self@.msgs.take(i + 1 as int).last() == self@.msgs[i as int]);
            }
            if u > r {
                r = u;
            }
            i = i + 1;
        }
        proof {
            assert(self@.msgs.take(self@.msgs.len() as int) =~= self@.msgs);
        }
        r
    }

    /// The 1-based position of the first unseen message, or `None`
    /// when every message has been seen.
    pub fn first_unseen_pos(&self) -> (r: Option<usize>)
        ensures
            match r {
                Some(p) => first_unseen(self@.msgs) >= 0 && p == first_unseen(self@.msgs) + 1,
                None => first_unseen(self@.msgs) == -1,
            },
    {
        let ghost p = |m: MsgModel| !m.seen;
        let mut i: usize = 0;
        while i < self.msgs.len()
            invariant
                0 <= i <= self@.msgs.len(),
                self@.msgs.len() == self.msgs@.len(),
                forall|j: int| 0 <= j < i ==> !p(self@.msgs[j]),
                p == (|m: MsgModel| !m.seen),
            decreases self@.msgs.len() - i,
        {
            if !self.msgs[i].seen {
                proof {
                    lemma_first_idx_unique(self@.msgs, p, i as int);
                }
                return Some(i + 1);
            }
            i = i + 1;
        }
        proof {
            lemma_first_idx(self@.msgs, p);
            if first_unseen(self@.msgs) >= 0 {
                assert(p(self@.msgs[first_unseen(self@.msgs)]));
            }
        }
        None
    }

    /// The index of the first message with identifier `uid`.
    pub fn find_uid(&self, uid: u32) -> (r: Option<usize>)
        ensures
            match r {
                Some(i) => find_uid(self@.msgs, uid) == i && i < self@.msgs.len()
                    && self@.msgs[i as int].uid == uid,
                None => find_uid(self@.msgs, uid) == -1,
            },
    {
        let ghost p = |m: MsgModel| m.uid == uid;
        let mut i: usize = 0;
        while i < self.msgs.len()
            invariant
                0 <= i <= self@.msgs.len(),
                self@.msgs.len() == self.msgs@.len(),
                forall|j: int| 0 <= j < i ==> !p(self@.msgs[j]),
                p == (|m: MsgModel| m.uid == uid),
            decreases self@.msgs.len() - i,
        {
            if self.msgs[i].uid == uid {
                proof {
                    lemma_first_idx_unique(self@.msgs, p, i as int);
                }
                return Some(i);
            }
            i = i + 1;
        }
        proof {
            lemma_first_idx(self@.msgs, p);
            if find_uid(self@.msgs, uid) >= 0 {
                assert(p(self@.msgs[find_uid(self@.msgs, uid)]));
            }
        }
        None
    }
}

// ── builder ────────────────────────────────────────────────────────

/// Builder for constructing a mailbox step by step: `folder` starts a
/// new folder, `email` appends a message to the most recent one.
pub struct MailboxBuilder {
    mailbox: Mailbox,
}

impl View for MailboxBuilder {
    type V = Seq<FolderModel>;

    closed spec fn view(&self) -> Seq<FolderModel> {
        self.mailbox@
    }
}

impl MailboxBuilder {
    pub fn new() -> (r: MailboxBuilder)
        ensures
            r@ == Seq::<FolderModel>::empty(),
    {
        MailboxBuilder { mailbox: Mailbox::empty() }
    }

    /// Start a new folder; later `email` calls add to it.
    pub fn folder(self, name: &str) -> (r: MailboxBuilder)
        ensures
            r@ == self@.push(FolderModel { name: name@, msgs: Seq::empty() }),
    {
        let mut b = self;
        b.mailbox.add_folder(name);
        b
    }

    /// Add a message, unmarked for deletion, to the most recently
    /// added folder.
    pub fn email(self, uid: u32, seen: bool, raw: Vec<u8>) -> (r: MailboxBuilder)
        requires
            self@.len() > 0,
        ensures
            r@.len() == self@.len(),
            r@.last().name == self@.last().name,
            r@.last().msgs == self@.last().msgs.push(
                MsgModel { uid, seen, deleted: false, raw: raw@ },
            ),
            forall|k: int| 0 <= k < self@.len() - 1 ==> r@[k] == self@[k],
    {
        let mut b = self;
        let fi = b.mailbox.folders.len() - 1;
        let m = Message::new(uid, seen, raw);
        b.mailbox.add_message(fi, m);
        b
    }

    /// Finish and hand back the mailbox.
    pub fn build(self) -> (r: Mailbox)
        ensures
            r@ == self@,
    {
        self.mailbox
    }
}

} // verus!

verus! {

// ── flag mutation (store) ──────────────────────────────────────────

/// How a store operation combines the requested flags with a
/// message's current flags.
#[derive(Debug, Clone, Copy, PartialEq, Eq, Structural)]
pub enum StoreOp {
    /// Set every requested flag, leave the others.
    Add,
    /// Clear every requested flag, leave the others.
    Remove,
    /// Make the requested flags the message's exact flag set.
    Replace,
}

/// One message's flags after a store touches it.  `want_seen` and
/// `want_deleted` say which flags the request named.
pub open spec fn apply_store(m: MsgModel, op: StoreOp, want_seen: bool, want_deleted: bool) -> MsgModel {
    match op {
        StoreOp::Add => MsgModel {
            seen: m.seen || want_seen,
            deleted: m.deleted || want_deleted,
            ..m
        },
        StoreOp::Remove => MsgModel {
            seen: m.seen && !want_seen,
            deleted: m.deleted && !want_deleted,
            ..m
        },
        StoreOp::Replace => MsgModel { seen: want_seen, deleted: want_deleted, ..m },
    }
}

/// Mathematical model of one store echo line.
pub ghost struct EchoModel {
    pub pos: int,
    pub uid: u32,
    pub seen: bool,
    pub deleted: bool,
}

/// One untagged line a non-silent store emits: the touched message's
/// current 1-based position, its identifier, and its resulting flags.
pub struct StoreEcho {
    pub pos: usize,
    pub uid: u32,
    pub seen: bool,
    pub deleted: bool,
}

impl View for StoreEcho {
    type V = EchoModel;

    open spec fn view(&self) -> EchoModel {
        EchoModel { pos: self.pos as int, uid: self.uid, seen: self.seen, deleted: self.deleted }
    }
}

/// The messages after a store walks the requested identifiers in
/// order, together with the echoes it reports.  Each identifier
/// touches the first message bearing it; identifiers not present are
/// skipped silently.
pub open spec fn store_trace(
    msgs: Seq<MsgModel>,
    uids: Seq<u32>,
    op: StoreOp,
    want_seen: bool,
    want_deleted: bool,
) -> (Seq<MsgModel>, Seq<EchoModel>)
    decreases uids.len(),
{
    if uids.len() == 0 {
        (msgs, Seq::empty())
    } else {
        let i = find_uid(msgs, uids[0]);
        if i < 0 {
            store_trace(msgs, uids.drop_first(), op, want_seen, want_deleted)
        } else {
            let m2 = apply_store(msgs[i], op, want_seen, want_deleted);
            let rest = store_trace(msgs.update(i, m2), uids.drop_first(), op, want_seen, want_deleted);
            (
                rest.0,
                seq![EchoModel { pos: i + 1, uid: uids[0], seen: m2.seen, deleted: m2.deleted }]
                    + rest.1,
            )
        }
    }
}

/// A store never adds, removes or reorders messages, and never
/// touches an identifier or a payload.
pub proof fn lemma_store_trace_frame(
    msgs: Seq<MsgModel>,
    uids: Seq<u32>,
    op: StoreOp,
    want_seen: bool,
    want_deleted: bool,
)
    ensures
        store_trace(msgs, uids, op, want_seen, want_deleted).0.len() == msgs.len(),
        forall|k: int|
            0 <= k < msgs.len() ==> {
                &&& (#[trigger] store_trace(msgs, uids, op, want_seen, want_deleted).0[k]).uid
                    == msgs[k].uid
                &&& store_trace(msgs, uids, op, want_seen, want_deleted).0[k].raw == msgs[k].raw
            },
    decreases uids.len(),
{
    if uids.len() > 0 {
        let i = find_uid(msgs, uids[0]);
        if i < 0 {
            lemma_store_trace_frame(msgs, uids.drop_first(), op, want_seen, want_deleted);
        } else {
            crate::seqs::lemma_first_idx(msgs, |m: MsgModel| m.uid == uids[0]);
            let m2 = apply_store(msgs[i], op, want_seen, want_deleted);
            lemma_store_trace_frame(msgs.update(i, m2), uids.drop_first(), op, want_seen, want_deleted);
        }
    }
}

impl MailFolder {
    /// Mutate flags on every listed message, in list order, echoing
    /// each touched message's position and resulting flags.
    pub fn store(
        &mut self,
        uids: &Vec<u32>,
        op: StoreOp,
        want_seen: bool,
        want_deleted: bool,
    ) -> (echoes: Vec<StoreEcho>)
        ensures
            final(self)@.name == old(self)@.name,
            final(self)@.msgs == store_trace(old(self)@.msgs, uids@, op, want_seen, want_deleted).0,
            echoes@.map_values(|e: StoreEcho| e@) == store_trace(
                old(self)@.msgs,
                uids@,
                op,
                want_seen,
                want_deleted,
            ).1,
    {
        let ghost orig = self@.msgs;
        let ghost full = store_trace(orig, uids@, op, want_seen, want_deleted);
        let mut echoes: Vec<StoreEcho> = Vec::new();
        proof {
            assert(uids@.skip(0) =~= uids@);
            assert(echoes@.map_values(|e: StoreEcho| e@) =~= Seq::<EchoModel>::empty());
            assert(Seq::<EchoModel>::empty() + full.1 =~= full.1);
        }
        let mut k: usize = 0;
        while k < uids.len()
            invariant
                0 <= k <= uids@.len(),
                self@.name == old(self)@.name,
                full == store_trace(orig, uids@, op, want_seen, want_deleted),
                full.0 == store_trace(self@.msgs, uids@.skip(k as int), op, want_seen, want_deleted).0,
                full.1 == echoes@.map_values(|e: StoreEcho| e@) + store_trace(
                    self@.msgs,
                    uids@.skip(k as int),
                    op,
                    want_seen,
                    want_deleted,
                ).1,
            decreases uids@.len() - k,
        {
            let ghost cur = self@.msgs;
            let ghost rest = uids@.skip(k as int);
            proof {
                assert(rest[0] == uids@[k as int]);
                assert(rest.drop_first() =~= uids@.skip(k + 1 as int));
            }
            let u = uids[k];
            proof {
                assert(self@.msgs.len() == self.msgs@.len());
            }
            match self.find_uid(u) {
                None => {
                }
                Some(i) => {
                    let n = self.msgs.len();
                    proof {
                        assert(i < n);
                    }
                    let mut m = self.msgs.remove(i);
                    match op {
                        StoreOp::Add => {
                            if want_seen {
                                m.seen = true;
                            }
                            if want_deleted {
                                m.deleted = true;
                            }
                        }
                        StoreOp::Remove => {
                            if want_seen {
                                m.seen = false;
                            }
                            if want_deleted {
                                m.deleted = false;
                            }
                        }
                        StoreOp::Replace => {
                            m.seen = want_seen;
                            m.deleted = want_deleted;
                        }
                    }
                    let echo = StoreEcho { pos: i + 1, uid: u, seen: m.seen, deleted: m.deleted };
                    proof {
                        assert(m@ == apply_store(cur[i as int], op, want_seen, want_deleted));
                    }
                    self.msgs.insert(i, m);
                    proof {
                        assert(self@.msgs =~= cur.update(
                            i as int,
                            apply_store(cur[i as int], op, want_seen, want_deleted),
                        ));
                    }
                    echoes.push(echo);
                    proof {
                        let f = |e: StoreEcho| e@;
                        assert(echoes@.map_values(f) =~= echoes@.drop_last().map_values(f).push(
                            echo@,
                        ));
                        assert(echoes@.drop_last().map_values(f) + (seq![echo@] + store_trace(
                            self@.msgs,
                            uids@.skip(k + 1 as int),
                            op,
                            want_seen,
                            want_deleted,
                        ).1) =~= echoes@.map_values(f) + store_trace(
                            self@.msgs,
                            uids@.skip(k + 1 as int),
                            op,
                            want_seen,
                            want_deleted,
                        ).1);
                    }
                }
            }
            k = k + 1;
        }
        proof {
            assert(uids@.skip(uids@.len() as int) =~= Seq::<u32>::empty());
            assert(full.1 =~= echoes@.map_values(|e: StoreEcho| e@));
        }
        echoes
    }
}

} // verus!

verus! {

// ── deletion compaction (expunge) ──────────────────────────────────

/// The messages that survive an expunge: exactly those not marked
/// deleted, in their original order.
pub open spec fn keep_undeleted(msgs: Seq<MsgModel>) -> Seq<MsgModel>
    decreases msgs.len(),
{
    if msgs.len() == 0 {
        Seq::empty()
    } else {
        let pre = keep_undeleted(msgs.drop_last());
        if msgs.last().deleted {
            pre
        } else {
            pre.push(msgs.last())
        }
    }
}

/// How many of the messages are marked deleted.
pub open spec fn count_deleted(msgs: Seq<MsgModel>) -> int
    decreases msgs.len(),
{
    if msgs.len() == 0 {
        0int
    } else {
        count_deleted(msgs.drop_last()) + if msgs.last().deleted {
            1int
        } else {
            0int
        }
    }
}

/// The removal notices an expunge reports, front to back: a message
/// at original index `i` is reported at the sequence number it holds
/// at the moment of its removal, `i + 1` minus the number of earlier
/// messages already removed in the same operation.
pub open spec fn expunge_notices(msgs: Seq<MsgModel>) -> Seq<int>
    decreases msgs.len(),
{
    if msgs.len() == 0 {
        Seq::empty()
    } else {
        let pre = expunge_notices(msgs.drop_last());
        if msgs.last().deleted {
            pre.push(msgs.len() - count_deleted(msgs.drop_last()))
        } else {
            pre
        }
    }
}

/// Deleted messages never outnumber the messages.
pub proof fn lemma_count_deleted_le(msgs: Seq<MsgModel>)
    ensures
        0 <= count_deleted(msgs) <= msgs.len(),
    decreases msgs.len(),
{
    if msgs.len() > 0 {
        lemma_count_deleted_le(msgs.drop_last());
    }
}

impl MailFolder {
    /// Remove every message marked deleted, reporting each removed
    /// message's live sequence number at the time of its removal.
    ///
    /// The surviving messages keep their identifiers and their
    /// relative order; their sequence numbers compact with no gaps.
    pub fn expunge(&mut self) -> (notices: Vec<usize>)
        ensures
            final(self)@.name == old(self)@.name,
            final(self)@.msgs == keep_undeleted(old(self)@.msgs),
            notices@.map_values(|x: usize| x as int) == expunge_notices(old(self)@.msgs),
    {
        let ghost orig = self@.msgs;
        let mut kept: Vec<Message> = Vec::new();
        let mut notices: Vec<usize> = Vec::new();
        let mut removed: usize = 0;
        let mut i: usize = 0;
        let n = self.msgs.len();
        proof {
            assert(orig.len() == self.msgs@.len());
            assert(kept@.map_values(|m: Message| m@) =~= keep_undeleted(orig.take(0)));
            assert(notices@.map_values(|x: usize| x as int) =~= expunge_notices(orig.take(0)));
            assert(orig.take(0) =~= Seq::<MsgModel>::empty());
        }
        while i < n
            invariant
                0 <= i <= n,
                n == self.msgs@.len(),
                orig == self@.msgs,
                orig.len() == n,
                kept@.map_values(|m: Message| m@) == keep_undeleted(orig.take(i as int)),
                notices@.map_values(|x: usize| x as int) == expunge_notices(orig.take(i as int)),
                removed as int == count_deleted(orig.take(i as int)),
                removed <= i,
            decreases n - i,
        {
            let ghost pre = orig.take(i as int);
            proof {
                assert(orig.take(i + 1 as int).drop_last() =~= pre);
                assert(orig.take(i + 1 as int).last() == orig[i as int]);
                lemma_count_deleted_le(pre);
            }
            if self.msgs[i].deleted {
                let pos = i + 1 - removed;
                notices.push(pos);
                removed = removed + 1;
                proof {
                    assert(notices@.map_values(|x: usize| x as int) =~= notices@.drop_last()
                        .map_values(|x: usize| x as int).push(pos as int));
                }
            } else {
                let copy = self.msgs[i].duplicate();
                kept.push(copy);
                proof {
                    assert(kept@.map_values(|m: Message| m@) =~= kept@.drop_last().map_values(
                        |m: Message| m@,
                    ).push(orig[i as int]));
                }
            }
            i = i + 1;
        }
        proof {
            assert(orig.take(n as int) =~= orig);
        }
        self.msgs = kept;
        notices
    }
}

// ── cross-folder copy ──────────────────────────────────────────────

/// The messages a copy reads from the source: those whose identifier
/// is listed, in source order, with their flags and bytes.  Their
/// identifiers are not carried over: each copy receives a fresh one
/// on arrival in the destination.
pub open spec fn copied_msgs(msgs: Seq<MsgModel>, uids: Seq<u32>) -> Seq<MsgModel>
    decreases msgs.len(),
{
    if msgs.len() == 0 {
        Seq::empty()
    } else {
        let pre = copied_msgs(msgs.drop_last(), uids);
        if uids.contains(msgs.last().uid) {
            pre.push(msgs.last())
        } else {
            pre
        }
    }
}

/// The copies as the destination receives them: flags and bytes
/// unchanged, identifiers assigned fresh and ascending, starting
/// just above the destination's greatest — the next-identifier
/// semantics selection already exposes.
pub open spec fn renumbered(msgs: Seq<MsgModel>, base: int) -> Seq<MsgModel> {
    Seq::new(msgs.len(), |i: int| MsgModel { uid: (base + 1 + i) as u32, ..msgs[i] })
}

/// No message's identifier exceeds the folder's greatest.
pub proof fn lemma_max_uid_bound(msgs: Seq<MsgModel>)
    ensures
        max_uid(msgs) >= 0,
        forall|i: int| 0 <= i < msgs.len() ==> msgs[i].uid <= max_uid(msgs),
    decreases msgs.len(),
{
    if msgs.len() > 0 {
        lemma_max_uid_bound(msgs.drop_last());
        assert forall|i: int| 0 <= i < msgs.len() implies msgs[i].uid <= max_uid(msgs) by {
            if i < msgs.len() - 1 {
                assert(msgs.drop_last()[i] == msgs[i]);
            }
        }
    }
}

impl Mailbox {
    /// Duplicate the listed messages of the folder at `src` into the
    /// folder at `dst`.  The source folder — and every folder other
    /// than the destination — is left untouched; the destination
    /// gains exactly the copied messages, appended in source order,
    /// each bearing a fresh identifier unique within the destination.
    ///
    /// In the one unreachable-in-practice corner where the fresh
    /// identifiers would not fit the identifier type, nothing changes
    /// and the copy reports failure.
    pub fn copy_messages(&mut self, src: usize, dst: usize, uids: &Vec<u32>) -> (ok: bool)
        requires
            src < old(self)@.len(),
            dst < old(self)@.len(),
        ensures
            ({
                let copied = copied_msgs(old(self)@[src as int].msgs, uids@);
                let base = max_uid(old(self)@[dst as int].msgs);
                if base + copied.len() <= u32::MAX {
                    &&& ok
                    &&& final(self)@.len() == old(self)@.len()
                    &&& (forall|k: int|
                        0 <= k < old(self)@.len() && k != dst ==> final(self)@[k] == old(
                            self,
                        )@[k])
                    &&& final(self)@[dst as int].name == old(self)@[dst as int].name
                    &&& final(self)@[dst as int].msgs == old(self)@[dst as int].msgs
                        + renumbered(copied, base)
                } else {
                    &&& !ok
                    &&& final(self)@ == old(self)@
                }
            }),
    {
        let ghost srcmsgs = self@[src as int].msgs;
        let mut copies: Vec<Message> = Vec::new();
        let mut i: usize = 0;
        let n = self.folders[src].msgs.len();
        proof {
            assert(srcmsgs.len() == n);
            assert(copies@.map_values(|m: Message| m@) =~= copied_msgs(srcmsgs.take(0), uids@));
            assert(srcmsgs.take(0) =~= Seq::<MsgModel>::empty());
        }
        while i < n
            invariant
                0 <= i <= n,
                src < self@.len(),
                n == self.folders@[src as int].msgs@.len(),
                srcmsgs == self@[src as int].msgs,
                self == old(self),
                copies@.map_values(|m: Message| m@) == copied_msgs(srcmsgs.take(i as int), uids@),
            decreases n - i,
        {
            proof {
                assert(srcmsgs.take(i + 1 as int).drop_last() =~= srcmsgs.take(i as int));
                assert(srcmsgs.take(i + 1 as int).last() == srcmsgs[i as int]);
            }
            let m = &self.folders[src].msgs[i];
            if crate::text::contains_u32(uids, m.uid) {
                let copy = m.duplicate();
                copies.push(copy);
                proof {
                    assert(copies@.map_values(|m2: Message| m2@) =~= copies@.drop_last()
                        .map_values(|m2: Message| m2@).push(srcmsgs[i as int]));
                }
            }
            i = i + 1;
        }
        proof {
            assert(srcmsgs.take(n as int) =~= srcmsgs);
        }
        let ghost copied = copied_msgs(old(self)@[src as int].msgs, uids@);
        let mut f = self.folders.remove(dst);
        let base = f.max_uid();
        proof {
            lemma_max_uid_bound(old(self)@[dst as int].msgs);
        }
        if (copies.len() as u64) > (u32::MAX as u64) - (base as u64) {
            self.folders.insert(dst, f);
            proof {
                assert(final(self)@ =~= old(self)@);
            }
            return false;
        }
        let ghost dest0 = f@.msgs;
        let count = copies.len();
        let mut k: usize = 0;
        proof {
            assert(f@.msgs =~= dest0 + renumbered(copied, base as int).take(0));
        }
        while k < count
            invariant
                0 <= k <= count,
                count == copies@.len(),
                copied == copies@.map_values(|m2: Message| m2@),
                base + count <= u32::MAX,
                f@.name == old(self)@[dst as int].name,
                f@.msgs == dest0 + renumbered(copied, base as int).take(k as int),
            decreases count - k,
        {
            let fresh: u32 = ((base as u64) + 1 + (k as u64)) as u32;
            let m = &copies[k];
            let msg = Message { uid: fresh, seen: m.seen, deleted: m.deleted, raw: crate::text::copy_bytes(&m.raw) };
            proof {
                assert(msg@ == (MsgModel { uid: fresh, ..copied[k as int] }));
                assert(fresh as int == base + 1 + k);
                assert(renumbered(copied, base as int)[k as int] == msg@);
            }
            f.msgs.push(msg);
            proof {
                assert(renumbered(copied, base as int).take(k + 1 as int) =~= renumbered(
                    copied,
                    base as int,
                ).take(k as int).push(renumbered(copied, base as int)[k as int]));
                assert(f@.msgs =~= (dest0 + renumbered(copied, base as int).take(k as int)).push(
                    renumbered(copied, base as int)[k as int],
                ));
                assert((dest0 + renumbered(copied, base as int).take(k as int)).push(renumbered(
                    copied,
                    base as int,
                )[k as int]) =~= dest0 + renumbered(copied, base as int).take(k + 1 as int));
            }
            k = k + 1;
        }
        proof {
            assert(renumbered(copied, base as int).take(count as int) =~= renumbered(
                copied,
                base as int,
            ));
        }
        self.folders.insert(dst, f);
        proof {
            assert(final(self)@[dst as int].msgs =~= old(self)@[dst as int].msgs + renumbered(
                copied,
                base as int,
            ));
            assert forall|k2: int|
                0 <= k2 < old(self)@.len() && k2 != dst implies final(self)@[k2] == old(
                self,
            )@[k2] by {
                assert(final(self)@[k2] == old(self)@[k2]);
            }
        }
        true
    }
}

} // verus!
