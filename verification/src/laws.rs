//! The library's laws: properties that hold across operations,
//! stated over the same specifications the operations' own contracts
//! use, and proved once and for all.

use vstd::prelude::*;
use crate::date::{Date, date_of};
use crate::mailbox::{
    MsgModel, StoreOp, copied_msgs, count_deleted, find_uid, keep_undeleted, lemma_max_uid_bound,
    max_uid, renumbered, store_trace, uids_unique,
};
use crate::search::{Pred, pred_matches};

verus! {

/// Whether some message of `msgs` bears the identifier `u`.
pub open spec fn has_uid(msgs: Seq<MsgModel>, u: u32) -> bool {
    exists|i: int| 0 <= i < msgs.len() && msgs[i].uid == u
}

// ── date bounds ────────────────────────────────────────────────────

/// The on-or-after bound is inclusive and the before bound is
/// exclusive: a message dated exactly at the bound matches the
/// former and not the latter.
pub proof fn lemma_since_inclusive_before_exclusive(m: MsgModel, d: Date)
    requires
        date_of(m.raw) == Some(d),
    ensures
        pred_matches(m, Pred::Since(d)),
        !pred_matches(m, Pred::Before(d)),
{
}

/// A message lacking a parseable date matches no date-bounded
/// criterion — not even an on-or-after bound at the earliest
/// conceivable date.
pub proof fn lemma_dateless_never_matches_bounds(m: MsgModel, d: Date)
    requires
        date_of(m.raw) is None,
    ensures
        !pred_matches(m, Pred::Since(d)),
        !pred_matches(m, Pred::Before(d)),
{
}

// ── deletion compaction ────────────────────────────────────────────

/// What survives an expunge is exactly the messages not marked
/// deleted, unchanged and in their original order: the compaction is
/// the filter of the undeleted.
pub proof fn lemma_expunge_removes_exactly_deleted(msgs: Seq<MsgModel>)
    ensures
        keep_undeleted(msgs) == msgs.filter(|m: MsgModel| !m.deleted),
        keep_undeleted(msgs).len() + count_deleted(msgs) == msgs.len(),
    decreases msgs.len(),
{
    reveal(Seq::filter);
    if msgs.len() > 0 {
        lemma_expunge_removes_exactly_deleted(msgs.drop_last());
    }
}

/// Every message of the keep holds an identifier some input message
/// held.
proof fn lemma_keep_has_uid(msgs: Seq<MsgModel>, u: u32)
    requires
        has_uid(keep_undeleted(msgs), u),
    ensures
        has_uid(msgs, u),
    decreases msgs.len(),
{
    if msgs.len() > 0 {
        let kept = keep_undeleted(msgs);
        let pre = keep_undeleted(msgs.drop_last());
        if msgs.last().deleted {
            lemma_keep_has_uid(msgs.drop_last(), u);
            let i = choose|i: int| 0 <= i < msgs.drop_last().len() && msgs.drop_last()[i].uid == u;
            assert(msgs[i].uid == u);
        } else {
            let j = choose|j: int| 0 <= j < kept.len() && kept[j].uid == u;
            if j == kept.len() - 1 {
                assert(msgs[msgs.len() - 1].uid == u);
            } else {
                assert(pre[j].uid == u);
                lemma_keep_has_uid(msgs.drop_last(), u);
                let i = choose|i: int|
                    0 <= i < msgs.drop_last().len() && msgs.drop_last()[i].uid == u;
                assert(msgs[i].uid == u);
            }
        }
    }
}

/// An expunge never breaks identifier uniqueness.
pub proof fn lemma_expunge_keeps_uids_unique(msgs: Seq<MsgModel>)
    requires
        uids_unique(msgs),
    ensures
        uids_unique(keep_undeleted(msgs)),
    decreases msgs.len(),
{
    if msgs.len() > 0 {
        let s2 = msgs.drop_last();
        assert(uids_unique(s2)) by {
            assert forall|i: int, j: int| 0 <= i < j < s2.len() implies s2[i].uid != s2[j].uid by {
                assert(s2[i] == msgs[i] && s2[j] == msgs[j]);
            }
        }
        lemma_expunge_keeps_uids_unique(s2);
        if !msgs.last().deleted {
            let kept = keep_undeleted(msgs);
            let pre = keep_undeleted(s2);
            assert forall|i: int, j: int|
                0 <= i < j < kept.len() implies kept[i].uid != kept[j].uid by {
                if j == kept.len() - 1 {
                    if kept[i].uid == msgs.last().uid {
                        assert(pre[i].uid == msgs.last().uid);
                        assert(has_uid(pre, msgs.last().uid));
                        lemma_keep_has_uid(s2, msgs.last().uid);
                        let w = choose|w: int| 0 <= w < s2.len() && s2[w].uid == msgs.last().uid;
                        assert(msgs[w].uid == msgs[msgs.len() - 1].uid);
                    }
                } else {
                    assert(kept[i] == pre[i] && kept[j] == pre[j]);
                }
            }
        }
    }
}

// ── flag mutation ──────────────────────────────────────────────────

/// A store never breaks identifier uniqueness: it changes only
/// flags, never an identifier.
pub proof fn lemma_store_keeps_uids_unique(
    msgs: Seq<MsgModel>,
    uids: Seq<u32>,
    op: StoreOp,
    want_seen: bool,
    want_deleted: bool,
)
    requires
        uids_unique(msgs),
    ensures
        uids_unique(store_trace(msgs, uids, op, want_seen, want_deleted).0),
{
    crate::mailbox::lemma_store_trace_frame(msgs, uids, op, want_seen, want_deleted);
}

/// With unique identifiers, a store's effect on each message is
/// pointwise: a message's flags change exactly when its identifier
/// is listed, and each listed identifier touches it as often as it
/// is listed.
pub proof fn lemma_store_touches_only_listed(
    msgs: Seq<MsgModel>,
    uids: Seq<u32>,
    op: StoreOp,
    want_seen: bool,
    want_deleted: bool,
)
    ensures
        forall|k: int|
            0 <= k < msgs.len() && !uids.contains(msgs[k].uid) ==> (#[trigger] store_trace(
                msgs,
                uids,
                op,
                want_seen,
                want_deleted,
            ).0[k]) == msgs[k],
    decreases uids.len(),
{
    crate::mailbox::lemma_store_trace_frame(msgs, uids, op, want_seen, want_deleted);
    if uids.len() > 0 {
        let i = find_uid(msgs, uids[0]);
        if i < 0 {
            lemma_store_touches_only_listed(msgs, uids.drop_first(), op, want_seen, want_deleted);
            assert forall|k: int|
                0 <= k < msgs.len() && !uids.contains(msgs[k].uid) implies (#[trigger] store_trace(
                msgs,
                uids,
                op,
                want_seen,
                want_deleted,
            ).0[k]) == msgs[k] by {
                assert(!uids.drop_first().contains(msgs[k].uid)) by {
                    if uids.drop_first().contains(msgs[k].uid) {
                        let w = choose|w: int|
                            0 <= w < uids.drop_first().len() && uids.drop_first()[w] == msgs[k].uid;
                        assert(uids[w + 1] == msgs[k].uid);
                    }
                }
                assert(store_trace(msgs, uids.drop_first(), op, want_seen, want_deleted).0[k]
                    == msgs[k]);
                assert(store_trace(msgs, uids, op, want_seen, want_deleted).0 == store_trace(
                    msgs,
                    uids.drop_first(),
                    op,
                    want_seen,
                    want_deleted,
                ).0);
            }
        } else {
            crate::seqs::lemma_first_idx(msgs, |m: MsgModel| m.uid == uids[0]);
            let m2 = crate::mailbox::apply_store(msgs[i], op, want_seen, want_deleted);
            let msgs2 = msgs.update(i, m2);
            lemma_store_touches_only_listed(msgs2, uids.drop_first(), op, want_seen, want_deleted);
            assert forall|k: int|
                0 <= k < msgs.len() && !uids.contains(msgs[k].uid) implies (#[trigger] store_trace(
                msgs,
                uids,
                op,
                want_seen,
                want_deleted,
            ).0[k]) == msgs[k] by {
                assert(uids.contains(uids[0]));
                assert(msgs[k].uid != uids[0]);
                assert(k != i);
                assert(msgs2[k] == msgs[k]);
                assert(!uids.drop_first().contains(msgs2[k].uid)) by {
                    if uids.drop_first().contains(msgs2[k].uid) {
                        let w = choose|w: int|
                            0 <= w < uids.drop_first().len() && uids.drop_first()[w]
                                == msgs2[k].uid;
                        assert(uids[w + 1] == msgs[k].uid);
                    }
                }
                assert(store_trace(msgs2, uids.drop_first(), op, want_seen, want_deleted).0[k]
                    == msgs2[k]);
                assert(store_trace(msgs, uids, op, want_seen, want_deleted).0 == store_trace(
                    msgs2,
                    uids.drop_first(),
                    op,
                    want_seen,
                    want_deleted,
                ).0);
            }
        }
    }
}

// ── cross-folder copy ──────────────────────────────────────────────

/// A copy never breaks identifier uniqueness: every copy arrives in
/// the destination under a fresh identifier, strictly above the
/// destination's greatest, so the destination's identifiers stay
/// pairwise distinct.  The only premise is the machine bound that
/// the fresh identifiers fit the identifier type — the same bound
/// under which the operation performs the copy at all.
pub proof fn lemma_copy_keeps_uids_unique(
    dst: Seq<MsgModel>,
    src: Seq<MsgModel>,
    uids: Seq<u32>,
)
    requires
        uids_unique(dst),
        max_uid(dst) + copied_msgs(src, uids).len() <= u32::MAX,
    ensures
        uids_unique(dst + renumbered(copied_msgs(src, uids), max_uid(dst))),
{
    lemma_max_uid_bound(dst);
    let base = max_uid(dst);
    let c = renumbered(copied_msgs(src, uids), base);
    let all = dst + c;
    assert forall|i: int, j: int| 0 <= i < j < all.len() implies all[i].uid != all[j].uid by {
        if j < dst.len() {
        } else if i >= dst.len() {
            assert(all[i] == c[i - dst.len()] && all[j] == c[j - dst.len()]);
            assert(c[i - dst.len()].uid == base + 1 + (i - dst.len()));
            assert(c[j - dst.len()].uid == base + 1 + (j - dst.len()));
        } else {
            assert(all[i] == dst[i] && all[j] == c[j - dst.len()]);
            assert(dst[i].uid <= base);
            assert(c[j - dst.len()].uid == base + 1 + (j - dst.len()));
        }
    }
}

} // verus!
