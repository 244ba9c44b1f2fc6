//! The search predicate evaluator: a boolean predicate tree matched
//! against each message of the selected folder.
//!
//! Date bounds follow the protocol's convention: on-or-after is
//! inclusive, before is exclusive, and a message without a parseable
//! date matches neither.  An unrecognized leaf matches everything —
//! a deliberate, permissive fallback inherited from the design.

use vstd::prelude::*;
use crate::date::{Date, date_le, date_lt, date_of, message_date};
use crate::mailbox::{MailFolder, Message, MsgModel};

verus! {

/// One node of a search predicate tree.
#[derive(Debug)]
pub enum Pred {
    /// Matches every message.
    All,
    /// Matches messages already read.
    Seen,
    /// Matches messages not yet read.
    Unseen,
    /// Matches messages dated on or after the bound (inclusive).
    Since(Date),
    /// Matches messages dated strictly before the bound (exclusive).
    Before(Date),
    /// Both subtrees must match.
    And(Box<Pred>, Box<Pred>),
    /// Either subtree may match.
    Or(Box<Pred>, Box<Pred>),
    /// The subtree must not match.
    Not(Box<Pred>),
    /// An unrecognized criterion: permissively matches everything.
    Other,
}

/// Whether a message satisfies a predicate.
///
/// A message whose raw bytes yield no parseable date satisfies no
/// date-bounded leaf, not even an on-or-after bound at the earliest
/// conceivable date.
pub open spec fn pred_matches(m: MsgModel, p: Pred) -> bool
    decreases p,
{
    match p {
        Pred::All => true,
        Pred::Seen => m.seen,
        Pred::Unseen => !m.seen,
        Pred::Since(d) => match date_of(m.raw) {
            Some(md) => date_le(d, md),
            None => false,
        },
        Pred::Before(d) => match date_of(m.raw) {
            Some(md) => date_lt(md, d),
            None => false,
        },
        Pred::And(a, b) => pred_matches(m, *a) && pred_matches(m, *b),
        Pred::Or(a, b) => pred_matches(m, *a) || pred_matches(m, *b),
        Pred::Not(a) => !pred_matches(m, *a),
        Pred::Other => true,
    }
}

/// Whether a message satisfies every criterion of a list.
pub open spec fn all_match(m: MsgModel, crit: Seq<Pred>) -> bool {
    forall|i: int| 0 <= i < crit.len() ==> pred_matches(m, #[trigger] crit[i])
}

/// The identifiers of the messages satisfying every criterion, in
/// folder order.
pub open spec fn matching_uids(msgs: Seq<MsgModel>, crit: Seq<Pred>) -> Seq<u32>
    decreases msgs.len(),
{
    if msgs.len() == 0 {
        Seq::empty()
    } else {
        let pre = matching_uids(msgs.drop_last(), crit);
        if all_match(msgs.last(), crit) {
            pre.push(msgs.last().uid)
        } else {
            pre
        }
    }
}

/// Evaluate one predicate against one message.
pub fn matches(m: &Message, p: &Pred) -> (r: bool)
    ensures
        r == pred_matches(m@, *p),
    decreases *p,
{
    match p {
        Pred::All => true,
        Pred::Seen => m.seen,
        Pred::Unseen => !m.seen,
        Pred::Since(d) => match message_date(&m.raw) {
            Some(md) => d.le(&md),
            None => false,
        },
        Pred::Before(d) => match message_date(&m.raw) {
            Some(md) => md.lt(d),
            None => false,
        },
        Pred::And(a, b) => matches(m, &**a) && matches(m, &**b),
        Pred::Or(a, b) => matches(m, &**a) || matches(m, &**b),
        Pred::Not(a) => !matches(m, &**a),
        Pred::Other => true,
    }
}

/// Evaluate a criterion list against one message: every criterion
/// must match.
pub fn matches_all(m: &Message, crit: &Vec<Pred>) -> (r: bool)
    ensures
        r == all_match(m@, crit@),
{
    let mut i: usize = 0;
    while i < crit.len()
        invariant
            0 <= i <= crit@.len(),
            forall|j: int| 0 <= j < i ==> pred_matches(m@, #[trigger] crit@[j]),
        decreases crit@.len() - i,
    {
        if !matches(m, &crit[i]) {
            return false;
        }
        i = i + 1;
    }
    true
}

/// Search a folder: the identifiers of the messages matching every
/// criterion, in folder order.
pub fn search_folder(f: &MailFolder, crit: &Vec<Pred>) -> (uids: Vec<u32>)
    ensures
        uids@ == matching_uids(f@.msgs, crit@),
{
    let mut uids: Vec<u32> = Vec::new();
    let mut i: usize = 0;
    proof {
        assert(f@.msgs.take(0) =~= Seq::<MsgModel>::empty());
        assert(uids@ =~= matching_uids(f@.msgs.take(0), crit@));
    }
    let n = f.msgs.len();
    while i < n
        invariant
            0 <= i <= n,
            n == f.msgs@.len(),
            uids@ == matching_uids(f@.msgs.take(i as int), crit@),
        decreases n - i,
    {
        proof {
            assert(f@.msgs.take(i + 1 as int).drop_last() =~= f@.msgs.take(i as int));
            assert(f@.msgs.take(i + 1 as int).last() == f@.msgs[i as int]);
        }
        if matches_all(&f.msgs[i], crit) {
            uids.push(f.msgs[i].uid);
        }
        i = i + 1;
    }
    proof {
        assert(f@.msgs.take(n as int) =~= f@.msgs);
    }
    uids
}

} // verus!
