//! The typed initiator: a client whose read-only and read-write
//! capability sets are separated at the type level.
//!
//! A `ProtonClient<ReadOnly>` offers only the read operations; the
//! write operations exist solely on `ProtonClient<ReadWrite>`, so a
//! holder of the read-only type has no way to construct a write
//! request.  The computations behind each operation — ordering and
//! selecting identifiers, composing search queries, the
//! copy-mark-expunge move plan — live here, verified; the unverified
//! connection code performs them over the wire.

use vstd::prelude::*;
use vstd::multiset::Multiset;
use core::marker::PhantomData;
use crate::config::ImapConfig;
use crate::date::Date;
use crate::flag::Flag;
use crate::folder::Folder;
use crate::text::{dec_rep, fmt_u32};

verus! {

broadcast use vstd::seq_lib::group_to_multiset_ensures;

// ── access-mode markers ────────────────────────────────────────────

/// Marker: read-only access.  Write methods are not available.
#[derive(Debug, Clone, Copy)]
pub struct ReadOnly;

/// Marker: read-write access.  All methods are available.
#[derive(Debug, Clone, Copy)]
pub struct ReadWrite;

// ── the client ─────────────────────────────────────────────────────

/// A mail client parameterised by its access mode: `ReadOnly` can
/// list, fetch and search; `ReadWrite` can also move, flag, archive
/// and unmark.
pub struct ProtonClient<M = ReadOnly> {
    config: ImapConfig,
    _mode: PhantomData<M>,
}

impl<M> View for ProtonClient<M> {
    type V = ImapConfig;

    closed spec fn view(&self) -> ImapConfig {
        self.config
    }
}

impl<M> ProtonClient<M> {
    /// A client holding the given connection configuration.
    pub fn new(config: ImapConfig) -> (r: Self)
        ensures
            r@ == config,
    {
        ProtonClient { config, _mode: PhantomData }
    }

    /// The connection configuration the client was built with.
    pub fn config(&self) -> (r: &ImapConfig)
        ensures
            *r == self@,
    {
        &self.config
    }
}

// ── ordering and selecting identifiers ─────────────────────────────

/// Ascending order.
pub open spec fn sorted_asc(s: Seq<u32>) -> bool {
    forall|i: int, j: int| 0 <= i < j < s.len() ==> s[i] <= s[j]
}

/// Sort identifiers ascending; the result holds exactly the same
/// identifiers, with multiplicity.
pub fn sort_uids(v: Vec<u32>) -> (r: Vec<u32>)
    ensures
        sorted_asc(r@),
        r@.to_multiset() == v@.to_multiset(),
        r@.len() == v@.len(),
{
    let mut rest = v;
    let ghost orig = rest@;
    let mut out: Vec<u32> = Vec::new();
    proof {
        assert(out@.to_multiset().add(rest@.to_multiset()) =~= orig.to_multiset());
    }
    while rest.len() > 0
        invariant
            out@.to_multiset().add(rest@.to_multiset()) == orig.to_multiset(),
            out@.len() + rest@.len() == orig.len(),
            sorted_asc(out@),
            forall|i: int, j: int|
                0 <= i < out@.len() && 0 <= j < rest@.len() ==> out@[i] <= rest@[j],
        decreases rest@.len(),
    {
        // find the smallest remaining identifier
        let mut mi: usize = 0;
        let mut k: usize = 1;
        while k < rest.len()
            invariant
                0 <= mi < rest@.len(),
                mi < k <= rest@.len(),
                forall|j: int| 0 <= j < k ==> rest@[mi as int] <= rest@[j],
            decreases rest@.len() - k,
        {
            if rest[k] < rest[mi] {
                mi = k;
            }
            k = k + 1;
        }
        let ghost prerest = rest@;
        let ghost preout = out@;
        let x = rest.remove(mi);
        out.push(x);
        proof {
            assert(prerest.remove(mi as int).to_multiset() =~= prerest.to_multiset().remove(x));
            assert(preout.push(x).to_multiset() =~= preout.to_multiset().insert(x));
            assert(prerest.to_multiset().contains(x));
            assert(out@.to_multiset().add(rest@.to_multiset()) =~= orig.to_multiset());
            assert forall|i: int, j: int|
                0 <= i < out@.len() && 0 <= j < rest@.len() implies out@[i] <= rest@[j] by {
                if j < mi {
                    assert(rest@[j] == prerest[j]);
                } else {
                    assert(rest@[j] == prerest[j + 1]);
                }
                if i < preout.len() {
                    assert(out@[i] == preout[i]);
                } else {
                    assert(out@[i] == x);
                }
            }
        }
    }
    proof {
        assert(rest@.to_multiset() =~= Multiset::<u32>::empty());
        assert(out@.to_multiset().add(Multiset::<u32>::empty()) =~= out@.to_multiset());
        assert(out@.to_multiset().len() == orig.to_multiset().len());
    }
    out
}

/// The `n` most recent identifiers: sort ascending and keep the
/// last `n` (all of them when fewer exist).
pub fn last_n_uids(uids: Vec<u32>, n: usize) -> (r: Vec<u32>)
    ensures
        sorted_asc(r@),
        r@.len() == (if n <= uids@.len() {
            n as int
        } else {
            uids@.len() as int
        }),
        exists|s: Seq<u32>|
            {
                &&& sorted_asc(s)
                &&& s.to_multiset() == uids@.to_multiset()
                &&& #[trigger] s.skip(s.len() - r@.len()) == r@
            },
{
    let ghost m = uids@;
    let sorted = sort_uids(uids);
    let start: usize = if n <= sorted.len() {
        sorted.len() - n
    } else {
        0
    };
    let mut r: Vec<u32> = Vec::new();
    let mut i = start;
    proof {
        assert(r@ =~= sorted@.subrange(start as int, start as int));
    }
    while i < sorted.len()
        invariant
            start <= i <= sorted@.len(),
            r@ == sorted@.subrange(start as int, i as int),
        decreases sorted@.len() - i,
    {
        r.push(sorted[i]);
        proof {
            assert(sorted@.subrange(start as int, i + 1 as int) =~= sorted@.subrange(
                start as int,
                i as int,
            ).push(sorted@[i as int]));
        }
        i = i + 1;
    }
    proof {
        assert(r@ =~= sorted@.skip(start as int));
        assert(sorted@.skip(sorted@.len() - r@.len()) == r@);
    }
    r
}

// ── query and argument composition ─────────────────────────────────

/// The abbreviated month name used in date-bounded search queries.
pub open spec fn month_name(m: int) -> Seq<char> {
    if m == 1 {
        "Jan"@
    } else if m == 2 {
        "Feb"@
    } else if m == 3 {
        "Mar"@
    } else if m == 4 {
        "Apr"@
    } else if m == 5 {
        "May"@
    } else if m == 6 {
        "Jun"@
    } else if m == 7 {
        "Jul"@
    } else if m == 8 {
        "Aug"@
    } else if m == 9 {
        "Sep"@
    } else if m == 10 {
        "Oct"@
    } else if m == 11 {
        "Nov"@
    } else {
        "Dec"@
    }
}

/// A date as a search query writes it: `day-month-year`, the day
/// unpadded, the month abbreviated.
pub open spec fn date_token(d: Date) -> Seq<char> {
    dec_rep(d.day as nat) + "-"@ + month_name(d.month as int) + "-"@ + dec_rep(d.year as nat)
}

fn month_name_exec(m: u32) -> (r: &'static str)
    requires
        1 <= m <= 12,
    ensures
        r@ == month_name(m as int),
{
    if m == 1 {
        "Jan"
    } else if m == 2 {
        "Feb"
    } else if m == 3 {
        "Mar"
    } else if m == 4 {
        "Apr"
    } else if m == 5 {
        "May"
    } else if m == 6 {
        "Jun"
    } else if m == 7 {
        "Jul"
    } else if m == 8 {
        "Aug"
    } else if m == 9 {
        "Sep"
    } else if m == 10 {
        "Oct"
    } else if m == 11 {
        "Nov"
    } else {
        "Dec"
    }
}

fn date_token_exec(d: &Date) -> (r: String)
    requires
        1 <= d.month <= 12,
        d.year >= 0,
    ensures
        r@ == date_token(*d),
{
    let mut t = fmt_u32(d.day);
    t.append("-");
    t.append(month_name_exec(d.month));
    t.append("-");
    let y = fmt_u32(d.year as u32);
    t.append(y.as_str());
    proof {
        assert(t@ =~= date_token(*d));
    }
    t
}

impl<M> ProtonClient<M> {
    /// The search query selecting a date range: on-or-after `since`
    /// (inclusive) and before `before` (exclusive).
    pub fn date_range_query(&self, since: &Date, before: &Date) -> (r: String)
        requires
            1 <= since.month <= 12,
            since.year >= 0,
            1 <= before.month <= 12,
            before.year >= 0,
        ensures
            r@ == "SINCE "@ + date_token(*since) + " BEFORE "@ + date_token(*before),
    {
        let mut q = String::from_str("SINCE ");
        let s = date_token_exec(since);
        q.append(s.as_str());
        q.append(" BEFORE ");
        let b = date_token_exec(before);
        q.append(b.as_str());
        proof {
            assert(q@ =~= "SINCE "@ + date_token(*since) + " BEFORE "@ + date_token(*before));
        }
        q
    }
}

/// Comma-joined decimal identifiers, as a store request names its
/// targets.
pub open spec fn uid_list_token(uids: Seq<u32>) -> Seq<char>
    decreases uids.len(),
{
    if uids.len() == 0 {
        Seq::empty()
    } else if uids.len() == 1 {
        dec_rep(uids[0] as nat)
    } else {
        uid_list_token(uids.drop_last()) + ","@ + dec_rep(uids.last() as nat)
    }
}

impl ProtonClient<ReadWrite> {
    /// The set token naming the given identifiers, comma-joined.
    pub fn uid_set_token(&self, uids: &Vec<u32>) -> (r: String)
        ensures
            r@ == uid_list_token(uids@),
    {
        let mut r = String::new();
        let mut i: usize = 0;
        proof {
            assert(r@ =~= uid_list_token(uids@.take(0)));
            assert(uids@.take(0) =~= Seq::<u32>::empty());
        }
        while i < uids.len()
            invariant
                0 <= i <= uids@.len(),
                r@ == uid_list_token(uids@.take(i as int)),
            decreases uids@.len() - i,
        {
            proof {
                assert(uids@.take(i + 1 as int).drop_last() =~= uids@.take(i as int));
                assert(uids@.take(i + 1 as int).last() == uids@[i as int]);
            }
            if i > 0 {
                r.append(",");
            }
            let d = fmt_u32(uids[i]);
            r.append(d.as_str());
            i = i + 1;
        }
        proof {
            assert(uids@.take(uids@.len() as int) =~= uids@);
        }
        r
    }

    /// The store argument that adds a flag.
    pub fn add_flag_arg(&self, flag: &Flag) -> (r: String)
        ensures
            r@ == "+FLAGS ("@ + flag.spec_imap_str() + ")"@,
    {
        let mut r = String::from_str("+FLAGS (");
        r.append(flag.as_imap_str());
        r.append(")");
        proof {
            assert(r@ =~= "+FLAGS ("@ + flag.spec_imap_str() + ")"@);
        }
        r
    }

    /// The store argument that removes a flag.
    pub fn remove_flag_arg(&self, flag: &Flag) -> (r: String)
        ensures
            r@ == "-FLAGS ("@ + flag.spec_imap_str() + ")"@,
    {
        let mut r = String::from_str("-FLAGS (");
        r.append(flag.as_imap_str());
        r.append(")");
        proof {
            assert(r@ =~= "-FLAGS ("@ + flag.spec_imap_str() + ")"@);
        }
        r
    }

    /// The three commands that move one message: copy it to the
    /// destination, mark it deleted at the source, and expunge.
    pub fn move_steps(&self, uid: u32, to: &Folder) -> (r: Vec<String>)
        ensures
            r@.len() == 3,
            r@[0]@ == "UID COPY "@ + dec_rep(uid as nat) + " "@ + to.spec_name(),
            r@[1]@ == "UID STORE "@ + dec_rep(uid as nat) + " +FLAGS (\\Deleted)"@,
            r@[2]@ == "EXPUNGE"@,
    {
        let mut r: Vec<String> = Vec::new();
        let mut copy = String::from_str("UID COPY ");
        let d = fmt_u32(uid);
        copy.append(d.as_str());
        copy.append(" ");
        copy.append(to.as_str());
        proof {
            assert(copy@ =~= "UID COPY "@ + dec_rep(uid as nat) + " "@ + to.spec_name());
        }
        r.push(copy);
        let mut mark = String::from_str("UID STORE ");
        mark.append(d.as_str());
        mark.append(" +FLAGS (\\Deleted)");
        proof {
            assert(mark@ =~= "UID STORE "@ + dec_rep(uid as nat) + " +FLAGS (\\Deleted)"@);
        }
        r.push(mark);
        r.push(String::from_str("EXPUNGE"));
        r
    }

    /// Archiving is moving to the fixed archive folder.
    pub fn archive_steps(&self, uid: u32) -> (r: Vec<String>)
        ensures
            r@.len() == 3,
            r@[0]@ == "UID COPY "@ + dec_rep(uid as nat) + " "@ + Folder::Archive.spec_name(),
            r@[1]@ == "UID STORE "@ + dec_rep(uid as nat) + " +FLAGS (\\Deleted)"@,
            r@[2]@ == "EXPUNGE"@,
    {
        self.move_steps(uid, &Folder::Archive)
    }

    /// The search query that finds messages to unmark, and the store
    /// argument that unmarks them: unmarking all read messages is a
    /// search for the seen flag followed by its removal.
    pub fn unmark_all_read_plan(&self) -> (r: (String, String))
        ensures
            r.0@ == "SEEN"@,
            r.1@ == "-FLAGS (\\Seen)"@,
    {
        (String::from_str("SEEN"), String::from_str("-FLAGS (\\Seen)"))
    }
}

} // verus!
