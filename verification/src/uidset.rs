//! Requested message-identifier sets: single identifiers and ranges,
//! with `*` standing for the folder's greatest identifier.

use vstd::prelude::*;

verus! {

/// One end of a requested range: a number, or `*` for the greatest
/// identifier the folder holds.
#[derive(Debug, Clone, Copy, PartialEq, Eq, Structural)]
pub enum UidBound {
    Num(u32),
    Star,
}

/// One entry of a requested identifier set.
#[derive(Debug, Clone, Copy, PartialEq, Eq, Structural)]
pub enum UidEntry {
    One(UidBound),
    Span(UidBound, UidBound),
}

/// The value of a bound once the folder's greatest identifier is
/// known.
pub open spec fn bound_value(b: UidBound, max: u32) -> u32 {
    match b {
        UidBound::Num(v) => v,
        UidBound::Star => max,
    }
}

/// The identifiers `lo..=hi`, ascending; empty when `lo > hi`.
pub open spec fn range_seq(lo: int, hi: int) -> Seq<u32> {
    Seq::new(if hi + 1 - lo >= 0 {
        (hi + 1 - lo) as nat
    } else {
        0nat
    }, |i: int| (lo + i) as u32)
}

/// Full expansion of an identifier set, as flag mutation reads it:
/// single numbers stand alone, a lone `*` is ignored, and a span
/// covers both ends inclusively, swapped into ascending order.
pub open spec fn expand_entries(entries: Seq<UidEntry>, max: u32) -> Seq<u32>
    decreases entries.len(),
{
    if entries.len() == 0 {
        Seq::empty()
    } else {
        let head = match entries[0] {
            UidEntry::One(UidBound::Num(v)) => seq![v],
            UidEntry::One(UidBound::Star) => Seq::<u32>::empty(),
            UidEntry::Span(a, b) => {
                let lo = bound_value(a, max);
                let hi = bound_value(b, max);
                if lo <= hi {
                    range_seq(lo as int, hi as int)
                } else {
                    range_seq(hi as int, lo as int)
                }
            },
        };
        head + expand_entries(entries.drop_first(), max)
    }
}

/// Narrow expansion, as fetch and copy read the set: only single
/// numbers are taken; ranges and `*` are ignored.
pub open spec fn single_entries(entries: Seq<UidEntry>) -> Seq<u32>
    decreases entries.len(),
{
    if entries.len() == 0 {
        Seq::empty()
    } else {
        let head = match entries[0] {
            UidEntry::One(UidBound::Num(v)) => seq![v],
            _ => Seq::<u32>::empty(),
        };
        head + single_entries(entries.drop_first())
    }
}

/// Expand an identifier set fully, given the folder's greatest
/// identifier.
pub fn expand_uid_entries(entries: &Vec<UidEntry>, max: u32) -> (r: Vec<u32>)
    ensures
        r@ == expand_entries(entries@, max),
{
    let mut r: Vec<u32> = Vec::new();
    let mut k: usize = 0;
    proof {
        assert(entries@.skip(0) =~= entries@);
        assert(r@ + expand_entries(entries@, max) =~= expand_entries(entries@, max));
    }
    while k < entries.len()
        invariant
            0 <= k <= entries@.len(),
            expand_entries(entries@, max) == r@ + expand_entries(entries@.skip(k as int), max),
        decreases entries@.len() - k,
    {
        let ghost rest = entries@.skip(k as int);
        proof {
            assert(rest[0] == entries@[k as int]);
            assert(rest.drop_first() =~= entries@.skip(k + 1 as int));
        }
        let ghost before = r@;
        match entries[k] {
            UidEntry::One(UidBound::Num(v)) => {
                r.push(v);
                proof {
                    assert(expand_entries(rest, max) == seq![v] + expand_entries(
                        rest.drop_first(),
                        max,
                    ));
                    assert(r@ =~= before + seq![v]);
                    assert((before + seq![v]) + expand_entries(rest.drop_first(), max) =~= before
                        + (seq![v] + expand_entries(rest.drop_first(), max)));
                }
            }
            UidEntry::One(UidBound::Star) => {
                proof {
                    assert(expand_entries(rest, max) == Seq::<u32>::empty() + expand_entries(
                        rest.drop_first(),
                        max,
                    ));
                    assert(Seq::<u32>::empty() + expand_entries(rest.drop_first(), max)
                        =~= expand_entries(rest.drop_first(), max));
                }
            }
            UidEntry::Span(a, b) => {
                let av = match a {
                    UidBound::Num(v) => v,
                    UidBound::Star => max,
                };
                let bv = match b {
                    UidBound::Num(v) => v,
                    UidBound::Star => max,
                };
                let (lo, hi) = if av <= bv {
                    (av, bv)
                } else {
                    (bv, av)
                };
                let mut u: u64 = lo as u64;
                proof {
                    assert(r@ =~= before + range_seq(lo as int, lo as int - 1));
                }
                while u <= hi as u64
                    invariant
                        lo as u64 <= u <= hi as u64 + 1,
                        r@ == before + range_seq(lo as int, u as int - 1),
                    decreases hi as u64 + 1 - u,
                {
                    r.push(u as u32);
                    proof {
                        assert(r@ =~= before + range_seq(lo as int, u as int));
                    }
                    u = u + 1;
                }
                proof {
                    let rs = range_seq(lo as int, hi as int);
                    assert(rs == range_seq(lo as int, u as int - 1));
                    assert(expand_entries(rest, max) == rs + expand_entries(
                        rest.drop_first(),
                        max,
                    ));
                    assert((before + rs) + expand_entries(rest.drop_first(), max) =~= before + (rs
                        + expand_entries(rest.drop_first(), max)));
                }
            }
        }
        k = k + 1;
    }
    proof {
        assert(entries@.skip(entries@.len() as int) =~= Seq::<UidEntry>::empty());
        assert(r@ =~= r@ + expand_entries(entries@.skip(entries@.len() as int), max));
    }
    r
}

/// Expand only the single numbers of an identifier set.
pub fn single_uid_entries(entries: &Vec<UidEntry>) -> (r: Vec<u32>)
    ensures
        r@ == single_entries(entries@),
{
    let mut r: Vec<u32> = Vec::new();
    let mut k: usize = 0;
    proof {
        assert(entries@.skip(0) =~= entries@);
        assert(r@ + single_entries(entries@) =~= single_entries(entries@));
    }
    while k < entries.len()
        invariant
            0 <= k <= entries@.len(),
            single_entries(entries@) == r@ + single_entries(entries@.skip(k as int)),
        decreases entries@.len() - k,
    {
        let ghost rest = entries@.skip(k as int);
        proof {
            assert(rest[0] == entries@[k as int]);
            assert(rest.drop_first() =~= entries@.skip(k + 1 as int));
        }
        let ghost before = r@;
        match entries[k] {
            UidEntry::One(UidBound::Num(v)) => {
                r.push(v);
                proof {
                    assert(before + seq![v] + single_entries(rest.drop_first()) =~= before + (
                    seq![v] + single_entries(rest.drop_first())));
                    assert(r@ =~= before + seq![v]);
                }
            }
            _ => {
                proof {
                    assert(before + (Seq::<u32>::empty() + single_entries(rest.drop_first()))
                        =~= before + single_entries(rest.drop_first()));
                }
            }
        }
        k = k + 1;
    }
    proof {
        assert(entries@.skip(entries@.len() as int) =~= Seq::<UidEntry>::empty());
        assert(r@ =~= r@ + single_entries(entries@.skip(entries@.len() as int)));
    }
    r
}

} // verus!
