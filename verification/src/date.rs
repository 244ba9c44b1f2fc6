//! Calendar dates for search, and best-effort extraction of a date
//! from a raw message.
//!
//! A message's date is found by scanning its header lines for a
//! `Date:` field and handing the field's value to a standard
//! calendar parser.  A message with no parseable date never matches
//! any date-bounded search predicate.

use vstd::prelude::*;
use chrono::Datelike;

verus! {

// ── calendar dates ─────────────────────────────────────────────────

/// A calendar date, compared field by field.
#[derive(Debug, Clone, Copy, PartialEq, Eq, Structural)]
pub struct Date {
    pub year: i32,
    pub month: u32,
    pub day: u32,
}

/// `a` is on or before `b`.
pub open spec fn date_le(a: Date, b: Date) -> bool {
    ||| a.year < b.year
    ||| (a.year == b.year && a.month < b.month)
    ||| (a.year == b.year && a.month == b.month && a.day <= b.day)
}

/// `a` is strictly before `b`.
pub open spec fn date_lt(a: Date, b: Date) -> bool {
    date_le(a, b) && a != b
}

impl Date {
    pub fn new(year: i32, month: u32, day: u32) -> (r: Date)
        ensures
            r == (Date { year, month, day }),
    {
        Date { year, month, day }
    }

    /// Whether this date is on or before `other`.
    pub fn le(&self, other: &Date) -> (r: bool)
        ensures
            r == date_le(*self, *other),
    {
        self.year < other.year || (self.year == other.year && (self.month < other.month || (
        self.month == other.month && self.day <= other.day)))
    }

    /// Whether this date is strictly before `other`.
    pub fn lt(&self, other: &Date) -> (r: bool)
        ensures
            r == date_lt(*self, *other),
    {
        self.le(other) && !(self.year == other.year && self.month == other.month && self.day
            == other.day)
    }
}

// ── the calendar parser ────────────────────────────────────────────

/// The calendar date encoded in an RFC 2822 date-time string, if the
/// bytes are valid UTF-8 and parse; a function of the bytes alone.
pub uninterp spec fn rfc2822_date_of(s: Seq<u8>) -> Option<Date>;

/// Relies on chrono's `DateTime::parse_from_rfc2822` and
/// `date_naive`: the date portion of the parsed date-time.  The
/// result is determined by the input bytes alone.
#[verifier::external_body]
pub fn parse_rfc2822_date(bytes: &Vec<u8>) -> (r: Option<Date>)
    ensures
        r == rfc2822_date_of(bytes@),
{
    match core::str::from_utf8(bytes) {
        Ok(s) => match chrono::DateTime::parse_from_rfc2822(s) {
            Ok(dt) => {
                let d = dt.date_naive();
                Some(Date { year: d.year(), month: d.month(), day: d.day() })
            }
            Err(_) => None,
        },
        Err(_) => None,
    }
}

// ── header scanning ────────────────────────────────────────────────

/// ASCII whitespace, as trimmed around header lines and values.
pub open spec fn is_ws(b: u8) -> bool {
    b == 32 || b == 9 || b == 13 || b == 10
}

/// `s` without leading whitespace.
pub open spec fn trim_front(s: Seq<u8>) -> Seq<u8>
    decreases s.len(),
{
    if s.len() > 0 && is_ws(s[0]) {
        trim_front(s.drop_first())
    } else {
        s
    }
}

/// `s` without trailing whitespace.
pub open spec fn trim_back(s: Seq<u8>) -> Seq<u8>
    decreases s.len(),
{
    if s.len() > 0 && is_ws(s.last()) {
        trim_back(s.drop_last())
    } else {
        s
    }
}

/// `s` without leading or trailing whitespace.
pub open spec fn trim_bytes(s: Seq<u8>) -> Seq<u8> {
    trim_back(trim_front(s))
}

/// The bytes of the header field name `Date:`.
pub open spec fn date_prefix() -> Seq<u8> {
    seq![68u8, 97u8, 116u8, 101u8, 58u8]
}

/// Whether `s` begins with `p`.
pub open spec fn starts_with(s: Seq<u8>, p: Seq<u8>) -> bool {
    s.len() >= p.len() && s.take(p.len() as int) == p
}

/// The end of the line starting at `from`: the index of the next
/// newline, or the end of the bytes.
pub open spec fn line_end(s: Seq<u8>, from: int) -> int
    recommends
        0 <= from <= s.len(),
    decreases s.len() - from when 0 <= from <= s.len()
{
    if from >= s.len() {
        s.len() as int
    } else if s[from] == 10 {
        from
    } else {
        line_end(s, from + 1)
    }
}

pub proof fn lemma_line_end(s: Seq<u8>, from: int)
    requires
        0 <= from <= s.len(),
    ensures
        from <= line_end(s, from) <= s.len(),
    decreases s.len() - from,
{
    if from < s.len() && s[from] != 10 {
        lemma_line_end(s, from + 1);
    }
}

/// The value of the first `Date:` header line at or after `from`:
/// each line is trimmed; the first one beginning with `Date:` yields
/// the rest of the line, trimmed.  Later `Date:` lines are never
/// consulted.
pub open spec fn date_value_from(s: Seq<u8>, from: int) -> Option<Seq<u8>>
    recommends
        0 <= from <= s.len(),
    decreases s.len() - from when 0 <= from <= s.len() via date_value_from_decreases
{
    if from >= s.len() {
        None
    } else {
        let e = line_end(s, from);
        let t = trim_bytes(s.subrange(from, e));
        if starts_with(t, date_prefix()) {
            Some(trim_bytes(t.skip(date_prefix().len() as int)))
        } else if e >= s.len() {
            None
        } else {
            date_value_from(s, e + 1)
        }
    }
}

#[via_fn]
proof fn date_value_from_decreases(s: Seq<u8>, from: int) {
    if 0 <= from <= s.len() && from < s.len() {
        lemma_line_end(s, from);
    }
}

/// The value of the first `Date:` header line of a raw message.
pub open spec fn date_header_value(raw: Seq<u8>) -> Option<Seq<u8>> {
    date_value_from(raw, 0)
}

/// The message's extracted date: the first `Date:` line's value,
/// handed to the calendar parser.  `None` when no such line exists
/// or its value does not parse.
pub open spec fn date_of(raw: Seq<u8>) -> Option<Date> {
    match date_header_value(raw) {
        None => None,
        Some(v) => rfc2822_date_of(v),
    }
}

fn is_ws_byte(b: u8) -> (r: bool)
    ensures
        r == is_ws(b),
{
    b == 32 || b == 9 || b == 13 || b == 10
}

/// Trimmed bounds of `raw[lo..hi]`: the subrange between the results
/// is the trimmed slice.
fn trim_range(raw: &Vec<u8>, lo: usize, hi: usize) -> (r: (usize, usize))
    requires
        lo <= hi <= raw@.len(),
    ensures
        lo <= r.0 <= r.1 <= hi,
        raw@.subrange(r.0 as int, r.1 as int) == trim_bytes(raw@.subrange(lo as int, hi as int)),
{
    let mut a = lo;
    while a < hi && is_ws_byte(raw[a])
        invariant
            lo <= a <= hi <= raw@.len(),
            trim_front(raw@.subrange(lo as int, hi as int)) == trim_front(
                raw@.subrange(a as int, hi as int),
            ),
        decreases hi - a,
    {
        proof {
            assert(raw@.subrange(a as int, hi as int).drop_first() =~= raw@.subrange(
                a + 1 as int,
                hi as int,
            ));
        }
        a = a + 1;
    }
    proof {
        assert(trim_front(raw@.subrange(a as int, hi as int)) == raw@.subrange(
            a as int,
            hi as int,
        ));
    }
    let mut b = hi;
    while b > a && is_ws_byte(raw[b - 1])
        invariant
            lo <= a <= b <= hi <= raw@.len(),
            trim_front(raw@.subrange(lo as int, hi as int)) == raw@.subrange(a as int, hi as int),
            trim_back(raw@.subrange(a as int, hi as int)) == trim_back(
                raw@.subrange(a as int, b as int),
            ),
        decreases b - a,
    {
        proof {
            assert(raw@.subrange(a as int, b as int).drop_last() =~= raw@.subrange(
                a as int,
                b - 1 as int,
            ));
        }
        b = b - 1;
    }
    proof {
        assert(trim_back(raw@.subrange(a as int, b as int)) == raw@.subrange(a as int, b as int));
    }
    (a, b)
}

/// A fresh copy of `raw[lo..hi]`.
fn bytes_range(raw: &Vec<u8>, lo: usize, hi: usize) -> (r: Vec<u8>)
    requires
        lo <= hi <= raw@.len(),
    ensures
        r@ == raw@.subrange(lo as int, hi as int),
{
    let mut r: Vec<u8> = Vec::new();
    let mut i = lo;
    proof {
        assert(r@ =~= raw@.subrange(lo as int, lo as int));
    }
    while i < hi
        invariant
            lo <= i <= hi <= raw@.len(),
            r@ == raw@.subrange(lo as int, i as int),
        decreases hi - i,
    {
        r.push(raw[i]);
        proof {
            assert(raw@.subrange(lo as int, i + 1 as int) =~= raw@.subrange(
                lo as int,
                i as int,
            ).push(raw@[i as int]));
        }
        i = i + 1;
    }
    r
}

/// Whether `raw[lo..hi]` begins with `Date:`.
fn range_has_date_prefix(raw: &Vec<u8>, lo: usize, hi: usize) -> (r: bool)
    requires
        lo <= hi <= raw@.len(),
    ensures
        r == starts_with(raw@.subrange(lo as int, hi as int), date_prefix()),
{
    if hi - lo < 5 {
        return false;
    }
    let r = raw[lo] == 68 && raw[lo + 1] == 97 && raw[lo + 2] == 116 && raw[lo + 3] == 101
        && raw[lo + 4] == 58;
    proof {
        let s = raw@.subrange(lo as int, hi as int);
        if r {
            assert(s.take(5) =~= date_prefix());
        } else {
            assert(s.take(5)[0] == raw@[lo as int] && s.take(5)[1] == raw@[lo + 1] && s.take(5)[2]
                == raw@[lo + 2] && s.take(5)[3] == raw@[lo + 3] && s.take(5)[4] == raw@[lo + 4]);
            assert(s.take(5) != date_prefix()) by {
                if s.take(5) == date_prefix() {
                    assert(date_prefix()[0] == 68u8 && date_prefix()[1] == 97u8 && date_prefix()[2]
                        == 116u8 && date_prefix()[3] == 101u8 && date_prefix()[4] == 58u8);
                }
            }
        }
    }
    r
}

/// The value of the first `Date:` header line of a raw message, as a
/// fresh byte vector.
pub fn extract_date_value(raw: &Vec<u8>) -> (r: Option<Vec<u8>>)
    ensures
        match r {
            Some(v) => date_header_value(raw@) == Some(v@),
            None => date_header_value(raw@) is None,
        },
{
    let n = raw.len();
    let mut from: usize = 0;
    while from < n
        invariant
            0 <= from <= n,
            n == raw@.len(),
            date_value_from(raw@, 0) == date_value_from(raw@, from as int),
        decreases n - from,
    {
        // find the end of this line
        let mut e = from;
        while e < n && raw[e] != 10
            invariant
                from <= e <= n,
                n == raw@.len(),
                line_end(raw@, from as int) == line_end(raw@, e as int),
            decreases n - e,
        {
            e = e + 1;
        }
        proof {
            assert(line_end(raw@, from as int) == e);
            lemma_line_end(raw@, from as int);
        }
        let (lo, hi) = trim_range(raw, from, e);
        if range_has_date_prefix(raw, lo, hi) {
            let (vlo, vhi) = trim_range(raw, lo + 5, hi);
            let value = bytes_range(raw, vlo, vhi);
            proof {
                let t = trim_bytes(raw@.subrange(from as int, e as int));
                assert(t == raw@.subrange(lo as int, hi as int));
                assert(t.skip(5) =~= raw@.subrange(lo + 5 as int, hi as int));
                assert(value@ == trim_bytes(t.skip(5)));
            }
            return Some(value);
        }
        proof {
            let t = trim_bytes(raw@.subrange(from as int, e as int));
            assert(t == raw@.subrange(lo as int, hi as int));
            assert(!starts_with(t, date_prefix()));
        }
        if e == n {
            proof {
                assert(date_value_from(raw@, from as int) is None);
            }
            return None;
        }
        from = e + 1;
    }
    None
}

/// The message's extracted date: scan for the first `Date:` header
/// line and parse its value.
pub fn message_date(raw: &Vec<u8>) -> (r: Option<Date>)
    ensures
        r == date_of(raw@),
{
    match extract_date_value(raw) {
        Some(v) => parse_rfc2822_date(&v),
        None => None,
    }
}

} // verus!
