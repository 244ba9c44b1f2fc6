//! Parsing of one command line into a structured request.
//!
//! A line is a tag token, a space, and the command.  Keywords are
//! matched without regard to ASCII case.  Search criteria form a
//! small grammar: the simple criteria, date bounds in
//! `day-month-year` form, and one level of negation or disjunction
//! over simple criteria; anything unrecognized is the permissive
//! match-all criterion.  Identifier sets are comma-separated numbers
//! and ranges, `*` standing for the greatest identifier.

use vstd::prelude::*;
use crate::date::Date;
use crate::dispatch::Request;
use crate::flag::Flag;
use crate::mailbox::StoreOp;
use crate::search::Pred;
use crate::literal::{dec_val, is_digit};
use crate::text::seq_eq_ic;
use crate::uidset::{UidBound, UidEntry};

verus! {

// ── character scanning ─────────────────────────────────────────────

/// The first index at or after `from` holding a space, or the end.
pub open spec fn word_end(s: Seq<char>, from: int) -> int
    recommends
        0 <= from <= s.len(),
    decreases s.len() - from when 0 <= from <= s.len()
{
    if from >= s.len() {
        s.len() as int
    } else if s[from] == ' ' {
        from
    } else {
        word_end(s, from + 1)
    }
}

/// The first index at or after `from` holding something other than a
/// space, or the end.
pub open spec fn skip_spaces(s: Seq<char>, from: int) -> int
    recommends
        0 <= from <= s.len(),
    decreases s.len() - from when 0 <= from <= s.len()
{
    if from >= s.len() {
        s.len() as int
    } else if s[from] == ' ' {
        skip_spaces(s, from + 1)
    } else {
        from
    }
}

pub proof fn lemma_word_end(s: Seq<char>, from: int)
    requires
        0 <= from <= s.len(),
    ensures
        from <= word_end(s, from) <= s.len(),
    decreases s.len() - from,
{
    if from < s.len() && s[from] != ' ' {
        lemma_word_end(s, from + 1);
    }
}

pub proof fn lemma_skip_spaces(s: Seq<char>, from: int)
    requires
        0 <= from <= s.len(),
    ensures
        from <= skip_spaces(s, from) <= s.len(),
        skip_spaces(s, from) < s.len() ==> s[skip_spaces(s, from)] != ' ',
    decreases s.len() - from,
{
    if from < s.len() && s[from] == ' ' {
        lemma_skip_spaces(s, from + 1);
    }
}

/// The space-separated words of `s` from `from` on.
pub open spec fn words_from(s: Seq<char>, from: int) -> Seq<Seq<char>>
    recommends
        0 <= from <= s.len(),
    decreases s.len() - from when 0 <= from <= s.len() via words_from_decreases
{
    let b = skip_spaces(s, from);
    if b >= s.len() {
        Seq::empty()
    } else {
        let e = word_end(s, b);
        seq![s.subrange(b, e)] + words_from(s, e)
    }
}

#[via_fn]
proof fn words_from_decreases(s: Seq<char>, from: int) {
    if 0 <= from <= s.len() {
        lemma_skip_spaces(s, from);
        let b = skip_spaces(s, from);
        if b < s.len() {
            assert(s[b] != ' ');
            lemma_word_end(s, b + 1);
            assert(word_end(s, b) == word_end(s, b + 1));
        }
    }
}

/// The space-separated words of a line.
pub open spec fn words(s: Seq<char>) -> Seq<Seq<char>> {
    words_from(s, 0)
}

/// Split a line into its space-separated words.
pub fn tokenize(s: &str) -> (r: Vec<String>)
    ensures
        r@.map_values(|t: String| t@) == words(s@),
{
    let n = s.unicode_len();
    let mut r: Vec<String> = Vec::new();
    let mut from: usize = 0;
    proof {
        assert(r@.map_values(|t: String| t@) =~= Seq::<Seq<char>>::empty());
    }
    while from < n
        invariant
            0 <= from <= n,
            n == s@.len(),
            words(s@) == r@.map_values(|t: String| t@) + words_from(s@, from as int),
        decreases n - from,
    {
        // skip spaces
        let mut b = from;
        while b < n && s.get_char(b) == ' '
            invariant
                from <= b <= n,
                n == s@.len(),
                skip_spaces(s@, from as int) == skip_spaces(s@, b as int),
            decreases n - b,
        {
            b = b + 1;
        }
        proof {
            assert(skip_spaces(s@, from as int) == b);
        }
        if b == n {
            proof {
                assert(words_from(s@, from as int) =~= Seq::<Seq<char>>::empty());
                assert(r@.map_values(|t: String| t@) + Seq::<Seq<char>>::empty() =~= r@.map_values(
                    |t: String| t@,
                ));
            }
            return r;
        }
        // take the word
        let mut e = b;
        while e < n && s.get_char(e) != ' '
            invariant
                b <= e <= n,
                n == s@.len(),
                word_end(s@, b as int) == word_end(s@, e as int),
            decreases n - e,
        {
            e = e + 1;
        }
        proof {
            assert(word_end(s@, b as int) == e);
        }
        let w = String::from_str(s.substring_char(b, e));
        let ghost prev = r@;
        r.push(w);
        proof {
            assert(w@ == s@.subrange(b as int, e as int));
            assert(r@.map_values(|t: String| t@) =~= prev.map_values(|t: String| t@).push(w@));
            assert(words_from(s@, from as int) == seq![s@.subrange(b as int, e as int)]
                + words_from(s@, e as int));
            assert(prev.map_values(|t: String| t@) + (seq![w@] + words_from(s@, e as int)) =~= (
            prev.map_values(|t: String| t@).push(w@)) + words_from(s@, e as int));
        }
        from = e;
    }
    proof {
        assert(words_from(s@, n as int) =~= Seq::<Seq<char>>::empty());
        assert(r@.map_values(|t: String| t@) + Seq::<Seq<char>>::empty() =~= r@.map_values(
            |t: String| t@,
        ));
    }
    r
}

// ── single-character scanning ──────────────────────────────────────

/// The first index at or after `from` holding `c`, or the end.
pub open spec fn find_char(s: Seq<char>, c: char, from: int) -> int
    recommends
        0 <= from <= s.len(),
    decreases s.len() - from when 0 <= from <= s.len()
{
    if from >= s.len() {
        s.len() as int
    } else if s[from] == c {
        from
    } else {
        find_char(s, c, from + 1)
    }
}

pub proof fn lemma_find_char(s: Seq<char>, c: char, from: int)
    requires
        0 <= from <= s.len(),
    ensures
        from <= find_char(s, c, from) <= s.len(),
        forall|k: int| from <= k < find_char(s, c, from) ==> s[k] != c,
        find_char(s, c, from) < s.len() ==> s[find_char(s, c, from)] == c,
    decreases s.len() - from,
{
    if from < s.len() && s[from] != c {
        lemma_find_char(s, c, from + 1);
    }
}

/// Find `c` in `s[from..]`, returning an index or the length.
fn find_char_at(s: &str, c: char, from: usize) -> (r: usize)
    requires
        from <= s@.len(),
    ensures
        r == find_char(s@, c, from as int),
        from <= r <= s@.len(),
{
    let n = s.unicode_len();
    let mut i = from;
    while i < n && s.get_char(i) != c
        invariant
            from <= i <= n,
            n == s@.len(),
            find_char(s@, c, from as int) == find_char(s@, c, i as int),
        decreases n - i,
    {
        i = i + 1;
    }
    i
}

// ── bounded decimal fields ─────────────────────────────────────────

/// The value of a field of digits: every character must be a digit
/// and at least one must be present.
pub open spec fn digits_val(s: Seq<char>) -> Option<int> {
    if s.len() > 0 && (forall|i: int| 0 <= i < s.len() ==> is_digit(#[trigger] s[i])) {
        Some(dec_val(s))
    } else {
        None
    }
}

/// Parse the digits of `s[lo..hi]`, refusing values above `cap`.
fn parse_digits_capped(s: &str, lo: usize, hi: usize, cap: u32) -> (r: Option<u32>)
    requires
        lo <= hi <= s@.len(),
    ensures
        match r {
            Some(v) => digits_val(s@.subrange(lo as int, hi as int)) == Some(v as int) && v <= cap,
            None => digits_val(s@.subrange(lo as int, hi as int)) is None || (digits_val(
                s@.subrange(lo as int, hi as int),
            ) matches Some(v) && v > cap),
        },
{
    let ghost field = s@.subrange(lo as int, hi as int);
    if lo == hi {
        return None;
    }
    let mut val: u64 = 0;
    let mut i = lo;
    proof {
        assert(field.take(0) =~= Seq::<char>::empty());
    }
    while i < hi
        invariant
            lo <= i <= hi <= s@.len(),
            lo < hi,
            field == s@.subrange(lo as int, hi as int),
            forall|j: int| lo <= j < i ==> is_digit(#[trigger] s@[j]),
            val as int == dec_val(field.take(i - lo)),
            val <= cap as u64,
        decreases hi - i,
    {
        let c = s.get_char(i);
        if !('0' <= c && c <= '9') {
            proof {
                assert(field[i - lo] == s@[i as int]);
            }
            return None;
        }
        proof {
            assert(field[i - lo] == s@[i as int]);
            assert(field.take(i + 1 - lo).drop_last() =~= field.take(i - lo));
            assert(field.take(i + 1 - lo).last() == field[i - lo]);
        }
        let d = (c as u32) - 48;
        let next = val * 10 + (d as u64);
        if next > cap as u64 {
            proof {
                if forall|j: int| 0 <= j < field.len() ==> is_digit(#[trigger] field[j]) {
                    crate::literal::lemma_dec_val_prefix_le(field, i + 1 - lo);
                }
            }
            return None;
        }
        val = next;
        i = i + 1;
    }
    proof {
        assert(field.take(hi - lo) =~= field);
        assert forall|j: int| 0 <= j < field.len() implies is_digit(#[trigger] field[j]) by {
            assert(field[j] == s@[j + lo]);
        }
    }
    Some(val as u32)
}

// ── quote trimming ─────────────────────────────────────────────────

/// `s` without leading double quotes.
pub open spec fn unquote_front(s: Seq<char>) -> Seq<char>
    decreases s.len(),
{
    if s.len() > 0 && s[0] == '"' {
        unquote_front(s.drop_first())
    } else {
        s
    }
}

/// `s` without trailing double quotes.
pub open spec fn unquote_back(s: Seq<char>) -> Seq<char>
    decreases s.len(),
{
    if s.len() > 0 && s.last() == '"' {
        unquote_back(s.drop_last())
    } else {
        s
    }
}

/// `s` without surrounding double quotes.
pub open spec fn unquote(s: Seq<char>) -> Seq<char> {
    unquote_back(unquote_front(s))
}

/// Strip surrounding double quotes from `s[lo..hi]`.
fn unquote_range(s: &str, lo: usize, hi: usize) -> (r: (usize, usize))
    requires
        lo <= hi <= s@.len(),
    ensures
        lo <= r.0 <= r.1 <= hi,
        s@.subrange(r.0 as int, r.1 as int) == unquote(s@.subrange(lo as int, hi as int)),
{
    let mut a = lo;
    while a < hi && s.get_char(a) == '"'
        invariant
            lo <= a <= hi <= s@.len(),
            unquote_front(s@.subrange(lo as int, hi as int)) == unquote_front(
                s@.subrange(a as int, hi as int),
            ),
        decreases hi - a,
    {
        proof {
            assert(s@.subrange(a as int, hi as int).drop_first() =~= s@.subrange(
                a + 1 as int,
                hi as int,
            ));
        }
        a = a + 1;
    }
    proof {
        assert(unquote_front(s@.subrange(a as int, hi as int)) == s@.subrange(a as int, hi as int));
    }
    let mut b = hi;
    while b > a && s.get_char(b - 1) == '"'
        invariant
            lo <= a <= b <= hi <= s@.len(),
            unquote_front(s@.subrange(lo as int, hi as int)) == s@.subrange(a as int, hi as int),
            unquote_back(s@.subrange(a as int, hi as int)) == unquote_back(
                s@.subrange(a as int, b as int),
            ),
        decreases b - a,
    {
        proof {
            assert(s@.subrange(a as int, b as int).drop_last() =~= s@.subrange(
                a as int,
                b - 1 as int,
            ));
        }
        b = b - 1;
    }
    proof {
        assert(unquote_back(s@.subrange(a as int, b as int)) == s@.subrange(a as int, b as int));
    }
    (a, b)
}

// ── calendar dates in search criteria ──────────────────────────────

/// The month number a three-letter month name denotes, matched
/// without regard to ASCII case.
pub open spec fn month_num(s: Seq<char>) -> Option<int> {
    if seq_eq_ic(s, "Jan"@) {
        Some(1int)
    } else if seq_eq_ic(s, "Feb"@) {
        Some(2int)
    } else if seq_eq_ic(s, "Mar"@) {
        Some(3int)
    } else if seq_eq_ic(s, "Apr"@) {
        Some(4int)
    } else if seq_eq_ic(s, "May"@) {
        Some(5int)
    } else if seq_eq_ic(s, "Jun"@) {
        Some(6int)
    } else if seq_eq_ic(s, "Jul"@) {
        Some(7int)
    } else if seq_eq_ic(s, "Aug"@) {
        Some(8int)
    } else if seq_eq_ic(s, "Sep"@) {
        Some(9int)
    } else if seq_eq_ic(s, "Oct"@) {
        Some(10int)
    } else if seq_eq_ic(s, "Nov"@) {
        Some(11int)
    } else {
        if seq_eq_ic(s, "Dec"@) {
            Some(12int)
        } else {
            None
        }
    }
}

/// The date a `day-month-year` search token denotes: day `1..=31`,
/// a three-letter month name, and a year up to four digits.
pub open spec fn imap_date_of(s: Seq<char>) -> Option<Date> {
    let i = find_char(s, '-', 0);
    if i >= s.len() {
        None
    } else {
        let j = find_char(s, '-', i + 1);
        if j >= s.len() {
            None
        } else {
            let dpart = digits_val(s.take(i));
            let mpart = month_num(s.subrange(i + 1, j));
            let ypart = digits_val(s.skip(j + 1));
            if dpart is Some && mpart is Some && ypart is Some && 1 <= dpart->0 <= 31
                && ypart->0 <= 9999 {
                Some(
                    Date {
                        year: ypart->0 as i32,
                        month: mpart->0 as u32,
                        day: dpart->0 as u32,
                    },
                )
            } else {
                None
            }
        }
    }
}

fn month_token(s: &str, lo: usize, hi: usize) -> (r: Option<u32>)
    requires
        lo <= hi <= s@.len(),
    ensures
        match r {
            Some(m) => month_num(s@.subrange(lo as int, hi as int)) == Some(m as int),
            None => month_num(s@.subrange(lo as int, hi as int)) is None,
        },
{
    let part = s.substring_char(lo, hi);
    if crate::text::str_eq_ic(part, "Jan") {
        Some(1)
    } else if crate::text::str_eq_ic(part, "Feb") {
        Some(2)
    } else if crate::text::str_eq_ic(part, "Mar") {
        Some(3)
    } else if crate::text::str_eq_ic(part, "Apr") {
        Some(4)
    } else if crate::text::str_eq_ic(part, "May") {
        Some(5)
    } else if crate::text::str_eq_ic(part, "Jun") {
        Some(6)
    } else if crate::text::str_eq_ic(part, "Jul") {
        Some(7)
    } else if crate::text::str_eq_ic(part, "Aug") {
        Some(8)
    } else if crate::text::str_eq_ic(part, "Sep") {
        Some(9)
    } else if crate::text::str_eq_ic(part, "Oct") {
        Some(10)
    } else if crate::text::str_eq_ic(part, "Nov") {
        Some(11)
    } else if crate::text::str_eq_ic(part, "Dec") {
        Some(12)
    } else {
        None
    }
}

/// Parse a `day-month-year` search token into a date.
pub fn parse_imap_date(s: &str) -> (r: Option<Date>)
    ensures
        r == imap_date_of(s@),
{
    let n = s.unicode_len();
    let i = find_char_at(s, '-', 0);
    if i == n {
        return None;
    }
    let j = find_char_at(s, '-', i + 1);
    if j == n {
        return None;
    }
    let day = match parse_digits_capped(s, 0, i, 31) {
        Some(d) => d,
        None => {
            proof {
                assert(s@.subrange(0, i as int) =~= s@.take(i as int));
            }
            return None;
        }
    };
    proof {
        assert(s@.subrange(0, i as int) =~= s@.take(i as int));
    }
    if day < 1 {
        return None;
    }
    let month = match month_token(s, i + 1, j) {
        Some(m) => m,
        None => {
            return None;
        }
    };
    let year = match parse_digits_capped(s, j + 1, n, 9999) {
        Some(y) => y,
        None => {
            proof {
                assert(s@.subrange(j + 1 as int, n as int) =~= s@.skip(j + 1));
            }
            return None;
        }
    };
    proof {
        assert(s@.subrange(j + 1 as int, n as int) =~= s@.skip(j + 1));
    }
    Some(Date { year: year as i32, month, day })
}

// ── identifier sets ────────────────────────────────────────────────

/// The bound a set piece denotes: `*`, or a number.
pub open spec fn bound_of(s: Seq<char>) -> Option<UidBound> {
    if s =~= "*"@ {
        Some(UidBound::Star)
    } else if digits_val(s) matches Some(v) && v <= u32::MAX {
        Some(UidBound::Num(digits_val(s)->0 as u32))
    } else {
        None
    }
}

/// The entry a comma-separated piece denotes: a bound, or a
/// colon-separated range of two bounds.
pub open spec fn entry_of(s: Seq<char>) -> Option<UidEntry> {
    let c = find_char(s, ':', 0);
    if c >= s.len() {
        match bound_of(s) {
            Some(b) => Some(UidEntry::One(b)),
            None => None,
        }
    } else {
        let a = bound_of(s.take(c));
        let b = bound_of(s.skip(c + 1));
        if a is Some && b is Some {
            Some(UidEntry::Span(a->0, b->0))
        } else {
            None
        }
    }
}

/// The entries of a comma-separated identifier set; a piece that is
/// not a bound or range is ignored.
pub open spec fn entries_of(s: Seq<char>, from: int) -> Seq<UidEntry>
    recommends
        0 <= from <= s.len(),
    decreases s.len() - from when 0 <= from <= s.len() via entries_of_decreases
{
    let c = find_char(s, ',', from);
    let head = match entry_of(s.subrange(from, c)) {
        Some(e) => seq![e],
        None => Seq::<UidEntry>::empty(),
    };
    if c >= s.len() {
        head
    } else {
        head + entries_of(s, c + 1)
    }
}

#[via_fn]
proof fn entries_of_decreases(s: Seq<char>, from: int) {
    if 0 <= from <= s.len() {
        lemma_find_char(s, ',', from);
    }
}

fn bound_token(s: &str, lo: usize, hi: usize) -> (r: Option<UidBound>)
    requires
        lo <= hi <= s@.len(),
    ensures
        r == bound_of(s@.subrange(lo as int, hi as int)),
{
    let ghost piece = s@.subrange(lo as int, hi as int);
    if hi - lo == 1 && s.get_char(lo) == '*' {
        proof {
            reveal_strlit("*");
            assert(piece =~= "*"@);
        }
        return Some(UidBound::Star);
    }
    proof {
        reveal_strlit("*");
        assert(!(piece =~= "*"@)) by {
            if piece =~= "*"@ {
                assert(piece.len() == 1);
                assert(piece[0] == s@[lo as int]);
            }
        }
    }
    match parse_digits_capped(s, lo, hi, u32::MAX) {
        Some(v) => Some(UidBound::Num(v)),
        None => None,
    }
}

/// Parse a comma-separated identifier set token.
pub fn parse_uid_set(s: &str) -> (r: Vec<UidEntry>)
    ensures
        r@ == entries_of(s@, 0),
{
    let n = s.unicode_len();
    let mut r: Vec<UidEntry> = Vec::new();
    let mut from: usize = 0;
    proof {
        assert(r@ + entries_of(s@, 0) =~= entries_of(s@, 0));
    }
    loop
        invariant_except_break
            0 <= from <= n,
            n == s@.len(),
            entries_of(s@, 0) == r@ + entries_of(s@, from as int),
        ensures
            r@ == entries_of(s@, 0),
        decreases n - from,
    {
        let c = find_char_at(s, ',', from);
        proof {
            lemma_find_char(s@, ',', from as int);
        }
        let ghost piece = s@.subrange(from as int, c as int);
        let colon = find_char_at(s, ':', from);
        proof {
            lemma_find_piece(s@, from as int, c as int, ':');
        }
        let entry: Option<UidEntry> = if colon >= c {
            match bound_token(s, from, c) {
                Some(b) => Some(UidEntry::One(b)),
                None => None,
            }
        } else {
            proof {
                assert(find_char(piece, ':', 0) == colon - from);
                assert(piece.take(colon - from) =~= s@.subrange(from as int, colon as int));
                assert(piece.skip(colon - from + 1) =~= s@.subrange(colon + 1 as int, c as int));
            }
            let a = bound_token(s, from, colon);
            let b = bound_token(s, colon + 1, c);
            match (a, b) {
                (Some(ab), Some(bb)) => Some(UidEntry::Span(ab, bb)),
                _ => None,
            }
        };
        let ghost before = r@;
        match entry {
            Some(e) => {
                r.push(e);
                proof {
                    assert(r@ =~= before + seq![e]);
                }
            }
            None => {
                proof {
                    assert(r@ + Seq::<UidEntry>::empty() =~= r@);
                }
            }
        }
        proof {
            let head = match entry_of(piece) {
                Some(e) => seq![e],
                None => Seq::<UidEntry>::empty(),
            };
            assert(r@ =~= before + head);
            if (c as int) < s@.len() {
                assert(entries_of(s@, from as int) == head + entries_of(s@, c + 1 as int));
                assert((before + head) + entries_of(s@, c + 1 as int) =~= before + (head
                    + entries_of(s@, c + 1 as int)));
            } else {
                assert(entries_of(s@, from as int) == head);
            }
        }
        if c == n {
            break;
        }
        from = c + 1;
    }
    r
}

/// Scanning for `c` inside a piece that ends at the next comma (or
/// at a given stop) agrees with scanning the piece on its own.
proof fn lemma_find_piece(s: Seq<char>, from: int, stop: int, c: char)
    requires
        0 <= from <= stop <= s.len(),
        forall|k: int| from <= k < stop ==> s[k] != ',',
        c != ',',
    ensures
        ({
            let piece = s.subrange(from, stop);
            let f = find_char(s, c, from);
            if f < stop {
                find_char(piece, c, 0) == f - from
            } else {
                find_char(piece, c, 0) >= piece.len()
            }
        }),
{
    lemma_find_piece_aux(s, from, stop, c, from);
}

proof fn lemma_find_piece_aux(s: Seq<char>, from: int, stop: int, c: char, pos: int)
    requires
        0 <= from <= pos <= stop <= s.len(),
        c != ',',
    ensures
        ({
            let piece = s.subrange(from, stop);
            let f = find_char(s, c, pos);
            if f < stop {
                find_char(piece, c, pos - from) == f - from
            } else {
                find_char(piece, c, pos - from) >= piece.len()
            }
        }),
    decreases stop - pos,
{
    let piece = s.subrange(from, stop);
    if pos >= stop {
        lemma_find_char(piece, c, pos - from);
        lemma_find_char(s, c, pos);
        assert(find_char(piece, c, pos - from) >= piece.len());
    } else if s[pos] == c {
        assert(piece[pos - from] == s[pos]);
        assert(find_char(s, c, pos) == pos);
        assert(find_char(piece, c, pos - from) == pos - from);
    } else {
        assert(piece[pos - from] == s[pos]);
        assert(find_char(s, c, pos) == find_char(s, c, pos + 1));
        assert(find_char(piece, c, pos - from) == find_char(piece, c, pos + 1 - from));
        lemma_find_piece_aux(s, from, stop, c, pos + 1);
    }
}

// ── flag lists ─────────────────────────────────────────────────────

/// A flag token without leading opening or trailing closing
/// parentheses.
pub open spec fn strip_parens_front(s: Seq<char>) -> Seq<char>
    decreases s.len(),
{
    if s.len() > 0 && s[0] == '(' {
        strip_parens_front(s.drop_first())
    } else {
        s
    }
}

pub open spec fn strip_parens_back(s: Seq<char>) -> Seq<char>
    decreases s.len(),
{
    if s.len() > 0 && s.last() == ')' {
        strip_parens_back(s.drop_last())
    } else {
        s
    }
}

pub open spec fn strip_parens(s: Seq<char>) -> Seq<char> {
    strip_parens_back(strip_parens_front(s))
}

/// Which flag a (stripped) flag token denotes; an unrecognized token
/// is a keyword flag carrying the token unchanged.
pub open spec fn flag_matches(f: Flag, s: Seq<char>) -> bool {
    if seq_eq_ic(s, "\\Seen"@) {
        f is Seen
    } else if seq_eq_ic(s, "\\Answered"@) {
        f is Answered
    } else if seq_eq_ic(s, "\\Flagged"@) {
        f is Flagged
    } else if seq_eq_ic(s, "\\Deleted"@) {
        f is Deleted
    } else if seq_eq_ic(s, "\\Draft"@) {
        f is Draft
    } else {
        f matches Flag::Keyword(k) && k@ == s
    }
}

fn strip_parens_range(s: &str) -> (r: (usize, usize))
    ensures
        r.0 <= r.1 <= s@.len(),
        s@.subrange(r.0 as int, r.1 as int) == strip_parens(s@),
{
    let n = s.unicode_len();
    let mut a: usize = 0;
    proof {
        assert(s@.subrange(0, n as int) =~= s@);
    }
    while a < n && s.get_char(a) == '('
        invariant
            0 <= a <= n,
            n == s@.len(),
            strip_parens_front(s@) == strip_parens_front(s@.subrange(a as int, n as int)),
            s@.subrange(0, n as int) == s@,
        decreases n - a,
    {
        proof {
            assert(s@.subrange(a as int, n as int).drop_first() =~= s@.subrange(
                a + 1 as int,
                n as int,
            ));
            assert(s@.subrange(a as int, n as int)[0] == s@[a as int]);
        }
        a = a + 1;
    }
    proof {
        if a < n {
            assert(s@.subrange(a as int, n as int)[0] == s@[a as int]);
        }
        assert(strip_parens_front(s@.subrange(a as int, n as int)) == s@.subrange(
            a as int,
            n as int,
        ));
    }
    let mut b = n;
    while b > a && s.get_char(b - 1) == ')'
        invariant
            0 <= a <= b <= n,
            n == s@.len(),
            strip_parens_front(s@) == s@.subrange(a as int, n as int),
            strip_parens_back(s@.subrange(a as int, n as int)) == strip_parens_back(
                s@.subrange(a as int, b as int),
            ),
        decreases b - a,
    {
        proof {
            assert(s@.subrange(a as int, b as int).drop_last() =~= s@.subrange(
                a as int,
                b - 1 as int,
            ));
            assert(s@.subrange(a as int, b as int).last() == s@[b - 1]);
        }
        b = b - 1;
    }
    proof {
        if b > a {
            assert(s@.subrange(a as int, b as int).last() == s@[b - 1]);
        }
        assert(strip_parens_back(s@.subrange(a as int, b as int)) == s@.subrange(
            a as int,
            b as int,
        ));
    }
    (a, b)
}

fn parse_flag(tok: &str) -> (r: Flag)
    ensures
        flag_matches(r, strip_parens(tok@)),
{
    let (lo, hi) = strip_parens_range(tok);
    let stripped = tok.substring_char(lo, hi);
    if crate::text::str_eq_ic(stripped, "\\Seen") {
        Flag::Seen
    } else if crate::text::str_eq_ic(stripped, "\\Answered") {
        Flag::Answered
    } else if crate::text::str_eq_ic(stripped, "\\Flagged") {
        Flag::Flagged
    } else if crate::text::str_eq_ic(stripped, "\\Deleted") {
        Flag::Deleted
    } else if crate::text::str_eq_ic(stripped, "\\Draft") {
        Flag::Draft
    } else {
        Flag::Keyword(String::from_str(stripped))
    }
}

/// The views of a word list.
pub open spec fn word_views(ws: Seq<String>) -> Seq<Seq<char>> {
    ws.map_values(|t: String| t@)
}

/// Parse the flag tokens from `from` on, parentheses stripped.
fn parse_flags(ws: &Vec<String>, from: usize) -> (r: Vec<Flag>)
    requires
        from <= ws@.len(),
    ensures
        r@.len() == ws@.len() - from,
        forall|j: int|
            0 <= j < r@.len() ==> flag_matches(#[trigger] r@[j], strip_parens(ws@[from + j]@)),
{
    let mut r: Vec<Flag> = Vec::new();
    let mut i = from;
    while i < ws.len()
        invariant
            from <= i <= ws@.len(),
            r@.len() == i - from,
            forall|j: int|
                0 <= j < r@.len() ==> flag_matches(#[trigger] r@[j], strip_parens(ws@[from + j]@)),
        decreases ws@.len() - i,
    {
        let f = parse_flag(ws[i].as_str());
        r.push(f);
        i = i + 1;
    }
    r
}

// ── search criteria ────────────────────────────────────────────────

/// One simple criterion at word `i`: the flat criteria and the two
/// date bounds; anything else — a date that does not parse included
/// — is the permissive match-all.  Returns the criterion and the
/// next word index.
pub open spec fn simple_key(ws: Seq<Seq<char>>, i: int) -> (Pred, int)
    recommends
        0 <= i < ws.len(),
{
    let t = ws[i];
    if seq_eq_ic(t, "ALL"@) {
        (Pred::All, i + 1)
    } else if seq_eq_ic(t, "SEEN"@) {
        (Pred::Seen, i + 1)
    } else if seq_eq_ic(t, "UNSEEN"@) {
        (Pred::Unseen, i + 1)
    } else if seq_eq_ic(t, "SINCE"@) {
        if i + 1 < ws.len() {
            match imap_date_of(ws[i + 1]) {
                Some(d) => (Pred::Since(d), i + 2),
                None => (Pred::Other, i + 2),
            }
        } else {
            (Pred::Other, i + 1)
        }
    } else if seq_eq_ic(t, "BEFORE"@) {
        if i + 1 < ws.len() {
            match imap_date_of(ws[i + 1]) {
                Some(d) => (Pred::Before(d), i + 2),
                None => (Pred::Other, i + 2),
            }
        } else {
            (Pred::Other, i + 1)
        }
    } else {
        (Pred::Other, i + 1)
    }
}

/// One criterion at word `i`: negation and disjunction take simple
/// criteria as operands; everything else is a simple criterion.
pub open spec fn one_key(ws: Seq<Seq<char>>, i: int) -> (Pred, int)
    recommends
        0 <= i < ws.len(),
{
    let t = ws[i];
    if seq_eq_ic(t, "NOT"@) {
        if i + 1 < ws.len() {
            let pk = simple_key(ws, i + 1);
            (Pred::Not(Box::new(pk.0)), pk.1)
        } else {
            (Pred::Other, i + 1)
        }
    } else if seq_eq_ic(t, "OR"@) {
        if i + 1 < ws.len() {
            let a = simple_key(ws, i + 1);
            if a.1 < ws.len() {
                let b = simple_key(ws, a.1);
                (Pred::Or(Box::new(a.0), Box::new(b.0)), b.1)
            } else {
                (Pred::Other, a.1)
            }
        } else {
            (Pred::Other, i + 1)
        }
    } else {
        simple_key(ws, i)
    }
}

/// A simple criterion always advances, and never past the words.
pub proof fn lemma_simple_key_step(ws: Seq<Seq<char>>, i: int)
    requires
        0 <= i < ws.len(),
    ensures
        i < simple_key(ws, i).1 <= ws.len(),
{
}

/// A criterion always advances, and never past the words.
pub proof fn lemma_one_key_step(ws: Seq<Seq<char>>, i: int)
    requires
        0 <= i < ws.len(),
    ensures
        i < one_key(ws, i).1 <= ws.len(),
{
    if seq_eq_ic(ws[i], "NOT"@) {
        if i + 1 < ws.len() {
            lemma_simple_key_step(ws, i + 1);
        }
    } else if seq_eq_ic(ws[i], "OR"@) {
        if i + 1 < ws.len() {
            lemma_simple_key_step(ws, i + 1);
            if simple_key(ws, i + 1).1 < ws.len() {
                lemma_simple_key_step(ws, simple_key(ws, i + 1).1);
            }
        }
    } else {
        lemma_simple_key_step(ws, i);
    }
}

/// The criteria denoted by the words from `i` on.
pub open spec fn keys_from(ws: Seq<Seq<char>>, i: int) -> Seq<Pred>
    recommends
        0 <= i <= ws.len(),
    decreases ws.len() - i when 0 <= i <= ws.len() via keys_from_decreases
{
    if i >= ws.len() {
        Seq::empty()
    } else {
        let ok = one_key(ws, i);
        seq![ok.0] + keys_from(ws, ok.1)
    }
}

#[via_fn]
proof fn keys_from_decreases(ws: Seq<Seq<char>>, i: int) {
    if 0 <= i < ws.len() {
        lemma_one_key_step(ws, i);
    }
}

fn simple_key_exec(ws: &Vec<String>, i: usize) -> (r: (Pred, usize))
    requires
        i < ws@.len(),
    ensures
        r.0 == simple_key(word_views(ws@), i as int).0,
        r.1 as int == simple_key(word_views(ws@), i as int).1,
{
    let nl = ws.len();
    let t = ws[i].as_str();
    if crate::text::str_eq_ic(t, "ALL") {
        (Pred::All, i + 1)
    } else if crate::text::str_eq_ic(t, "SEEN") {
        (Pred::Seen, i + 1)
    } else if crate::text::str_eq_ic(t, "UNSEEN") {
        (Pred::Unseen, i + 1)
    } else if crate::text::str_eq_ic(t, "SINCE") {
        if i + 1 < ws.len() {
            match parse_imap_date(ws[i + 1].as_str()) {
                Some(d) => (Pred::Since(d), i + 2),
                None => (Pred::Other, i + 2),
            }
        } else {
            (Pred::Other, i + 1)
        }
    } else if crate::text::str_eq_ic(t, "BEFORE") {
        if i + 1 < ws.len() {
            match parse_imap_date(ws[i + 1].as_str()) {
                Some(d) => (Pred::Before(d), i + 2),
                None => (Pred::Other, i + 2),
            }
        } else {
            (Pred::Other, i + 1)
        }
    } else {
        (Pred::Other, i + 1)
    }
}

fn one_key_exec(ws: &Vec<String>, i: usize) -> (r: (Pred, usize))
    requires
        i < ws@.len(),
    ensures
        r.0 == one_key(word_views(ws@), i as int).0,
        r.1 as int == one_key(word_views(ws@), i as int).1,
{
    let nl = ws.len();
    let t = ws[i].as_str();
    if crate::text::str_eq_ic(t, "NOT") {
        if i + 1 < ws.len() {
            let pk = simple_key_exec(ws, i + 1);
            (Pred::Not(Box::new(pk.0)), pk.1)
        } else {
            (Pred::Other, i + 1)
        }
    } else if crate::text::str_eq_ic(t, "OR") {
        if i + 1 < ws.len() {
            let a = simple_key_exec(ws, i + 1);
            proof {
                lemma_simple_key_step(word_views(ws@), i + 1);
            }
            if a.1 < ws.len() {
                let b = simple_key_exec(ws, a.1);
                (Pred::Or(Box::new(a.0), Box::new(b.0)), b.1)
            } else {
                (Pred::Other, a.1)
            }
        } else {
            (Pred::Other, i + 1)
        }
    } else {
        simple_key_exec(ws, i)
    }
}

/// Parse the criteria from word `from` on.
fn parse_criteria(ws: &Vec<String>, from: usize) -> (r: Vec<Pred>)
    requires
        from <= ws@.len(),
    ensures
        r@ == keys_from(word_views(ws@), from as int),
{
    let mut r: Vec<Pred> = Vec::new();
    let mut i = from;
    proof {
        assert(r@ + keys_from(word_views(ws@), from as int) =~= keys_from(
            word_views(ws@),
            from as int,
        ));
    }
    while i < ws.len()
        invariant
            from <= i <= ws@.len(),
            keys_from(word_views(ws@), from as int) == r@ + keys_from(word_views(ws@), i as int),
        decreases ws@.len() - i,
    {
        let pk = one_key_exec(ws, i);
        proof {
            lemma_one_key_step(word_views(ws@), i as int);
        }
        let ghost before = r@;
        r.push(pk.0);
        proof {
            let wv = word_views(ws@);
            assert(keys_from(wv, i as int) == seq![one_key(wv, i as int).0] + keys_from(
                wv,
                one_key(wv, i as int).1,
            ));
            assert(r@ =~= before + seq![one_key(wv, i as int).0]);
            assert((before + seq![one_key(wv, i as int).0]) + keys_from(
                wv,
                one_key(wv, i as int).1,
            ) =~= before + (seq![one_key(wv, i as int).0] + keys_from(
                wv,
                one_key(wv, i as int).1,
            )));
        }
        i = pk.1;
    }
    proof {
        assert(keys_from(word_views(ws@), i as int) =~= Seq::<Pred>::empty());
        assert(r@ + Seq::<Pred>::empty() =~= r@);
    }
    r
}

// ── whole commands ─────────────────────────────────────────────────

/// The folder name of a select command: everything after the first
/// space, surrounding quotes trimmed; empty when the command has no
/// argument.
pub open spec fn select_name(rest: Seq<char>) -> Seq<char> {
    let e = find_char(rest, ' ', 0);
    if e < rest.len() {
        unquote(rest.skip(e + 1))
    } else {
        Seq::empty()
    }
}

/// The store operation a store argument token denotes, and whether
/// echoes are suppressed.
pub open spec fn store_op_of(t: Seq<char>) -> Option<(StoreOp, bool)> {
    if seq_eq_ic(t, "+FLAGS"@) {
        Some((StoreOp::Add, false))
    } else if seq_eq_ic(t, "+FLAGS.SILENT"@) {
        Some((StoreOp::Add, true))
    } else if seq_eq_ic(t, "-FLAGS"@) {
        Some((StoreOp::Remove, false))
    } else if seq_eq_ic(t, "-FLAGS.SILENT"@) {
        Some((StoreOp::Remove, true))
    } else if seq_eq_ic(t, "FLAGS"@) {
        Some((StoreOp::Replace, false))
    } else if seq_eq_ic(t, "FLAGS.SILENT"@) {
        Some((StoreOp::Replace, true))
    } else {
        None
    }
}

/// Split a line into its tag and the rest: the tag is everything
/// before the first space.  A line without a space yields no split.
pub fn split_tag(line: &str) -> (r: Option<(String, String)>)
    ensures
        ({
            let e = find_char(line@, ' ', 0);
            match r {
                Some(parts) => e < line@.len() && parts.0@ == line@.take(e) && parts.1@
                    == line@.skip(e + 1),
                None => e >= line@.len(),
            }
        }),
{
    let n = line.unicode_len();
    let e = find_char_at(line, ' ', 0);
    if e == n {
        return None;
    }
    let tag = String::from_str(line.substring_char(0, e));
    let rest = String::from_str(line.substring_char(e + 1, n));
    proof {
        assert(line@.subrange(0, e as int) =~= line@.take(e as int));
        assert(line@.subrange(e + 1 as int, n as int) =~= line@.skip(e + 1));
    }
    Some((tag, rest))
}

/// What the request parser returns for a command body: the first
/// word decides the command, matched without regard to ASCII case;
/// message-level commands are introduced by `UID`; anything else —
/// a `UID` command with too few words included — is the unknown
/// request, which the dispatcher refuses without crashing the
/// session.
pub open spec fn parsed_request(rest: Seq<char>, r: Request) -> bool {
    let ws = words(rest);
            if ws.len() == 0 {
                r is Unknown
            } else if seq_eq_ic(ws[0], "CAPABILITY"@) {
                r is Capability
            } else if seq_eq_ic(ws[0], "NOOP"@) {
                r is Noop
            } else if seq_eq_ic(ws[0], "LOGIN"@) {
                r is Login
            } else if seq_eq_ic(ws[0], "LIST"@) {
                r is List
            } else if seq_eq_ic(ws[0], "LOGOUT"@) {
                r is Logout
            } else if seq_eq_ic(ws[0], "EXPUNGE"@) {
                r is Expunge
            } else if seq_eq_ic(ws[0], "SELECT"@) {
                r matches Request::Select(name) && name@ == select_name(rest)
            } else if seq_eq_ic(ws[0], "UID"@) && ws.len() >= 2 {
                if seq_eq_ic(ws[1], "SEARCH"@) {
                    r matches Request::Search(crit) && crit@ == keys_from(ws, 2)
                } else if seq_eq_ic(ws[1], "FETCH"@) && ws.len() >= 3 {
                    r matches Request::Fetch(set) && set@ == entries_of(ws[2], 0)
                } else if seq_eq_ic(ws[1], "COPY"@) && ws.len() >= 4 {
                    r matches Request::Copy { set, dest } && set@ == entries_of(ws[2], 0)
                        && dest@ == unquote(ws[3])
                } else if seq_eq_ic(ws[1], "STORE"@) && ws.len() >= 4 && store_op_of(
                    ws[3],
                ) is Some {
                    r matches Request::Store { set, op, flags, silent } && set@ == entries_of(
                        ws[2],
                        0,
                    ) && Some((op, silent)) == store_op_of(ws[3]) && flags@.len() == ws.len() - 4
                        && (forall|j: int|
                        0 <= j < flags@.len() ==> flag_matches(
                            #[trigger] flags@[j],
                            strip_parens(ws[4 + j]),
                        ))
                } else {
                    r is Unknown
                }
            } else {
                r is Unknown
            }
}

/// Parse one command body into a structured request.
pub fn parse_request(rest: &str) -> (r: Request)
    ensures
        parsed_request(rest@, r),
{
    let ws = tokenize(rest);
    proof {
        assert(word_views(ws@) =~= words(rest@));
    }
    if ws.len() == 0 {
        return Request::Unknown;
    }
    let kw = ws[0].as_str();
    if crate::text::str_eq_ic(kw, "CAPABILITY") {
        Request::Capability
    } else if crate::text::str_eq_ic(kw, "NOOP") {
        Request::Noop
    } else if crate::text::str_eq_ic(kw, "LOGIN") {
        Request::Login
    } else if crate::text::str_eq_ic(kw, "LIST") {
        Request::List
    } else if crate::text::str_eq_ic(kw, "LOGOUT") {
        Request::Logout
    } else if crate::text::str_eq_ic(kw, "EXPUNGE") {
        Request::Expunge
    } else if crate::text::str_eq_ic(kw, "SELECT") {
        let n = rest.unicode_len();
        let e = find_char_at(rest, ' ', 0);
        if e == n {
            let name = String::new();
            Request::Select(name)
        } else {
            let (lo, hi) = unquote_range(rest, e + 1, n);
            proof {
                assert(rest@.subrange(e + 1 as int, n as int) =~= rest@.skip(e + 1));
            }
            let name = String::from_str(rest.substring_char(lo, hi));
            Request::Select(name)
        }
    } else if crate::text::str_eq_ic(kw, "UID") && ws.len() >= 2 {
        let sub = ws[1].as_str();
        if crate::text::str_eq_ic(sub, "SEARCH") {
            let crit = parse_criteria(&ws, 2);
            Request::Search(crit)
        } else if crate::text::str_eq_ic(sub, "FETCH") && ws.len() >= 3 {
            let set = parse_uid_set(ws[2].as_str());
            Request::Fetch(set)
        } else if crate::text::str_eq_ic(sub, "COPY") && ws.len() >= 4 {
            let set = parse_uid_set(ws[2].as_str());
            let d = ws[3].as_str();
            let dn = d.unicode_len();
            let (lo, hi) = unquote_range(d, 0, dn);
            proof {
                assert(d@.subrange(0, dn as int) =~= d@);
            }
            let dest = String::from_str(d.substring_char(lo, hi));
            Request::Copy { set, dest }
        } else if crate::text::str_eq_ic(sub, "STORE") && ws.len() >= 4 {
            let set = parse_uid_set(ws[2].as_str());
            let opt = ws[3].as_str();
            let parsed: Option<(StoreOp, bool)> = if crate::text::str_eq_ic(opt, "+FLAGS") {
                Some((StoreOp::Add, false))
            } else if crate::text::str_eq_ic(opt, "+FLAGS.SILENT") {
                Some((StoreOp::Add, true))
            } else if crate::text::str_eq_ic(opt, "-FLAGS") {
                Some((StoreOp::Remove, false))
            } else if crate::text::str_eq_ic(opt, "-FLAGS.SILENT") {
                Some((StoreOp::Remove, true))
            } else if crate::text::str_eq_ic(opt, "FLAGS") {
                Some((StoreOp::Replace, false))
            } else if crate::text::str_eq_ic(opt, "FLAGS.SILENT") {
                Some((StoreOp::Replace, true))
            } else {
                None
            };
            match parsed {
                Some(ob) => {
                    let flags = parse_flags(&ws, 4);
                    Request::Store { set, op: ob.0, flags, silent: ob.1 }
                }
                None => Request::Unknown,
            }
        } else {
            Request::Unknown
        }
    } else {
        Request::Unknown
    }
}

} // verus!
