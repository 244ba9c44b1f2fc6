//! Decoding of length-prefixed literals, and the proof that the
//! framer's declared count is exact.
//!
//! A literal header line ends in `{<count>}\r\n`; the decoder reads
//! the count, then exactly that many raw bytes, regardless of their
//! content.  An undercounted literal would desynchronise the whole
//! connection, so the count declared by the framer is proved equal
//! to the byte length of the payload that follows it.

use vstd::prelude::*;
use crate::reply::fetch_header;
use crate::text::{dec_digit, dec_rep};

verus! {

/// Whether a character is a decimal digit.
pub open spec fn is_digit(c: char) -> bool {
    '0' <= c && c <= '9'
}

/// The value of a decimal digit character.
pub open spec fn digit_val(c: char) -> int {
    c as int - 48
}

/// The number a digit string denotes, most significant digit first.
pub open spec fn dec_val(s: Seq<char>) -> int
    decreases s.len(),
{
    if s.len() == 0 {
        0int
    } else {
        dec_val(s.drop_last()) * 10 + digit_val(s.last())
    }
}

/// Every character of a decimal rendering is a digit.
pub proof fn lemma_dec_rep_digits(n: nat)
    ensures
        forall|i: int| 0 <= i < dec_rep(n).len() ==> is_digit(#[trigger] dec_rep(n)[i]),
    decreases n,
{
    if n < 10 {
    } else {
        lemma_dec_rep_digits(n / 10);
        assert forall|i: int| 0 <= i < dec_rep(n).len() implies is_digit(
            #[trigger] dec_rep(n)[i],
        ) by {
            if i < dec_rep(n / 10).len() {
                assert(dec_rep(n)[i] == dec_rep(n / 10)[i]);
            }
        }
    }
}

/// A digit character reads back as the digit it renders.
pub proof fn lemma_digit_val(d: int)
    requires
        0 <= d <= 9,
    ensures
        digit_val(dec_digit(d)) == d,
        is_digit(dec_digit(d)),
{
    assert('0' as int == 48 && '1' as int == 49 && '2' as int == 50 && '3' as int == 51
        && '4' as int == 52 && '5' as int == 53 && '6' as int == 54 && '7' as int == 55
        && '8' as int == 56 && '9' as int == 57);
}

/// Reading back a decimal rendering gives the number it renders.
pub proof fn lemma_dec_val_of_rep(n: nat)
    ensures
        dec_val(dec_rep(n)) == n,
    decreases n,
{
    if n < 10 {
        lemma_digit_val(n as int);
        let s = dec_rep(n);
        assert(s == seq![dec_digit(n as int)]);
        assert(s.last() == dec_digit(n as int));
        assert(s.drop_last() =~= Seq::<char>::empty());
        assert(dec_val(s) == dec_val(s.drop_last()) * 10 + digit_val(s.last()));
        assert(dec_val(s.drop_last()) == 0);
    } else {
        lemma_dec_val_of_rep(n / 10);
        lemma_digit_val((n % 10) as int);
        let s = dec_rep(n);
        assert(s == dec_rep(n / 10).push(dec_digit((n % 10) as int)));
        assert(s.last() == dec_digit((n % 10) as int));
        assert(s.drop_last() =~= dec_rep(n / 10));
        assert(dec_val(s) == dec_val(dec_rep(n / 10)) * 10 + (n % 10));
        assert(n == (n / 10) * 10 + (n % 10)) by (nonlinear_arith);
    }
}

/// The start of the maximal run of digits at the end of `s`.
pub open spec fn digit_run_start(s: Seq<char>) -> int
    decreases s.len(),
{
    if s.len() > 0 && is_digit(s.last()) {
        digit_run_start(s.drop_last())
    } else {
        s.len() as int
    }
}

pub proof fn lemma_digit_run_start(s: Seq<char>)
    ensures
        0 <= digit_run_start(s) <= s.len(),
        forall|i: int| digit_run_start(s) <= i < s.len() ==> is_digit(s[i]),
        digit_run_start(s) > 0 ==> !is_digit(s[digit_run_start(s) - 1]),
    decreases s.len(),
{
    if s.len() > 0 && is_digit(s.last()) {
        lemma_digit_run_start(s.drop_last());
        assert forall|i: int| digit_run_start(s) <= i < s.len() implies is_digit(s[i]) by {
            if i < s.len() - 1 {
                assert(s.drop_last()[i] == s[i]);
            }
        }
        if digit_run_start(s) > 0 {
            assert(s.drop_last()[digit_run_start(s) - 1] == s[digit_run_start(s) - 1]);
        }
    }
}

/// Appending digits to a string whose last character is not a digit
/// puts the run start exactly at the join.
pub proof fn lemma_digit_run_append(a: Seq<char>, d: Seq<char>)
    requires
        forall|i: int| 0 <= i < d.len() ==> is_digit(#[trigger] d[i]),
        a.len() == 0 || !is_digit(a.last()),
    ensures
        digit_run_start(a + d) == a.len(),
    decreases d.len(),
{
    if d.len() == 0 {
        assert(a + d =~= a);
        if a.len() > 0 {
            assert(!is_digit((a + d).last()));
        }
    } else {
        let d2 = d.drop_last();
        assert((a + d).drop_last() =~= a + d2);
        assert(is_digit((a + d).last()));
        lemma_digit_run_append(a, d2);
    }
}

/// The count declared by a literal header line: the line must end
/// in `}\r\n`; the maximal digit run before the brace, itself
/// preceded by `{`, is the count.
pub open spec fn literal_count(line: Seq<char>) -> Option<int> {
    if line.len() >= 4 && line.skip(line.len() - 3) == "}\r\n"@ {
        let body = line.take(line.len() - 3);
        let k = digit_run_start(body);
        if 0 < k < body.len() && body[k - 1] == '{' {
            Some(dec_val(body.skip(k)))
        } else {
            None
        }
    } else {
        None
    }
}

/// The literal framer is exact: the count a fetch header declares is
/// the byte length of the payload that follows it.
pub proof fn lemma_literal_count_exact(pos: int, uid: int, count: int)
    requires
        pos >= 0,
        uid >= 0,
        count >= 0,
    ensures
        literal_count(fetch_header(pos, uid, count)) == Some(count),
{
    reveal_strlit("* ");
    reveal_strlit(" FETCH (UID ");
    reveal_strlit(" BODY[] {");
    reveal_strlit("}\r\n");
    let h = fetch_header(pos, uid, count);
    let pre = "* "@ + dec_rep(pos as nat) + " FETCH (UID "@ + dec_rep(uid as nat)
        + " BODY[] {"@;
    let d = dec_rep(count as nat);
    assert(h =~= pre + d + "}\r\n"@);
    assert(h.len() == pre.len() + d.len() + 3);
    assert(h.skip(h.len() - 3) =~= "}\r\n"@);
    let body = h.take(h.len() - 3);
    assert(body =~= pre + d);
    lemma_dec_rep_digits(count as nat);
    assert(pre.last() == '{');
    assert(!is_digit('{'));
    lemma_digit_run_append(pre, d);
    assert(digit_run_start(body) == pre.len());
    assert(pre.len() > 0);
    assert(body[pre.len() - 1] == '{');
    assert(d.len() > 0);
    assert(body.skip(pre.len() as int) =~= d);
    lemma_dec_val_of_rep(count as nat);
}

/// Read the count a literal header line declares, if the line is a
/// well-formed literal header.
pub fn parse_literal_count(line: &str) -> (r: Option<usize>)
    ensures
        match r {
            Some(n) => literal_count(line@) == Some(n as int),
            None => literal_count(line@) is None || (literal_count(line@) matches Some(v) && v
                > usize::MAX),
        },
{
    let n = line.unicode_len();
    if n < 4 {
        return None;
    }
    if !(line.get_char(n - 3) == '}' && line.get_char(n - 2) == '\r' && line.get_char(n - 1)
        == '\n') {
        proof {
            reveal_strlit("}\r\n");
            assert(line@.skip(n - 3) != "}\r\n"@) by {
                if line@.skip(n - 3) == "}\r\n"@ {
                    assert(line@.skip(n - 3)[0] == line@[n - 3]);
                    assert(line@.skip(n - 3)[1] == line@[n - 2]);
                    assert(line@.skip(n - 3)[2] == line@[n - 1]);
                }
            }
        }
        return None;
    }
    proof {
        reveal_strlit("}\r\n");
        assert(line@.skip(n - 3) =~= "}\r\n"@);
    }
    let ghost body = line@.take(n - 3);
    // scan the digit run backwards from the closing brace
    let mut k: usize = n - 3;
    loop
        invariant
            0 <= k <= n - 3,
            n == line@.len(),
            n >= 4,
            line@.skip(n - 3) == "}\r\n"@,
            body == line@.take(n - 3),
            digit_run_start(body) == digit_run_start(line@.take(k as int)),
        ensures
            0 <= k <= n - 3,
            k == 0 || !is_digit(line@[k - 1]),
            digit_run_start(body) == digit_run_start(line@.take(k as int)),
        decreases k,
    {
        if k == 0 {
            break;
        }
        let c = line.get_char(k - 1);
        proof {
            assert(line@.take(k as int).last() == line@[k - 1]);
        }
        if !('0' <= c && c <= '9') {
            break;
        }
        proof {
            assert(line@.take(k as int).drop_last() =~= line@.take(k - 1 as int));
        }
        k = k - 1;
    }
    proof {
        if k > 0 {
            assert(line@.take(k as int).last() == line@[k - 1]);
        }
        assert(digit_run_start(line@.take(k as int)) == k);
        lemma_digit_run_start(body);
    }
    if k == 0 || k == n - 3 {
        proof {
            assert(literal_count(line@) is None);
        }
        return None;
    }
    if line.get_char(k - 1) != '{' {
        proof {
            assert(body[k - 1 as int] == line@[k - 1 as int]);
            assert(literal_count(line@) is None);
        }
        return None;
    }
    let ghost digits = body.skip(k as int);
    proof {
        assert(body[k - 1 as int] == line@[k - 1 as int]);
        assert(literal_count(line@) == Some(dec_val(digits)));
        assert forall|j: int| k <= j < n - 3 implies is_digit(#[trigger] line@[j]) by {
            assert(body[j] == line@[j]);
        }
        assert forall|j: int| 0 <= j < digits.len() implies is_digit(#[trigger] digits[j]) by {
            assert(digits[j] == line@[j + k]);
        }
        assert(digits.take(0) =~= Seq::<char>::empty());
    }
    // read the digits
    let mut val: u64 = 0;
    let mut i: usize = k;
    while i < n - 3
        invariant
            k <= i <= n - 3,
            0 < k,
            n == line@.len(),
            n >= 4,
            literal_count(line@) == Some(dec_val(digits)),
            digits == line@.take(n - 3).skip(k as int),
            digits.len() == n - 3 - k,
            forall|j: int| k <= j < n - 3 ==> is_digit(#[trigger] line@[j]),
            forall|j: int| 0 <= j < digits.len() ==> is_digit(#[trigger] digits[j]),
            val as int == dec_val(digits.take(i - k)),
            val <= usize::MAX as u64,
        decreases n - 3 - i,
    {
        let c = line.get_char(i);
        proof {
            assert(line@[i as int] == digits[i - k]);
            assert(is_digit(line@[i as int]));
            assert(digits.take(i + 1 - k).drop_last() =~= digits.take(i - k));
            assert(digits.take(i + 1 - k).last() == digits[i - k]);
        }
        let d = (c as u32) - 48;
        if val > ((usize::MAX as u64) - (d as u64)) / 10 {
            // the declared count does not fit the machine
            proof {
                let m = usize::MAX as int;
                assert(val * 10 + d > m) by (nonlinear_arith)
                    requires
                        val > (m - d) / 10,
                        0 <= d <= 9,
                        m > 100,
                        val >= 0,
                ;
                lemma_dec_val_prefix_le(digits, i + 1 - k);
            }
            return None;
        }
        proof {
            let m = usize::MAX as int;
            assert(val * 10 + d <= m) by (nonlinear_arith)
                requires
                    val <= (m - d) / 10,
                    0 <= d <= 9,
                    m > 100,
                    val >= 0,
            ;
        }
        val = val * 10 + (d as u64);
        i = i + 1;
    }
    proof {
        assert(digits.take(digits.len() as int) =~= digits);
    }
    Some(val as usize)
}

/// A digit string's value only grows as digits are appended.
pub proof fn lemma_dec_val_prefix_le(s: Seq<char>, m: int)
    requires
        0 <= m <= s.len(),
        forall|i: int| 0 <= i < s.len() ==> is_digit(#[trigger] s[i]),
    ensures
        dec_val(s) >= dec_val(s.take(m)),
        dec_val(s) >= 0,
    decreases s.len() - m,
{
    if m == s.len() {
        assert(s.take(m) =~= s);
        lemma_dec_val_nonneg(s);
    } else {
        lemma_dec_val_prefix_le(s, m + 1);
        assert(s.take(m + 1).drop_last() =~= s.take(m));
        assert(is_digit(s.take(m + 1).last()));
        lemma_dec_val_nonneg(s.take(m));
    }
}

/// A digit string's value is never negative.
pub proof fn lemma_dec_val_nonneg(s: Seq<char>)
    requires
        forall|i: int| 0 <= i < s.len() ==> is_digit(#[trigger] s[i]),
    ensures
        dec_val(s) >= 0,
    decreases s.len(),
{
    if s.len() > 0 {
        assert forall|i: int| 0 <= i < s.drop_last().len() implies is_digit(
            #[trigger] s.drop_last()[i],
        ) by {
            assert(s.drop_last()[i] == s[i]);
        }
        lemma_dec_val_nonneg(s.drop_last());
    }
}

} // verus!
