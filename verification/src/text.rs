//! Small verified string helpers shared by the parsing code:
//! ASCII-whitespace trimming, decimal literals, and character search.

use vstd::prelude::*;
use vstd::string::StrSliceExecFns;

verus! {

/// ASCII whitespace, as trimming removes it: space, tab, and the ASCII
/// control characters line feed, vertical tab, form feed and carriage
/// return.
pub open spec fn spec_is_ascii_ws(c: char) -> bool {
    c == ' ' || c == '\t' || c == '\n' || c == '\r' || c == '\u{b}' || c == '\u{c}'
}

/// The string with leading whitespace removed.
pub open spec fn spec_trim_start(s: Seq<char>) -> Seq<char>
    decreases s.len(),
{
    if s.len() > 0 && spec_is_ascii_ws(s.first()) {
        spec_trim_start(s.drop_first())
    } else {
        s
    }
}

/// The string with trailing whitespace removed.
pub open spec fn spec_trim_end(s: Seq<char>) -> Seq<char>
    decreases s.len(),
{
    if s.len() > 0 && spec_is_ascii_ws(s.last()) {
        spec_trim_end(s.drop_last())
    } else {
        s
    }
}

/// The string with whitespace removed from both ends.
pub open spec fn spec_trim(s: Seq<char>) -> Seq<char> {
    spec_trim_start(spec_trim_end(s))
}

/// Whether `c` is an ASCII whitespace character.
pub fn is_ascii_ws(c: char) -> (r: bool)
    ensures
        r == spec_is_ascii_ws(c),
{
    c == ' ' || c == '\t' || c == '\n' || c == '\r' || c == '\u{b}' || c == '\u{c}'
}

/// Trim ASCII whitespace from both ends.
pub fn trim_str<'a>(s: &'a str) -> (t: &'a str)
    ensures
        t@ == spec_trim(s@),
{
    let mut hi: usize = s.unicode_len();
    proof {
        assert(s@.subrange(0, s@.len() as int) =~= s@);
    }
    loop
        invariant
            0 <= hi <= s@.len(),
            spec_trim_end(s@) == spec_trim_end(s@.subrange(0, hi as int)),
        ensures
            0 <= hi <= s@.len(),
            spec_trim_end(s@) == s@.subrange(0, hi as int),
        decreases hi,
    {
        if hi == 0 {
            proof {
                assert(s@.subrange(0, 0) =~= Seq::<char>::empty());
            }
            break ;
        }
        let c = s.get_char(hi - 1);
        proof {
            assert(s@.subrange(0, hi as int).last() == s@[hi - 1]);
            assert(s@.subrange(0, hi as int).drop_last() =~= s@.subrange(0, hi - 1));
        }
        if !is_ascii_ws(c) {
            break ;
        }
        hi -= 1;
    }
    let ghost trimmed_end = s@.subrange(0, hi as int);
    let mut lo: usize = 0;
    loop
        invariant
            0 <= lo <= hi <= s@.len(),
            trimmed_end == s@.subrange(0, hi as int),
            spec_trim_end(s@) == trimmed_end,
            spec_trim_start(trimmed_end) == spec_trim_start(s@.subrange(lo as int, hi as int)),
        ensures
            0 <= lo <= hi <= s@.len(),
            spec_trim_start(trimmed_end) == s@.subrange(lo as int, hi as int),
        decreases hi - lo,
    {
        if lo == hi {
            proof {
                assert(s@.subrange(lo as int, hi as int) =~= Seq::<char>::empty());
            }
            break ;
        }
        let c = s.get_char(lo);
        proof {
            assert(s@.subrange(lo as int, hi as int).first() == s@[lo as int]);
            assert(s@.subrange(lo as int, hi as int).drop_first() =~= s@.subrange(
                lo + 1,
                hi as int,
            ));
        }
        if !is_ascii_ws(c) {
            break ;
        }
        lo += 1;
    }
    s.substring_char(lo, hi)
}

/// Whether `c` is a decimal digit.
pub open spec fn spec_is_digit(c: char) -> bool {
    '0' as u32 <= c as u32 && c as u32 <= '9' as u32
}

/// The numeric value of a digit string, most significant digit first.
pub open spec fn spec_digits_val(s: Seq<char>) -> int
    decreases s.len(),
{
    if s.len() == 0 {
        0
    } else {
        spec_digits_val(s.drop_last()) * 10 + (s.last() as u32 - 48)
    }
}

/// The digit part of an unsigned decimal literal: everything after an
/// optional leading `+`.
pub open spec fn spec_u64_digits(s: Seq<char>) -> Seq<char> {
    if s.len() > 0 && s.first() == '+' {
        s.drop_first()
    } else {
        s
    }
}

/// Whether the string is an unsigned decimal literal whose value fits in
/// 64 bits: an optional `+`, then at least one digit, nothing else.
pub open spec fn spec_parse_u64_ok(s: Seq<char>) -> bool {
    let d = spec_u64_digits(s);
    &&& d.len() > 0
    &&& forall|i: int| 0 <= i < d.len() ==> spec_is_digit(#[trigger] d[i])
    &&& spec_digits_val(d) <= u64::MAX
}

/// A digit string's value is non-negative.
proof fn lemma_digits_val_nonneg(s: Seq<char>)
    requires
        forall|i: int| 0 <= i < s.len() ==> spec_is_digit(#[trigger] s[i]),
    ensures
        spec_digits_val(s) >= 0,
    decreases s.len(),
{
    if s.len() > 0 {
        lemma_digits_val_nonneg(s.drop_last());
    }
}

/// A digit string's value only grows as digits are appended: any prefix
/// values at most the whole.
proof fn lemma_digits_val_prefix_le(s: Seq<char>, k: int)
    requires
        forall|i: int| 0 <= i < s.len() ==> spec_is_digit(#[trigger] s[i]),
        0 <= k <= s.len(),
    ensures
        spec_digits_val(s.subrange(0, k)) <= spec_digits_val(s),
    decreases s.len() - k,
{
    if k == s.len() {
        assert(s.subrange(0, k) =~= s);
    } else {
        lemma_digits_val_prefix_le(s, k + 1);
        let t = s.subrange(0, k + 1);
        assert(t.drop_last() =~= s.subrange(0, k));
        assert(t.last() == s[k]);
        lemma_digits_val_nonneg(s.subrange(0, k));
    }
}

/// Parse an unsigned decimal literal, with an optional leading `+`,
/// rejecting anything else and any value beyond 64 bits.
pub fn parse_u64(s: &str) -> (r: Option<u64>)
    ensures
        r is Some <==> spec_parse_u64_ok(s@),
        r matches Some(v) ==> v == spec_digits_val(spec_u64_digits(s@)),
{
    let n = s.unicode_len();
    let mut start: usize = 0;
    if n > 0 {
        let c = s.get_char(0);
        if c == '+' {
            start = 1;
        }
    }
    let ghost d = spec_u64_digits(s@);
    proof {
        assert(d =~= s@.subrange(start as int, n as int));
    }
    if start >= n {
        return None;
    }
    let mut v: u64 = 0;
    let mut j: usize = start;
    while j < n
        invariant
            0 <= start <= j <= n,
            n == s@.len(),
            d == spec_u64_digits(s@),
            d == s@.subrange(start as int, n as int),
            forall|i: int| start <= i < j ==> spec_is_digit(#[trigger] s@[i]),
            v == spec_digits_val(s@.subrange(start as int, j as int)),
        decreases n - j,
    {
        let c = s.get_char(j);
        let u = c as u32;
        if u < 48 || u > 57 {
            proof {
                assert(d[j - start] == s@[j as int]);
                assert(!spec_is_digit(s@[j as int]));
                assert(0 <= j - start < d.len());
                assert(exists|i: int|
                    0 <= i < d.len() && !spec_is_digit(#[trigger] d[i]));
                assert(!spec_parse_u64_ok(s@));
            }
            return None;
        }
        let digit = (u - 48) as u64;
        let w: u128 = v as u128 * 10 + digit as u128;
        proof {
            assert(s@.subrange(start as int, j + 1).drop_last() =~= s@.subrange(
                start as int,
                j as int,
            ));
            assert(s@.subrange(start as int, j + 1).last() == s@[j as int]);
        }
        if w > u64::MAX as u128 {
            proof {
                let prefix = d.subrange(0, j + 1 - start);
                assert(prefix =~= s@.subrange(start as int, j + 1));
                assert(spec_digits_val(prefix) == w);
                if forall|i: int| 0 <= i < d.len() ==> spec_is_digit(#[trigger] d[i]) {
                    lemma_digits_val_prefix_le(d, j + 1 - start);
                    assert(spec_digits_val(d) > u64::MAX);
                    assert(!spec_parse_u64_ok(s@));
                } else {
                    assert(!spec_parse_u64_ok(s@));
                }
            }
            return None;
        }
        v = w as u64;
        j += 1;
    }
    proof {
        assert(s@.subrange(start as int, n as int) =~= d);
        assert(forall|i: int| 0 <= i < d.len() ==> spec_is_digit(#[trigger] d[i]));
    }
    Some(v)
}


pub open spec fn spec_count_char(s: Seq<char>, c: char) -> nat
    decreases s.len(),
{
    if s.len() == 0 {
        0
    } else {
        spec_count_char(s.drop_last(), c) + (if s.last() == c {
            1nat
        } else {
            0nat
        })
    }
}

/// The position of the first occurrence of `c` in `s`, or the length when
/// there is none.
pub open spec fn spec_find_char(s: Seq<char>, c: char) -> int
    decreases s.len(),
{
    if s.len() == 0 {
        0
    } else if s.first() == c {
        0
    } else {
        1 + spec_find_char(s.drop_first(), c)
    }
}

/// The first occurrence really is first: a position holding `c` with no
/// earlier one is where the search lands.
pub proof fn lemma_find_char_at(s: Seq<char>, c: char, j: int)
    requires
        0 <= j < s.len(),
        s[j] == c,
        forall|i: int| 0 <= i < j ==> s[i] != c,
    ensures
        spec_find_char(s, c) == j,
    decreases j,
{
    if j > 0 {
        lemma_find_char_at(s.drop_first(), c, j - 1);
    }
}

} // verus!
