//! Text primitives for the wire protocol: whitespace trimming, locating
//! separators, and decimal number parsing.
//!
//! Everything is specified over the character view of the input, so a
//! caller's contract can pin down the parsed value exactly.

use vstd::prelude::*;

verus! {

/// ASCII whitespace: what the protocol strips around lines and payloads.
pub open spec fn is_space(c: char) -> bool {
    c == ' ' || c == '\t' || c == '\n' || c == '\r' || c == '\u{b}' || c == '\u{c}'
}

fn is_space_char(c: char) -> (r: bool)
    ensures
        r == is_space(c),
{
    c == ' ' || c == '\t' || c == '\n' || c == '\r' || c == '\u{b}' || c == '\u{c}'
}

/// `s` without its leading whitespace.
pub open spec fn trim_left(s: Seq<char>) -> Seq<char>
    decreases s.len(),
{
    if s.len() > 0 && is_space(s[0]) {
        trim_left(s.drop_first())
    } else {
        s
    }
}

/// `s` without its trailing whitespace.
pub open spec fn trim_right(s: Seq<char>) -> Seq<char>
    decreases s.len(),
{
    if s.len() > 0 && is_space(s.last()) {
        trim_right(s.drop_last())
    } else {
        s
    }
}

/// `s` without surrounding whitespace.
pub open spec fn trimmed(s: Seq<char>) -> Seq<char> {
    trim_right(trim_left(s))
}

/// Strip surrounding whitespace.
pub fn trim_str(s: &str) -> (t: &str)
    ensures
        t@ == trimmed(s@),
{
    let len = s.unicode_len();
    let mut i: usize = 0;
    proof {
        assert(s@.skip(0) =~= s@);
    }
    while i < len && is_space_char(s.get_char(i))
        invariant
            i <= len,
            len == s@.len(),
            trim_left(s@) == trim_left(s@.skip(i as int)),
        decreases len - i,
    {
        proof {
            assert(s@.skip(i as int).drop_first() =~= s@.skip(i + 1));
        }
        i += 1;
    }
    proof {
        assert(trim_left(s@) == s@.skip(i as int));
        assert(s@.skip(i as int) =~= s@.subrange(i as int, len as int));
    }
    let mut j: usize = len;
    while j > i && is_space_char(s.get_char(j - 1))
        invariant
            i <= j <= len,
            len == s@.len(),
            trim_right(s@.skip(i as int)) == trim_right(s@.subrange(i as int, j as int)),
        decreases j,
    {
        proof {
            assert(s@.subrange(i as int, j as int).drop_last() =~= s@.subrange(
                i as int,
                j - 1,
            ));
        }
        j -= 1;
    }
    proof {
        assert(trimmed(s@) == s@.subrange(i as int, j as int));
    }
    s.substring_char(i, j)
}

/// `x` is at position `k` of `s` and nowhere earlier.
pub open spec fn first_at<T>(s: Seq<T>, x: T, k: int) -> bool {
    &&& 0 <= k < s.len()
    &&& s[k] == x
    &&& forall|j: int| 0 <= j < k ==> s[j] != x
}

/// Two first occurrences are the same occurrence.
pub proof fn lemma_first_at_unique<T>(s: Seq<T>, x: T, k1: int, k2: int)
    requires
        first_at(s, x, k1),
        first_at(s, x, k2),
    ensures
        k1 == k2,
{
    if k1 < k2 {
        assert(s[k1] != x);
    } else if k2 < k1 {
        assert(s[k2] != x);
    }
}

/// Find the first occurrence of `c` in `s[from..to]`.
pub fn find_char(s: &str, from: usize, to: usize, c: char) -> (r: Option<usize>)
    requires
        from <= to <= s@.len(),
    ensures
        r matches Some(k) ==> {
            &&& from <= k < to
            &&& s@[k as int] == c
            &&& forall|j: int| from <= j < k ==> s@[j] != c
        },
        r is None ==> forall|j: int| from <= j < to ==> s@[j] != c,
{
    let len = to;
    let mut k: usize = from;
    while k < len
        invariant
            from <= k <= len,
            len == to <= s@.len(),
            forall|j: int| from <= j < k ==> s@[j] != c,
        decreases len - k,
    {
        if s.get_char(k) == c {
            return Some(k);
        }
        k += 1;
    }
    None
}

/// An ASCII decimal digit.
pub open spec fn is_digit(c: char) -> bool {
    48 <= c as u32 <= 57
}

/// The numeric value of a digit.
pub open spec fn digit_val(c: char) -> int {
    c as u32 - 48
}

/// Every character of `s` is a digit.
pub open spec fn all_digits(s: Seq<char>) -> bool {
    forall|i: int| 0 <= i < s.len() ==> is_digit(s[i])
}

/// The value of a digit string read in base 10.
pub open spec fn dec_val(s: Seq<char>) -> int
    decreases s.len(),
{
    if s.len() == 0 {
        0
    } else {
        dec_val(s.drop_last()) * 10 + digit_val(s.last())
    }
}

pub proof fn lemma_dec_val_nonneg(s: Seq<char>)
    requires
        all_digits(s),
    ensures
        dec_val(s) >= 0,
    decreases s.len(),
{
    if s.len() > 0 {
        assert(all_digits(s.drop_last()));
        lemma_dec_val_nonneg(s.drop_last());
    }
}

/// A digit string's value only grows as more digits are read.
pub proof fn lemma_dec_val_prefix_le(s: Seq<char>, k: int)
    requires
        all_digits(s),
        0 <= k <= s.len(),
    ensures
        dec_val(s.take(k)) <= dec_val(s),
    decreases s.len() - k,
{
    if k < s.len() {
        assert(s.take(k + 1).drop_last() =~= s.take(k));
        assert(all_digits(s.take(k)));
        lemma_dec_val_nonneg(s.take(k));
        lemma_dec_val_prefix_le(s, k + 1);
    } else {
        assert(s.take(k) =~= s);
    }
}

/// The digits of an unsigned decimal payload: an optional leading `+` is
/// allowed, as the usual integer syntax has it.
pub open spec fn uint_digits(s: Seq<char>) -> Seq<char> {
    if s.len() > 0 && s[0] == '+' {
        s.drop_first()
    } else {
        s
    }
}

/// `s` is a well-formed unsigned decimal integer.
pub open spec fn is_uint_string(s: Seq<char>) -> bool {
    uint_digits(s).len() > 0 && all_digits(uint_digits(s))
}

/// The value of a well-formed unsigned decimal integer.
pub open spec fn uint_val(s: Seq<char>) -> int {
    dec_val(uint_digits(s))
}

/// Parse an unsigned decimal integer, exactly: `Some` on well-formed input
/// whose value fits, `None` otherwise.
pub fn parse_u128(s: &str) -> (r: Option<u128>)
    ensures
        r is Some <==> is_uint_string(s@) && uint_val(s@) <= u128::MAX,
        r matches Some(v) ==> v == uint_val(s@),
{
    let len = s.unicode_len();
    let start: usize = if len > 0 && s.get_char(0) == '+' {
        1
    } else {
        0
    };
    let ghost d = uint_digits(s@);
    proof {
        assert(d =~= s@.skip(start as int));
    }
    if start == len {
        return None;
    }
    let mut acc: u128 = 0;
    let mut i: usize = start;
    while i < len
        invariant
            start <= i <= len,
            len == s@.len(),
            d == uint_digits(s@),
            d =~= s@.skip(start as int),
            all_digits(d.take(i - start)),
            acc == dec_val(d.take(i - start)),
        decreases len - i,
    {
        let c = s.get_char(i);
        let cv: u32 = c as u32;
        if cv < 48 || cv > 57 {
            proof {
                assert(!is_digit(d[i - start]));
            }
            return None;
        }
        let dv: u128 = (cv - 48) as u128;
        proof {
            assert(d.take(i - start + 1).drop_last() =~= d.take(i - start));
            assert(d.take(i - start + 1).last() == d[i - start]);
            assert(all_digits(d.take(i - start + 1)));
        }
        let next: Option<u128> = match acc.checked_mul(10) {
            Some(m) => m.checked_add(dv),
            None => None,
        };
        match next {
            Some(n) => {
                acc = n;
            },
            None => {
                proof {
                    lemma_dec_val_nonneg(d.take(i - start));
                    assert(dec_val(d.take(i - start + 1)) > u128::MAX);
                    if all_digits(d) {
                        lemma_dec_val_prefix_le(d, i - start + 1);
                        assert(dec_val(d) > u128::MAX);
                    }
                }
                return None;
            },
        }
        i += 1;
    }
    proof {
        assert(d.take(i - start) =~= d);
    }
    Some(acc)
}

/// The mathematical value clamped to what a `u64` holds.
pub open spec fn sat_u64(x: int) -> int {
    if x > u64::MAX {
        u64::MAX as int
    } else {
        x
    }
}

/// Clamping before scaling into milli-units loses nothing: the result is
/// clamped either way.
pub proof fn lemma_sat_scale_add(e: int, f: int)
    requires
        e >= 0,
        f >= 0,
    ensures
        sat_u64(sat_u64(e) * 1000 + f) == sat_u64(e * 1000 + f),
{
}

proof fn lemma_sat_step(e: int, d: int)
    requires
        e >= 0,
        0 <= d <= 9,
    ensures
        sat_u64(sat_u64(e) * 10 + d) == sat_u64(e * 10 + d),
{
}

/// Read the digits of `s[from..to]` as a saturating `u64`: `Some` exactly
/// when the range is all digits, holding the value clamped to `u64`.
pub fn digits_value_sat(s: &str, from: usize, to: usize) -> (r: Option<u64>)
    requires
        from <= to <= s@.len(),
    ensures
        r is Some <==> all_digits(s@.subrange(from as int, to as int)),
        r matches Some(v) ==> v == sat_u64(dec_val(s@.subrange(from as int, to as int))),
{
    let ghost d = s@.subrange(from as int, to as int);
    let mut acc: u64 = 0;
    let mut i: usize = from;
    while i < to
        invariant
            from <= i <= to,
            to <= s@.len(),
            d == s@.subrange(from as int, to as int),
            all_digits(d.take(i - from)),
            acc == sat_u64(dec_val(d.take(i - from))),
        decreases to - i,
    {
        let c = s.get_char(i);
        let cv: u32 = c as u32;
        if cv < 48 || cv > 57 {
            proof {
                assert(!is_digit(d[i - from]));
            }
            return None;
        }
        let dv: u64 = (cv - 48) as u64;
        proof {
            assert(d.take(i - from + 1).drop_last() =~= d.take(i - from));
            assert(d.take(i - from + 1).last() == d[i - from]);
            assert(all_digits(d.take(i - from + 1)));
            lemma_dec_val_nonneg(d.take(i - from));
            lemma_sat_step(dec_val(d.take(i - from)), dv as int);
        }
        let wide: u128 = acc as u128 * 10 + dv as u128;
        acc = if wide > u64::MAX as u128 {
            u64::MAX
        } else {
            wide as u64
        };
        i += 1;
    }
    proof {
        assert(d.take(i - from) =~= d);
    }
    Some(acc)
}

} // verus!
