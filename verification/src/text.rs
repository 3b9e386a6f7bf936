//! Character-level text helpers shared by the small parsers of this crate:
//! comparing strings, trimming whitespace, splitting on commas or on the
//! first `=`, and reading unsigned decimal numbers.

use vstd::prelude::*;
use vstd::string::StrSliceExecFns;

verus! {

/// Relies on std's String::push: appends one character to the string.
#[verifier::external_body]
pub fn push_char(s: &mut String, c: char)
    ensures
        final(s)@ == old(s)@.push(c),
{
    s.push(c);
}

/// What std's char::is_alphanumeric returns: it depends on the character
/// alone, and Unicode's full letter and number classes are not restated here.
pub uninterp spec fn is_alnum(c: char) -> bool;

/// Is `c` an ASCII letter or digit?
pub open spec fn is_ascii_alnum(c: char) -> bool {
    let u = c as u32;
    (48 <= u && u <= 57) || (97 <= u && u <= 122) || (65 <= u && u <= 90)
}

/// Relies on std's char::is_alphanumeric: true for Unicode letters and
/// numbers; on ASCII, exactly the letters and the digits.
#[verifier::external_body]
pub fn char_is_alphanumeric(c: char) -> (b: bool)
    ensures
        b == is_alnum(c),
        is_ascii_alnum(c) ==> b,
        (c as u32) < 128 && !is_ascii_alnum(c) ==> !b,
{
    c.is_alphanumeric()
}

/// The Unicode White_Space code points, as std's char::is_whitespace and
/// str::trim recognize them.
pub open spec fn spec_is_whitespace(c: char) -> bool {
    let u = c as u32;
    u == 0x09 || u == 0x0A || u == 0x0B || u == 0x0C || u == 0x0D || u == 0x20 || u == 0x85 || u
        == 0xA0 || u == 0x1680 || (0x2000 <= u && u <= 0x200A) || u == 0x2028 || u == 0x2029 || u
        == 0x202F || u == 0x205F || u == 0x3000
}

pub fn is_space_char(c: char) -> (b: bool)
    ensures
        b == spec_is_whitespace(c),
{
    let u = c as u32;
    u == 0x09 || u == 0x0A || u == 0x0B || u == 0x0C || u == 0x0D || u == 0x20 || u == 0x85 || u
        == 0xA0 || u == 0x1680 || (0x2000 <= u && u <= 0x200A) || u == 0x2028 || u == 0x2029 || u
        == 0x202F || u == 0x205F || u == 0x3000
}

/// The characters of `s`, in order, as a vector.
pub fn str_chars(s: &str) -> (v: Vec<char>)
    ensures
        v@ == s@,
{
    let n: usize = s.unicode_len();
    let mut v: Vec<char> = Vec::new();
    let mut i: usize = 0;
    while i < n
        invariant
            i <= n,
            n == s@.len(),
            v@ == s@.take(i as int),
        decreases n - i,
    {
        let c = s.get_char(i);
        v.push(c);
        proof {
            assert(s@.take(i + 1) =~= s@.take(i as int).push(s@[i as int]));
        }
        i = i + 1;
    }
    proof {
        assert(s@.take(n as int) =~= s@);
    }
    v
}

/// Character-for-character string equality.
pub fn str_eq(a: &str, b: &str) -> (r: bool)
    ensures
        r == (a@ == b@),
{
    let alen: usize = a.unicode_len();
    let blen: usize = b.unicode_len();
    if alen != blen {
        return false;
    }
    let mut i: usize = 0;
    while i < alen
        invariant
            i <= alen,
            alen == a@.len(),
            alen == b@.len(),
            forall|j: int| 0 <= j < i ==> a@[j] == b@[j],
        decreases alen - i,
    {
        if a.get_char(i) != b.get_char(i) {
            return false;
        }
        i = i + 1;
    }
    proof {
        assert(a@ =~= b@);
    }
    true
}

/// `s` with its leading whitespace removed.
pub open spec fn spec_trim_start(s: Seq<char>) -> Seq<char>
    decreases s.len(),
{
    if s.len() > 0 && spec_is_whitespace(s.first()) {
        spec_trim_start(s.drop_first())
    } else {
        s
    }
}

/// `s` with its trailing whitespace removed.
pub open spec fn spec_trim_end(s: Seq<char>) -> Seq<char>
    decreases s.len(),
{
    if s.len() > 0 && spec_is_whitespace(s.last()) {
        spec_trim_end(s.drop_last())
    } else {
        s
    }
}

/// `s` with whitespace removed from both ends, as std's str::trim yields it.
pub open spec fn spec_trim(s: Seq<char>) -> Seq<char> {
    spec_trim_end(spec_trim_start(s))
}

/// Narrows `[start, end)` to the subrange that holds the trimmed text of
/// `v[start..end]`.
pub fn trim_range(v: &Vec<char>, start: usize, end: usize) -> (r: (usize, usize))
    requires
        start <= end <= v.len(),
    ensures
        start <= r.0 <= r.1 <= end,
        v@.subrange(r.0 as int, r.1 as int) == spec_trim(v@.subrange(start as int, end as int)),
{
    let mut lo: usize = start;
    while lo < end && is_space_char(v[lo])
        invariant
            start <= lo <= end <= v.len(),
            spec_trim_start(v@.subrange(start as int, end as int)) == spec_trim_start(
                v@.subrange(lo as int, end as int)),
        decreases end - lo,
    {
        proof {
            assert(v@.subrange(lo as int, end as int).drop_first() =~= v@.subrange(
                lo + 1,
                end as int,
            ));
        }
        lo = lo + 1;
    }
    proof {
        // The scan stopped at the end or at a non-space character, so the
        // remaining range is already trimmed at the front.
        assert(spec_trim_start(v@.subrange(lo as int, end as int)) == v@.subrange(
            lo as int,
            end as int,
        ));
    }
    let mut hi: usize = end;
    while hi > lo && is_space_char(v[hi - 1])
        invariant
            start <= lo <= hi <= end <= v.len(),
            spec_trim_start(v@.subrange(start as int, end as int)) == v@.subrange(
                lo as int,
                end as int,
            ),
            spec_trim_end(v@.subrange(lo as int, end as int)) == spec_trim_end(
                v@.subrange(lo as int, hi as int)),
        decreases hi - lo,
    {
        proof {
            assert(v@.subrange(lo as int, hi as int).drop_last() =~= v@.subrange(
                lo as int,
                hi - 1,
            ));
        }
        hi = hi - 1;
    }
    proof {
        assert(spec_trim_end(v@.subrange(lo as int, hi as int)) == v@.subrange(
            lo as int,
            hi as int,
        ));
    }
    (lo, hi)
}

/// Does `s` contain a comma anywhere?
pub open spec fn has_comma(s: Seq<char>) -> bool {
    exists|i: int| 0 <= i < s.len() && s[i] == ','
}

pub fn contains_comma(v: &Vec<char>) -> (r: bool)
    ensures
        r == has_comma(v@),
{
    let mut i: usize = 0;
    while i < v.len()
        invariant
            i <= v@.len(),
            forall|j: int| 0 <= j < i ==> v@[j] != ',',
        decreases v@.len() - i,
    {
        if v[i] == ',' {
            return true;
        }
        i = i + 1;
    }
    false
}

/// The pieces of `s` between its commas, in order. Splitting the empty
/// string yields one empty piece, as std's str::split does.
pub open spec fn split_commas(s: Seq<char>) -> Seq<Seq<char>>
    decreases s.len(),
{
    if s.len() == 0 {
        seq![Seq::<char>::empty()]
    } else if s.first() == ',' {
        seq![Seq::<char>::empty()] + split_commas(s.drop_first())
    } else {
        let rest = split_commas(s.drop_first());
        seq![seq![s.first()] + rest.first()] + rest.drop_first()
    }
}

pub proof fn lemma_split_commas_nonempty(s: Seq<char>)
    ensures
        split_commas(s).len() >= 1,
    decreases s.len(),
{
    if s.len() > 0 {
        lemma_split_commas_nonempty(s.drop_first());
    }
}

/// Where `s` holds an `=`, the text before the first `=` and the text after
/// it, as std's str::split_once yields them.
pub open spec fn split_once_eq(s: Seq<char>) -> Option<(Seq<char>, Seq<char>)>
    decreases s.len(),
{
    if s.len() == 0 {
        None
    } else if s.first() == '=' {
        Some((Seq::<char>::empty(), s.drop_first()))
    } else {
        match split_once_eq(s.drop_first()) {
            Some(kv) => Some((seq![s.first()] + kv.0, kv.1)),
            None => None,
        }
    }
}

pub proof fn lemma_split_once_eq_none(s: Seq<char>)
    requires
        forall|k: int| 0 <= k < s.len() ==> s[k] != '=',
    ensures
        split_once_eq(s) is None,
    decreases s.len(),
{
    if s.len() > 0 {
        assert(forall|k: int|
            0 <= k < s.drop_first().len() ==> #[trigger] s.drop_first()[k] == s[k + 1]);
        lemma_split_once_eq_none(s.drop_first());
    }
}

pub proof fn lemma_split_once_eq_at(s: Seq<char>, j: int)
    requires
        0 <= j < s.len(),
        s[j] == '=',
        forall|k: int| 0 <= k < j ==> s[k] != '=',
    ensures
        split_once_eq(s) == Some((s.take(j), s.skip(j + 1))),
    decreases j,
{
    if j == 0 {
        assert(s.take(0) =~= Seq::<char>::empty());
        assert(s.skip(1) =~= s.drop_first());
    } else {
        let t = s.drop_first();
        assert(forall|k: int| 0 <= k < t.len() ==> #[trigger] t[k] == s[k + 1]);
        lemma_split_once_eq_at(t, j - 1);
        assert(seq![s.first()] + t.take(j - 1) =~= s.take(j));
        assert(t.skip(j) =~= s.skip(j + 1));
    }
}

/// Compares `v[start..end]` with a string, character for character.
pub fn range_eq_str(v: &Vec<char>, start: usize, end: usize, lit: &str) -> (r: bool)
    requires
        start <= end <= v.len(),
    ensures
        r == (v@.subrange(start as int, end as int) == lit@),
{
    let n: usize = lit.unicode_len();
    if end - start != n {
        return false;
    }
    let mut i: usize = 0;
    while i < n
        invariant
            i <= n,
            n == lit@.len(),
            start <= end <= v.len(),
            end - start == n,
            forall|k: int| 0 <= k < i ==> v@[start + k] == lit@[k],
        decreases n - i,
    {
        if v[start + i] != lit.get_char(i) {
            proof {
                assert(v@.subrange(start as int, end as int)[i as int] != lit@[i as int]);
            }
            return false;
        }
        i = i + 1;
    }
    proof {
        assert(v@.subrange(start as int, end as int) =~= lit@);
    }
    true
}

/// Copies `v[start..end]` out into a fresh string.
pub fn string_of_range(v: &Vec<char>, start: usize, end: usize) -> (s: String)
    requires
        start <= end <= v.len(),
    ensures
        s@ == v@.subrange(start as int, end as int),
{
    let mut s = String::new();
    let mut i: usize = start;
    while i < end
        invariant
            start <= i <= end <= v.len(),
            s@ == v@.subrange(start as int, i as int),
        decreases end - i,
    {
        push_char(&mut s, v[i]);
        proof {
            assert(v@.subrange(start as int, i + 1) =~= v@.subrange(start as int, i as int).push(
                v@[i as int],
            ));
        }
        i = i + 1;
    }
    s
}

/// The position of the first `=` in `v[start..end)`, if any.
pub fn find_eq(v: &Vec<char>, start: usize, end: usize) -> (r: Option<usize>)
    requires
        start <= end <= v.len(),
    ensures
        match r {
            Some(j) => start <= j < end && v@[j as int] == '=' && forall|k: int|
                start <= k < j ==> v@[k] != '=',
            None => forall|k: int| start <= k < end ==> v@[k] != '=',
        },
{
    let mut i: usize = start;
    while i < end
        invariant
            start <= i <= end <= v.len(),
            forall|k: int| start <= k < i ==> v@[k] != '=',
        decreases end - i,
    {
        if v[i] == '=' {
            return Some(i);
        }
        i = i + 1;
    }
    None
}

/// Is `c` an ASCII decimal digit?
pub open spec fn is_dec_digit(c: char) -> bool {
    '0' as u32 <= c as u32 && c as u32 <= '9' as u32
}

pub open spec fn dec_digit_value(c: char) -> int {
    c as u32 - '0' as u32
}

/// The number written by a digit string, most significant digit first.
pub open spec fn dec_value(s: Seq<char>) -> int
    decreases s.len(),
{
    if s.len() == 0 {
        0
    } else {
        dec_value(s.drop_last()) * 10 + dec_digit_value(s.last())
    }
}

pub open spec fn all_dec_digits(s: Seq<char>) -> bool {
    forall|i: int| 0 <= i < s.len() ==> is_dec_digit(#[trigger] s[i])
}

/// What `str::parse::<u8>` accepts: an optional leading `+`, then one or
/// more decimal digits naming a value below 256.
pub open spec fn spec_parse_u8(s: Seq<char>) -> Option<u8> {
    let digits = if s.len() > 0 && s.first() == '+' {
        s.drop_first()
    } else {
        s
    };
    if digits.len() > 0 && all_dec_digits(digits) && dec_value(digits) < 256 {
        Some(dec_value(digits) as u8)
    } else {
        None
    }
}

proof fn lemma_dec_value_nonneg(s: Seq<char>)
    requires
        all_dec_digits(s),
    ensures
        dec_value(s) >= 0,
    decreases s.len(),
{
    if s.len() > 0 {
        assert(all_dec_digits(s.drop_last())) by {
            assert(forall|i: int|
                0 <= i < s.len() - 1 ==> #[trigger] s.drop_last()[i] == s[i]);
        }
        lemma_dec_value_nonneg(s.drop_last());
    }
}

/// Reads `v[start..end]` as `str::parse::<u8>` would, yielding its value on
/// success and nothing where the text is not a plain decimal below 256.
#[verifier::loop_isolation(false)]
pub fn parse_u8_range(v: &Vec<char>, start: usize, end: usize) -> (r: Option<u8>)
    requires
        start <= end <= v.len(),
    ensures
        r == spec_parse_u8(v@.subrange(start as int, end as int)),
{
    let ghost s = v@.subrange(start as int, end as int);
    let dstart: usize = if start < end && v[start] == '+' {
        start + 1
    } else {
        start
    };
    let ghost digits = v@.subrange(dstart as int, end as int);
    proof {
        if s.len() > 0 && s.first() == '+' {
            assert(s.drop_first() =~= digits);
        } else {
            assert(s =~= digits);
        }
    }
    if dstart == end {
        return None;
    }
    // `acc` follows the value of the digits read so far, saturating at 256
    // once the value can no longer be a byte.
    let mut acc: u32 = 0;
    let mut i: usize = dstart;
    while i < end
        invariant
            dstart <= i <= end <= v.len(),
            digits == v@.subrange(dstart as int, end as int),
            all_dec_digits(digits.take(i - dstart)),
            acc <= 256,
            acc < 256 ==> acc == dec_value(digits.take(i - dstart)),
            acc == 256 ==> dec_value(digits.take(i - dstart)) >= 256,
        decreases end - i,
    {
        let c = v[i];
        let u: u32 = c as u32;
        if !(48 <= u && u <= 57) {
            proof {
                assert(!is_dec_digit(digits[i - dstart]));
                assert(!all_dec_digits(digits));
            }
            return None;
        }
        let d: u32 = u - 48;
        let ghost prefix = digits.take(i - dstart);
        let ghost next_prefix = digits.take(i + 1 - dstart);
        proof {
            assert(next_prefix.drop_last() =~= prefix);
            assert(next_prefix.last() == digits[i - dstart]);
            assert(all_dec_digits(next_prefix)) by {
                assert(forall|j: int| 0 <= j < prefix.len() ==> next_prefix[j] == #[trigger] prefix[j]);
            }
            if acc == 256 {
                lemma_dec_value_nonneg(prefix);
            }
        }
        if acc < 256 {
            let wide: u32 = acc * 10 + d;
            if wide > 255 {
                acc = 256;
            } else {
                acc = wide;
            }
        } else {
            acc = 256;
        }
        i = i + 1;
    }
    proof {
        assert(digits.take(end - dstart) =~= digits);
    }
    if acc < 256 {
        Some(acc as u8)
    } else {
        None
    }
}

} // verus!
