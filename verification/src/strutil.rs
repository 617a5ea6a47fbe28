//! Small verified string utilities: equality, substring search, and decimal
//! conversion between integers and their text form.

use vstd::prelude::*;
use vstd::string::StrSliceExecFns;
use vstd::string::StringExecFns;

verus! {

/// Relies on std's String::push: appends the given character to the end of
/// the string.
pub assume_specification[ String::push ](s: &mut String, ch: char)
    ensures
        final(s)@ == old(s)@.push(ch),
;

/// Whether `c` is a decimal digit.
pub open spec fn spec_is_digit(c: char) -> bool {
    48 <= c as int <= 57
}

/// The numeric value of a decimal digit character.
pub open spec fn spec_char_digit(c: char) -> int {
    c as int - 48
}

/// The character for a decimal digit value in 0..=9.
pub open spec fn spec_digit_char(d: int) -> char {
    ((d + 48) as u8) as char
}

/// Whether every character of `s` is a decimal digit.
pub open spec fn spec_all_digits(s: Seq<char>) -> bool {
    forall|i: int| 0 <= i < s.len() ==> spec_is_digit(s[i])
}

/// The value of a digit string read in base 10 (0 for the empty string).
pub open spec fn spec_decimal_value(s: Seq<char>) -> int
    decreases s.len(),
{
    if s.len() == 0 {
        0
    } else {
        spec_decimal_value(s.drop_last()) * 10 + spec_char_digit(s.last())
    }
}

/// The decimal text of a natural number, with no leading zeros except for 0
/// itself.
pub open spec fn spec_u64_string(n: int) -> Seq<char>
    decreases n,
{
    if n < 10 {
        seq![spec_digit_char(n)]
    } else {
        spec_u64_string(n / 10) + seq![spec_digit_char(n % 10)]
    }
}

/// What parsing a decimal string as a `u64` yields: the value when the string
/// is a nonempty run of digits whose value fits, and nothing otherwise.
pub open spec fn spec_parse_u64(s: Seq<char>) -> Option<u64> {
    if s.len() > 0 && spec_all_digits(s) && spec_decimal_value(s) <= u64::MAX {
        Some(spec_decimal_value(s) as u64)
    } else {
        None
    }
}

/// As `spec_parse_u64`, for `u32`.
pub open spec fn spec_parse_u32(s: Seq<char>) -> Option<u32> {
    if s.len() > 0 && spec_all_digits(s) && spec_decimal_value(s) <= u32::MAX {
        Some(spec_decimal_value(s) as u32)
    } else {
        None
    }
}

/// A digit string's value is never negative.
pub proof fn lemma_decimal_value_nonneg(s: Seq<char>)
    requires
        spec_all_digits(s),
    ensures
        spec_decimal_value(s) >= 0,
    decreases s.len(),
{
    if s.len() > 0 {
        assert(spec_all_digits(s.drop_last())) by {
            assert(forall|j: int| 0 <= j < s.len() - 1 ==> s.drop_last()[j] == s[j]);
        }
        lemma_decimal_value_nonneg(s.drop_last());
    }
}

/// Taking a prefix of a digit string can only shrink its value.
pub proof fn lemma_decimal_prefix_bound(s: Seq<char>, i: int)
    requires
        spec_all_digits(s),
        0 <= i <= s.len(),
    ensures
        spec_decimal_value(s.take(i)) <= spec_decimal_value(s),
    decreases s.len() - i,
{
    if i < s.len() {
        lemma_decimal_prefix_bound(s, i + 1);
        assert(s.take(i + 1).drop_last() =~= s.take(i));
        assert(spec_all_digits(s.take(i))) by {
            assert(forall|j: int| 0 <= j < i ==> s.take(i)[j] == s[j]);
        }
        lemma_decimal_value_nonneg(s.take(i));
        assert(spec_decimal_value(s.take(i + 1)) == spec_decimal_value(s.take(i)) * 10
            + spec_char_digit(s.take(i + 1).last()));
        assert(spec_is_digit(s.take(i + 1).last()));
    } else {
        assert(s.take(i) =~= s);
    }
}

/// The digit character for a value below ten.
pub fn digit_char(d: u8) -> (r: char)
    requires
        d < 10,
    ensures
        r == spec_digit_char(d as int),
{
    (48 + d) as char
}

/// Renders a number as its decimal text.
pub fn u64_to_string(n: u64) -> (r: String)
    ensures
        r@ == spec_u64_string(n as int),
    decreases n,
{
    if n < 10 {
        let mut s = String::new();
        s.push(digit_char(n as u8));
        assert(s@ =~= spec_u64_string(n as int));
        s
    } else {
        let mut s = u64_to_string(n / 10);
        s.push(digit_char((n % 10) as u8));
        assert(s@ =~= spec_u64_string(n as int));
        s
    }
}

/// Parses a nonempty all-digit string as a `u64`; anything else yields `None`.
pub fn parse_u64(s: &str) -> (r: Option<u64>)
    ensures
        r == spec_parse_u64(s@),
{
    let len = s.unicode_len();
    if len == 0 {
        return None;
    }
    let mut acc: u64 = 0;
    let mut i: usize = 0;
    while i < len
        invariant
            0 <= i <= len,
            len == s@.len(),
            forall|k: int| 0 <= k < i ==> spec_is_digit(s@[k]),
            acc == spec_decimal_value(s@.take(i as int)),
        decreases len - i,
    {
        let c = s.get_char(i);
        let u = c as u32;
        if u < 48 || u > 57 {
            assert(!spec_is_digit(s@[i as int]));
            assert(!spec_all_digits(s@));
            return None;
        }
        let d = (u - 48) as u64;
        proof {
            assert(spec_all_digits(s@.take(i + 1))) by {
                assert(forall|k: int| 0 <= k < i + 1 ==> s@.take(i + 1)[k] == s@[k]);
            }
            assert(s@.take(i + 1).drop_last() =~= s@.take(i as int));
            assert(s@.take(i + 1).last() == s@[i as int]);
            assert(spec_decimal_value(s@.take(i + 1)) == acc * 10 + d);
        }
        if acc > (u64::MAX - d) / 10 {
            proof {
                assert(acc * 10 + d > u64::MAX) by (nonlinear_arith)
                    requires
                        acc > (u64::MAX - d) / 10,
                        d < 10,
                ;
                if spec_all_digits(s@) {
                    lemma_decimal_prefix_bound(s@, i + 1);
                }
            }
            return None;
        }
        proof {
            assert(acc * 10 + d <= u64::MAX) by (nonlinear_arith)
                requires
                    acc <= (u64::MAX - d) / 10,
                    d < 10,
            ;
        }
        acc = acc * 10 + d;
        i += 1;
    }
    proof {
        assert(s@.take(len as int) =~= s@);
    }
    Some(acc)
}

/// Parses a nonempty all-digit string as a `u32`; anything else yields `None`.
pub fn parse_u32(s: &str) -> (r: Option<u32>)
    ensures
        r == spec_parse_u32(s@),
{
    let r64 = parse_u64(s);
    match r64 {
        Some(n) => {
            proof {
                lemma_decimal_value_nonneg(s@);
            }
            if n <= u32::MAX as u64 {
                assert(spec_decimal_value(s@) == n);
                Some(n as u32)
            } else {
                assert(spec_decimal_value(s@) > u32::MAX);
                None
            }
        },
        None => {
            proof {
                if s@.len() > 0 && spec_all_digits(s@) && spec_decimal_value(s@) <= u32::MAX {
                    assert(spec_decimal_value(s@) <= u64::MAX);
                    assert(spec_parse_u64(s@) is Some);
                }
            }
            None
        },
    }
}

/// Whether two string slices hold the same characters.
pub fn str_eq(a: &str, b: &str) -> (r: bool)
    ensures
        r == (a@ == b@),
{
    let sa = String::from_str(a);
    let sb = String::from_str(b);
    sa == sb
}

/// Whether `n` occurs in `h` as a contiguous run of characters.
pub open spec fn spec_contains_sub(h: Seq<char>, n: Seq<char>) -> bool {
    exists|i: int| 0 <= i && i + n.len() <= h.len() && #[trigger] h.subrange(i, i + n.len()) == n
}

/// Substring search: whether `n` occurs contiguously in `h`.
pub fn str_contains_sub(h: &str, n: &str) -> (r: bool)
    ensures
        r == spec_contains_sub(h@, n@),
{
    let hl = h.unicode_len();
    let nl = n.unicode_len();
    if nl > hl {
        assert(!spec_contains_sub(h@, n@));
        return false;
    }
    if nl == 0 {
        assert(spec_contains_sub(h@, n@)) by {
            assert(h@.subrange(0, 0 + n@.len() as int) =~= n@);
        }
        return true;
    }
    let mut i: usize = 0;
    while i <= hl - nl
        invariant
            0 < nl <= hl,
            hl == h@.len(),
            nl == n@.len(),
            0 <= i <= hl - nl + 1,
            forall|k: int| 0 <= k < i ==> #[trigger] h@.subrange(k, k + n@.len()) != n@,
        decreases hl + 1 - nl - i,
    {
        let mut j: usize = 0;
        let mut matched = true;
        while j < nl && matched
            invariant
                nl <= hl,
                hl == h@.len(),
                nl == n@.len(),
                0 <= i <= hl - nl,
                0 <= j <= nl,
                matched ==> forall|k: int| 0 <= k < j ==> h@[i + k] == n@[k],
                !matched ==> h@.subrange(i as int, i + n@.len()) != n@,
            decreases nl - j,
        {
            let hc = h.get_char(i + j);
            let nc = n.get_char(j);
            if hc != nc {
                proof {
                    assert(h@.subrange(i as int, i + n@.len())[j as int] == h@[i + j]);
                }
                matched = false;
            }
            j += 1;
        }
        if matched {
            proof {
                assert(h@.subrange(i as int, i + n@.len()) =~= n@);
            }
            return true;
        }
        i += 1;
    }
    assert(!spec_contains_sub(h@, n@));
    false
}

} // verus!
