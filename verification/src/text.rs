//! Character-level helpers shared by the tokenizer, the constant parser and
//! the name-shaping utilities: equality of string slices, appending a
//! character, ASCII classification and decimal parsing.

use vstd::prelude::*;
use vstd::string::StrSliceExecFns;

verus! {

/// Relies on String::push: appends exactly the given character at the end.
#[verifier::external_body]
pub(crate) fn push_char(s: &mut String, c: char)
    ensures
        final(s)@ == old(s)@.push(c),
{
    s.push(c);
}

/// True exactly when the two string slices hold the same characters.
pub(crate) fn str_eq(a: &str, b: &str) -> (r: bool)
    ensures
        r == (a@ == b@),
{
    let alen: usize = a.unicode_len();
    let blen: usize = b.unicode_len();
    if alen != blen {
        return false;
    }
    let mut i: usize = 0;
    while i < alen
        invariant
            0 <= i <= alen,
            alen == a@.len(),
            alen == b@.len(),
            forall|j: int| 0 <= j < i ==> a@[j] == b@[j],
        decreases alen - i,
    {
        if a.get_char(i) != b.get_char(i) {
            return false;
        }
        i = i + 1;
    }
    proof {
        assert(a@ =~= b@);
    }
    true
}

/// The decimal digits, as the engine's grammar knows them.
pub open spec fn spec_is_digit(c: char) -> bool {
    48 <= c as u32 <= 57
}

/// The numeric value of one decimal digit.
pub open spec fn spec_digit_val(c: char) -> int {
    c as u32 - 48
}

/// ASCII whitespace: space, tab, line feed, carriage return, form feed.
pub open spec fn spec_is_space(c: char) -> bool {
    c == ' ' || c == '\t' || c == '\n' || c == '\r' || c == '\x0c'
}

pub(crate) fn is_space(c: char) -> (r: bool)
    ensures
        r == spec_is_space(c),
{
    c == ' ' || c == '\t' || c == '\n' || c == '\r' || c == '\x0c'
}

/// The uppercase image of an ASCII lowercase letter; any other character is
/// left alone.
pub open spec fn spec_to_upper(c: char) -> char {
    if 97 <= c as u32 <= 122 {
        ((c as u32 - 32) as u8) as char
    } else {
        c
    }
}

pub(crate) fn to_ascii_upper(c: char) -> (r: char)
    ensures
        r == spec_to_upper(c),
{
    let n: u32 = c as u32;
    if 97 <= n && n <= 122 {
        ((n - 32) as u8) as char
    } else {
        c
    }
}

/// Every character of the sequence is a decimal digit.
pub open spec fn spec_all_digits(s: Seq<char>) -> bool {
    forall|i: int| 0 <= i < s.len() ==> spec_is_digit(#[trigger] s[i])
}

/// The number a digit sequence denotes in base ten.
pub open spec fn spec_digits_val(s: Seq<char>) -> int
    decreases s.len(),
{
    if s.len() == 0 {
        0
    } else {
        spec_digits_val(s.drop_last()) * 10 + spec_digit_val(s.last())
    }
}

/// The digit part of a decimal string: everything after an optional leading
/// plus sign.
pub open spec fn spec_digit_part(s: Seq<char>) -> Seq<char> {
    if s.len() > 0 && s[0] == '+' {
        s.drop_first()
    } else {
        s
    }
}

/// The strings that denote a machine-size non-negative integer: an optional
/// leading plus sign, then at least one decimal digit, with a value in the
/// machine's size range.
pub open spec fn spec_is_usize_string(s: Seq<char>) -> bool {
    let d = spec_digit_part(s);
    d.len() > 0 && spec_all_digits(d) && spec_digits_val(d) <= usize::MAX as int
}

/// The value such a string denotes.
pub open spec fn spec_usize_string_val(s: Seq<char>) -> int {
    spec_digits_val(spec_digit_part(s))
}

proof fn lemma_digits_val_nonneg(s: Seq<char>)
    requires
        spec_all_digits(s),
    ensures
        spec_digits_val(s) >= 0,
    decreases s.len(),
{
    if s.len() > 0 {
        assert(spec_all_digits(s.drop_last())) by {
            assert(forall|j: int|
                0 <= j < s.len() - 1 ==> #[trigger] s.drop_last()[j] == s[j]);
        }
        lemma_digits_val_nonneg(s.drop_last());
    }
}

/// Extending a digit string to the right never shrinks its value.
proof fn lemma_digits_val_prefix_le(s: Seq<char>, i: int)
    requires
        spec_all_digits(s),
        0 <= i <= s.len(),
    ensures
        spec_digits_val(s.take(i)) <= spec_digits_val(s),
    decreases s.len() - i,
{
    if i < s.len() {
        lemma_digits_val_prefix_le(s, i + 1);
        assert(s.take(i + 1).drop_last() =~= s.take(i));
        assert(spec_all_digits(s.take(i))) by {
            assert(forall|j: int| 0 <= j < i ==> #[trigger] s.take(i)[j] == s[j]);
        }
        lemma_digits_val_nonneg(s.take(i));
        assert(spec_digits_val(s.take(i + 1)) == spec_digits_val(s.take(i)) * 10
            + spec_digit_val(s.take(i + 1).last()));
        assert(spec_is_digit(s[i]));
        assert(spec_digits_val(s.take(i)) <= spec_digits_val(s.take(i + 1)));
    } else {
        assert(s.take(i) =~= s);
    }
}

/// Parses a decimal string as the standard library's `usize` parser does:
/// an optional leading plus sign, then one or more decimal digits, rejected
/// when empty, when a non-digit appears, or when the value leaves the
/// machine's size range.
pub fn parse_usize(s: &str) -> (r: Option<usize>)
    ensures
        match r {
            Some(v) => spec_is_usize_string(s@) && v == spec_usize_string_val(s@),
            None => !spec_is_usize_string(s@),
        },
{
    let len: usize = s.unicode_len();
    let mut start: usize = 0;
    if len > 0 && s.get_char(0) == '+' {
        start = 1;
    }
    let ghost d = spec_digit_part(s@);
    proof {
        assert(d =~= s@.subrange(start as int, len as int));
    }
    if start == len {
        return None;
    }
    let mut acc: usize = 0;
    let mut i: usize = start;
    while i < len
        invariant
            start <= i <= len,
            len == s@.len(),
            d == spec_digit_part(s@),
            d == s@.subrange(start as int, len as int),
            spec_all_digits(d.take(i - start)),
            acc == spec_digits_val(d.take(i - start)),
        decreases len - i,
    {
        let c: char = s.get_char(i);
        let n: u32 = c as u32;
        proof {
            assert(d[i - start] == s@[i as int]);
        }
        if !(48 <= n && n <= 57) {
            // A non-digit makes the whole string invalid.
            proof {
                assert(0 <= i - start < d.len());
                assert(!spec_is_digit(d[i - start]));
                assert(!spec_all_digits(d));
            }
            return None;
        }
        let digit: usize = (n - 48) as usize;
        proof {
            assert(d.take(i - start + 1).drop_last() =~= d.take(i - start));
            assert(d.take(i - start + 1).last() == d[i - start]);
            assert(spec_all_digits(d.take(i - start + 1))) by {
                assert(forall|j: int|
                    0 <= j < i - start + 1 ==> #[trigger] d.take(i - start + 1)[j] == d[j]);
                assert(forall|j: int|
                    0 <= j < i - start ==> d[j] == #[trigger] d.take(i - start)[j]);
            }
            assert(spec_digits_val(d.take(i - start + 1))
                == spec_digits_val(d.take(i - start)) * 10 + spec_digit_val(d[i - start]));
        }
        let next: Option<usize> = match acc.checked_mul(10) {
            Some(m) => m.checked_add(digit),
            None => None,
        };
        match next {
            Some(v) => {
                acc = v;
            },
            None => {
                // The running value has left the machine range; the full
                // digit string can only denote something at least as large.
                proof {
                    assert(spec_digit_val(d[i - start]) == digit);
                    assert(spec_digits_val(d.take(i - start + 1)) > usize::MAX as int);
                    assert(spec_all_digits(d) ==> spec_digits_val(d) > usize::MAX as int)
                        by {
                        if spec_all_digits(d) {
                            lemma_digits_val_prefix_le(d, i - start + 1);
                        }
                    }
                }
                return None;
            },
        }
        i = i + 1;
    }
    proof {
        assert(d.take(len - start) =~= d);
    }
    Some(acc)
}

} // verus!
