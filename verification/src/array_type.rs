//! The tokenizer for the inline fixed-size-array shorthand
//! `"[ElementType; CountReference]"`.  The grammar is the stable external
//! contract: an opening bracket, the element type, a semicolon, the count
//! reference, a closing bracket; whitespace around the two tokens is
//! tolerated and both must be non-empty after trimming.

use vstd::prelude::*;
use vstd::string::StrSliceExecFns;
use crate::text::{is_space, spec_is_space};

verus! {

/// The structured form of one array shorthand.
#[derive(Debug, Clone)]
pub struct ArrayType {
    pub element_type: String,
    pub count_reference: String,
}

/// Leading whitespace removed.
pub open spec fn spec_trim_left(s: Seq<char>) -> Seq<char>
    decreases s.len(),
{
    if s.len() > 0 && spec_is_space(s[0]) {
        spec_trim_left(s.drop_first())
    } else {
        s
    }
}

/// Trailing whitespace removed.
pub open spec fn spec_trim_right(s: Seq<char>) -> Seq<char>
    decreases s.len(),
{
    if s.len() > 0 && spec_is_space(s.last()) {
        spec_trim_right(s.drop_last())
    } else {
        s
    }
}

/// Surrounding whitespace removed.
pub open spec fn spec_trim(s: Seq<char>) -> Seq<char> {
    spec_trim_left(spec_trim_right(s))
}

/// The position of the first occurrence of `c` in `s`, or -1.
pub open spec fn spec_find_char(s: Seq<char>, c: char) -> int
    decreases s.len(),
{
    if s.len() == 0 {
        -1
    } else if s[0] == c {
        0
    } else {
        let r = spec_find_char(s.drop_first(), c);
        if r < 0 {
            -1
        } else {
            r + 1
        }
    }
}

/// The array shorthand grammar: `Some((element, count))` for a well-formed
/// shorthand, both tokens trimmed of surrounding whitespace; `None` for
/// anything else.
pub open spec fn spec_parse_array_shorthand(t: Seq<char>) -> Option<(Seq<char>, Seq<char>)> {
    if t.len() < 2 || t[0] != '[' || t.last() != ']' {
        None
    } else {
        let inner = t.subrange(1, t.len() - 1);
        let semi = spec_find_char(inner, ';');
        if semi < 0 {
            None
        } else {
            let elem = spec_trim(inner.take(semi));
            let cnt = spec_trim(inner.skip(semi + 1));
            if elem.len() == 0 || cnt.len() == 0 {
                None
            } else {
                Some((elem, cnt))
            }
        }
    }
}

/// What `spec_find_char` finds: no occurrence at all, or the leftmost one.
proof fn lemma_find_char_props(s: Seq<char>, c: char)
    ensures
        ({
            let f = spec_find_char(s, c);
            (f == -1 && forall|j: int| 0 <= j < s.len() ==> s[j] != c) || (0 <= f < s.len() && s[f]
                == c && forall|j: int| 0 <= j < f ==> s[j] != c)
        }),
    decreases s.len(),
{
    if s.len() == 0 {
    } else if s[0] == c {
    } else {
        lemma_find_char_props(s.drop_first(), c);
        let t = s.drop_first();
        let r = spec_find_char(t, c);
        if r < 0 {
            assert forall|j: int| 0 <= j < s.len() implies s[j] != c by {
                if j >= 1 {
                    assert(t[j - 1] == s[j]);
                }
            }
        } else {
            assert(s[r + 1] == t[r]);
            assert forall|j: int| 0 <= j < r + 1 implies s[j] != c by {
                if j >= 1 {
                    assert(t[j - 1] == s[j]);
                }
            }
        }
    }
}

/// Left-trimming removes exactly the leading run of whitespace.
proof fn lemma_trim_left_to(v: Seq<char>, a: int)
    requires
        0 <= a <= v.len(),
        forall|j: int| 0 <= j < a ==> spec_is_space(#[trigger] v[j]),
        a < v.len() ==> !spec_is_space(v[a]),
    ensures
        spec_trim_left(v) == v.skip(a),
    decreases v.len(),
{
    if a == 0 {
        assert(v.skip(0) =~= v);
    } else {
        assert(spec_is_space(v[0]));
        let t = v.drop_first();
        assert(forall|j: int| 0 <= j < a - 1 ==> spec_is_space(#[trigger] t[j]));
        lemma_trim_left_to(t, a - 1);
        assert(t.skip(a - 1) =~= v.skip(a));
    }
}

/// Right-trimming removes exactly the trailing run of whitespace.
proof fn lemma_trim_right_to(u: Seq<char>, b: int)
    requires
        0 <= b <= u.len(),
        forall|j: int| b <= j < u.len() ==> spec_is_space(#[trigger] u[j]),
        b > 0 ==> !spec_is_space(u[b - 1]),
    ensures
        spec_trim_right(u) == u.take(b),
    decreases u.len(),
{
    if u.len() == b {
        assert(u.take(b) =~= u);
    } else {
        assert(spec_is_space(u.last()));
        let t = u.drop_last();
        assert(forall|j: int| b <= j < t.len() ==> spec_is_space(#[trigger] t[j]));
        lemma_trim_right_to(t, b);
        assert(t.take(b) =~= u.take(b));
    }
}

/// Trimming a region whose whitespace sits only at its edges yields the
/// inner subrange.
proof fn lemma_trim_bounds(u: Seq<char>, a: int, b: int)
    requires
        0 <= a <= b <= u.len(),
        forall|j: int| 0 <= j < a ==> spec_is_space(#[trigger] u[j]),
        forall|j: int| b <= j < u.len() ==> spec_is_space(#[trigger] u[j]),
        a < b ==> !spec_is_space(u[a]) && !spec_is_space(u[b - 1]),
    ensures
        spec_trim(u) == u.subrange(a, b),
    decreases u.len(),
{
    if a == b {
        // The whole region is whitespace; both trims leave nothing.
        lemma_trim_right_to(u, 0);
        assert(u.take(0) =~= Seq::<char>::empty());
        assert(u.subrange(a, b) =~= Seq::<char>::empty());
    } else {
        lemma_trim_right_to(u, b);
        let v = u.take(b);
        assert(forall|j: int| 0 <= j < a ==> spec_is_space(#[trigger] v[j]));
        lemma_trim_left_to(v, a);
        assert(v.skip(a) =~= u.subrange(a, b));
    }
}

/// Parses the array shorthand `"[ElementType; CountReference]"`: brackets
/// at both ends, a semicolon between the two tokens, whitespace around the
/// tokens tolerated, both tokens non-empty.
pub fn parse_array_shorthand(t: &str) -> (r: Option<ArrayType>)
    ensures
        match r {
            Some(a) => spec_parse_array_shorthand(t@) == Some(
                (a.element_type@, a.count_reference@),
            ),
            None => spec_parse_array_shorthand(t@) is None,
        },
{
    let len: usize = t.unicode_len();
    if len < 2 {
        return None;
    }
    if t.get_char(0) != '[' || t.get_char(len - 1) != ']' {
        return None;
    }
    let ghost inner = t@.subrange(1, t@.len() - 1);
    // Find the first semicolon strictly inside the brackets.
    let mut semi: usize = 1;
    while semi < len - 1 && t.get_char(semi) != ';'
        invariant
            1 <= semi <= len - 1,
            2 <= len == t@.len(),
            forall|j: int| 1 <= j < semi ==> t@[j] != ';',
        decreases len - 1 - semi,
    {
        semi = semi + 1;
    }
    proof {
        assert(forall|j: int| 0 <= j < inner.len() ==> inner[j] == t@[j + 1]);
        lemma_find_char_props(inner, ';');
    }
    if semi == len - 1 {
        // No semicolon: not the two-part grammar.
        proof {
            let f = spec_find_char(inner, ';');
            if f >= 0 {
                assert(inner[f] == t@[f + 1]);
            }
        }
        return None;
    }
    proof {
        let f = spec_find_char(inner, ';');
        assert(inner[semi - 1] == ';');
        if f < 0 {
            assert(inner[semi - 1] != ';');
        }
        assert forall|j: int| 0 <= j < semi - 1 implies inner[j] != ';' by {
            assert(inner[j] == t@[j + 1]);
        }
        assert(f == semi - 1) by {
            if f < semi - 1 {
                assert(inner[f] == t@[f + 1]);
            }
        }
    }
    // Trim the element token between '[' and ';'.
    let mut a: usize = 1;
    let mut b: usize = semi;
    while a < b && is_space(t.get_char(a))
        invariant
            1 <= a <= b,
            b == semi < len == t@.len(),
            forall|j: int| 1 <= j < a ==> spec_is_space(#[trigger] t@[j]),
        decreases b - a,
    {
        a = a + 1;
    }
    while b > a && is_space(t.get_char(b - 1))
        invariant
            1 <= a <= b <= semi < len == t@.len(),
            forall|j: int| 1 <= j < a ==> spec_is_space(#[trigger] t@[j]),
            a < b ==> !spec_is_space(t@[a as int]),
            forall|j: int| b <= j < semi ==> spec_is_space(#[trigger] t@[j]),
        decreases b,
    {
        b = b - 1;
    }
    if a == b {
        // The element token is empty once trimmed.
        proof {
            lemma_elem_is_trim(t@, semi as int, a as int, b as int);
        }
        return None;
    }
    // Trim the count token between ';' and ']'.
    let mut c: usize = semi + 1;
    let mut d: usize = len - 1;
    while c < d && is_space(t.get_char(c))
        invariant
            semi + 1 <= c <= d,
            d == len - 1,
            semi < len == t@.len(),
            forall|j: int| semi + 1 <= j < c ==> spec_is_space(#[trigger] t@[j]),
        decreases d - c,
    {
        c = c + 1;
    }
    while d > c && is_space(t.get_char(d - 1))
        invariant
            semi + 1 <= c <= d <= len - 1,
            semi < len == t@.len(),
            forall|j: int| semi + 1 <= j < c ==> spec_is_space(#[trigger] t@[j]),
            c < d ==> !spec_is_space(t@[c as int]),
            forall|j: int| d <= j < len - 1 ==> spec_is_space(#[trigger] t@[j]),
        decreases d,
    {
        d = d - 1;
    }
    proof {
        lemma_elem_is_trim(t@, semi as int, a as int, b as int);
        lemma_count_is_trim(t@, semi as int, c as int, d as int);
    }
    if c == d {
        // The count token is empty once trimmed.
        return None;
    }
    let element_type = t.substring_char(a, b).to_owned();
    let count_reference = t.substring_char(c, d).to_owned();
    Some(ArrayType { element_type, count_reference })
}

/// The trimmed element token of a shorthand is the subrange the scan
/// settled on.
proof fn lemma_elem_is_trim(t: Seq<char>, semi: int, a: int, b: int)
    requires
        t.len() >= 2,
        1 <= semi < t.len(),
        1 <= a <= b <= semi,
        forall|j: int| 1 <= j < a ==> spec_is_space(#[trigger] t[j]),
        forall|j: int| b <= j < semi ==> spec_is_space(#[trigger] t[j]),
        a < b ==> !spec_is_space(t[a]) && !spec_is_space(t[b - 1]),
    ensures
        spec_trim(t.subrange(1, t.len() - 1).take(semi - 1)) == t.subrange(a, b),
{
    let inner = t.subrange(1, t.len() - 1);
    let u = inner.take(semi - 1);
    assert(forall|j: int| 0 <= j < u.len() ==> u[j] == t[j + 1]);
    lemma_trim_bounds(u, a - 1, b - 1);
    assert(u.subrange(a - 1, b - 1) =~= t.subrange(a, b));
}

/// The trimmed count token of a shorthand is the subrange the scan settled
/// on.
proof fn lemma_count_is_trim(t: Seq<char>, semi: int, c: int, d: int)
    requires
        t.len() >= 2,
        1 <= semi < t.len() - 1,
        semi + 1 <= c <= d <= t.len() - 1,
        forall|j: int| semi + 1 <= j < c ==> spec_is_space(#[trigger] t[j]),
        forall|j: int| d <= j < t.len() - 1 ==> spec_is_space(#[trigger] t[j]),
        c < d ==> !spec_is_space(t[c]) && !spec_is_space(t[d - 1]),
    ensures
        spec_trim(t.subrange(1, t.len() - 1).skip(semi)) == t.subrange(c, d),
{
    let inner = t.subrange(1, t.len() - 1);
    let u = inner.skip(semi);
    assert(forall|j: int| 0 <= j < u.len() ==> u[j] == t[j + semi + 1]);
    lemma_trim_bounds(u, c - semi - 1, d - semi - 1);
    assert(u.subrange(c - semi - 1, d - semi - 1) =~= t.subrange(c, d));
}

} // verus!
