//! Name-shaping utilities: PascalCase conversion for synthesized header
//! type names, and substring splitting.

use vstd::prelude::*;
use vstd::string::StrSliceExecFns;
use crate::text::{push_char, spec_to_upper, str_eq, to_ascii_upper};

verus! {

/// The PascalCase image of a name, with `cap` telling whether the next
/// letter starts a word: underscores are dropped and each character that
/// follows one (or starts the string) is uppercased.
pub open spec fn spec_pascal_rec(s: Seq<char>, cap: bool) -> Seq<char>
    decreases s.len(),
{
    if s.len() == 0 {
        Seq::empty()
    } else if s[0] == '_' {
        spec_pascal_rec(s.drop_first(), true)
    } else if cap {
        seq![spec_to_upper(s[0])] + spec_pascal_rec(s.drop_first(), false)
    } else {
        seq![s[0]] + spec_pascal_rec(s.drop_first(), false)
    }
}

/// The PascalCase image of a whole name.
pub open spec fn spec_pascal(s: Seq<char>) -> Seq<char> {
    spec_pascal_rec(s, true)
}

/// Converts a lower_snake_case name to PascalCase: underscores are dropped
/// and every character that follows one, as well as the first character,
/// is uppercased.
pub fn to_pascal_case(s: &str) -> (r: String)
    ensures
        r@ == spec_pascal(s@),
{
    let len: usize = s.unicode_len();
    let mut pascal = String::new();
    let mut capitalize = true;
    let mut i: usize = 0;
    proof {
        assert(s@.skip(0) =~= s@);
        assert(pascal@ + spec_pascal_rec(s@, true) =~= spec_pascal_rec(s@, true));
    }
    while i < len
        invariant
            0 <= i <= len,
            len == s@.len(),
            pascal@ + spec_pascal_rec(s@.skip(i as int), capitalize) == spec_pascal(s@),
        decreases len - i,
    {
        let c: char = s.get_char(i);
        let ghost pre = pascal@;
        let ghost cap0 = capitalize;
        proof {
            assert(s@.skip(i as int)[0] == s@[i as int]);
            assert(s@.skip(i as int).drop_first() =~= s@.skip(i + 1));
        }
        if c == '_' {
            capitalize = true;
        } else {
            if capitalize {
                push_char(&mut pascal, to_ascii_upper(c));
                capitalize = false;
            } else {
                push_char(&mut pascal, c);
            }
            proof {
                assert(pascal@ + spec_pascal_rec(s@.skip(i + 1), false) =~= pre
                    + spec_pascal_rec(s@.skip(i as int), cap0));
            }
        }
        i = i + 1;
    }
    proof {
        assert(s@.skip(len as int) =~= Seq::<char>::empty());
        assert(pascal@ =~= pascal@ + spec_pascal_rec(s@.skip(len as int), capitalize));
    }
    pascal
}

} // verus!

verus! {

/// The sequences each string of a list views to.
pub open spec fn spec_str_seq(v: Seq<String>) -> Seq<Seq<char>> {
    v.map_values(|t: String| t@)
}

/// There is a match of `p` at position `i` of `s`.
pub open spec fn spec_match_at(s: Seq<char>, p: Seq<char>, i: int) -> bool {
    0 <= i && i + p.len() <= s.len() && s.subrange(i, i + p.len() as int) == p
}

/// The first position of `s` where `p` matches, or -1 when it never does.
pub open spec fn spec_find_sub(s: Seq<char>, p: Seq<char>) -> int
    decreases s.len(),
{
    if s.len() < p.len() {
        -1
    } else if s.take(p.len() as int) == p {
        0
    } else if s.len() == 0 {
        -1
    } else {
        let r = spec_find_sub(s.drop_first(), p);
        if r < 0 {
            -1
        } else {
            r + 1
        }
    }
}

/// Splitting on the empty separator: an empty string, then each character
/// on its own, then an empty string again.
pub open spec fn spec_split_empty_sep(s: Seq<char>) -> Seq<Seq<char>> {
    Seq::new(
        s.len() + 2,
        |i: int|
            if i == 0 || i == s.len() + 1 {
                Seq::empty()
            } else {
                seq![s[i - 1]]
            },
    )
}

/// The pieces of `s` between non-overlapping leftmost matches of `p`.
pub open spec fn spec_split(s: Seq<char>, p: Seq<char>) -> Seq<Seq<char>>
    decreases s.len(),
{
    if p.len() == 0 {
        spec_split_empty_sep(s)
    } else {
        let f = spec_find_sub(s, p);
        if f < 0 || f + p.len() > s.len() {
            seq![s]
        } else {
            seq![s.take(f)] + spec_split(s.skip(f + p.len() as int), p)
        }
    }
}

/// What `spec_find_sub` finds: either there is no match at all, or the
/// returned position carries the leftmost one.
proof fn lemma_find_sub_props(s: Seq<char>, p: Seq<char>)
    ensures
        ({
            let f = spec_find_sub(s, p);
            (f == -1 && forall|j: int| !spec_match_at(s, p, j)) || (0 <= f && f + p.len()
                <= s.len() && spec_match_at(s, p, f) && forall|j: int|
                0 <= j < f ==> !spec_match_at(s, p, j))
        }),
    decreases s.len(),
{
    let f = spec_find_sub(s, p);
    if s.len() < p.len() {
        assert(forall|j: int| !spec_match_at(s, p, j));
    } else if s.take(p.len() as int) == p {
        assert(spec_match_at(s, p, 0)) by {
            assert(s.subrange(0, p.len() as int) =~= s.take(p.len() as int));
        }
    } else if s.len() == 0 {
        assert(forall|j: int| !spec_match_at(s, p, j));
    } else {
        lemma_find_sub_props(s.drop_first(), p);
        let t = s.drop_first();
        assert(forall|j: int|
            1 <= j ==> (#[trigger] spec_match_at(s, p, j) == spec_match_at(t, p, j - 1))) by {
            assert forall|j: int| 1 <= j implies (spec_match_at(s, p, j) == spec_match_at(
                t,
                p,
                j - 1,
            )) by {
                if j + p.len() <= s.len() {
                    assert(s.subrange(j, j + p.len() as int) =~= t.subrange(
                        j - 1,
                        j - 1 + p.len() as int,
                    ));
                }
            }
        }
        assert(!spec_match_at(s, p, 0)) by {
            assert(s.subrange(0, p.len() as int) =~= s.take(p.len() as int));
        }
        let r = spec_find_sub(t, p);
        if r < 0 {
            assert(forall|j: int| !spec_match_at(s, p, j)) by {
                assert forall|j: int| !spec_match_at(s, p, j) by {
                    if j >= 1 {
                        assert(spec_match_at(s, p, j) == spec_match_at(t, p, j - 1));
                    }
                }
            }
        } else {
            assert(spec_match_at(s, p, r + 1));
            assert(forall|j: int| 0 <= j < r + 1 ==> !spec_match_at(s, p, j)) by {
                assert forall|j: int| 0 <= j < r + 1 implies !spec_match_at(s, p, j) by {
                    if j >= 1 {
                        assert(spec_match_at(s, p, j) == spec_match_at(t, p, j - 1));
                    }
                }
            }
        }
    }
}

/// Splits `s` on every non-overlapping leftmost occurrence of `p`, as the
/// standard library's string `split` does, including the bracketing empty
/// pieces produced by an empty separator.
pub fn split(s: &str, p: &str) -> (r: Vec<String>)
    ensures
        spec_str_seq(r@) == spec_split(s@, p@),
{
    let slen: usize = s.unicode_len();
    let plen: usize = p.unicode_len();
    let mut parts: Vec<String> = Vec::new();
    if plen == 0 {
        parts.push(String::new());
        proof {
            assert(spec_str_seq(parts@) =~~= spec_split_empty_sep(s@).take(1));
        }
        let mut i: usize = 0;
        while i < slen
            invariant
                0 <= i <= slen,
                slen == s@.len(),
                spec_str_seq(parts@) == spec_split_empty_sep(s@).take(i + 1),
            decreases slen - i,
        {
            let mut piece = String::new();
            push_char(&mut piece, s.get_char(i));
            let ghost pre = parts@;
            parts.push(piece);
            proof {
                assert(piece@ =~= seq![s@[i as int]]);
                assert(pre.len() == i + 1) by {
                    assert(spec_str_seq(pre).len() == pre.len());
                }
                assert(parts@ == pre.push(piece));
                assert forall|k: int| 0 <= k < i + 2 implies spec_str_seq(parts@)[k]
                    == spec_split_empty_sep(s@).take(i + 2)[k] by {
                    if k <= i {
                        assert(parts@[k] == pre[k]);
                        assert(spec_str_seq(pre)[k] == spec_split_empty_sep(s@).take(i + 1)[k]);
                    } else {
                        assert(parts@[k] == piece);
                    }
                }
                assert(spec_str_seq(parts@) =~= spec_split_empty_sep(s@).take(i + 2));
            }
            i = i + 1;
        }
        let ghost pre = parts@;
        parts.push(String::new());
        proof {
            assert(pre.len() == slen + 1) by {
                assert(spec_str_seq(pre).len() == pre.len());
            }
            assert forall|k: int| 0 <= k < slen + 2 implies spec_str_seq(parts@)[k]
                == spec_split_empty_sep(s@)[k] by {
                if k <= slen {
                    assert(parts@[k] == pre[k]);
                    assert(spec_str_seq(pre)[k] == spec_split_empty_sep(s@).take(slen + 1)[k]);
                }
            }
            assert(spec_str_seq(parts@) =~= spec_split_empty_sep(s@));
        }
        return parts;
    }
    let mut start: usize = 0;
    let mut i: usize = 0;
    proof {
        assert(s@.skip(0) =~= s@);
        assert(spec_str_seq(parts@) + spec_split(s@, p@) =~= spec_split(s@, p@));
    }
    while plen <= slen - i
        invariant
            0 <= start <= i <= slen,
            plen == p@.len(),
            plen >= 1,
            slen == s@.len(),
            spec_str_seq(parts@) + spec_split(s@.skip(start as int), p@) == spec_split(s@, p@),
            forall|j: int| start <= j < i ==> !spec_match_at(s@, p@, j),
        decreases slen - i,
    {
        let sub = s.substring_char(i, i + plen);
        if str_eq(sub, p) {
            let piece = s.substring_char(start, i).to_owned();
            proof {
                lemma_split_step(s@, p@, start as int, i as int);
            }
            parts.push(piece);
            proof {
                assert(spec_str_seq(parts@) =~= spec_str_seq(parts@.drop_last()).push(
                    s@.subrange(start as int, i as int),
                ));
                assert(spec_str_seq(parts@) + spec_split(s@.skip(i + plen), p@) =~= spec_str_seq(
                    parts@.drop_last(),
                ) + spec_split(s@.skip(start as int), p@));
            }
            start = i + plen;
            i = start;
        } else {
            proof {
                assert(!spec_match_at(s@, p@, i as int));
            }
            i = i + 1;
        }
    }
    let piece = s.substring_char(start, slen).to_owned();
    proof {
        lemma_split_rest(s@, p@, start as int, i as int);
        assert(s@.skip(start as int) =~= s@.subrange(start as int, slen as int));
    }
    parts.push(piece);
    proof {
        assert(spec_str_seq(parts@) =~= spec_str_seq(parts@.drop_last()).push(
            s@.subrange(start as int, slen as int),
        ));
        assert(spec_str_seq(parts@) =~= spec_str_seq(parts@.drop_last()) + spec_split(
            s@.skip(start as int),
            p@,
        ));
    }
    parts
}

/// One splitting step: when the leftmost match of `p` at or after `start`
/// sits at `i`, the suffix split opens with the piece between them.
proof fn lemma_split_step(s: Seq<char>, p: Seq<char>, start: int, i: int)
    requires
        p.len() >= 1,
        0 <= start <= i,
        i + p.len() <= s.len(),
        s.subrange(i, i + p.len() as int) == p,
        forall|j: int| start <= j < i ==> !spec_match_at(s, p, j),
    ensures
        spec_split(s.skip(start), p) == seq![s.subrange(start, i)] + spec_split(
            s.skip(i + p.len() as int),
            p,
        ),
{
    let t = s.skip(start);
    assert(forall|j: int|
        0 <= j ==> (#[trigger] spec_match_at(t, p, j) == spec_match_at(s, p, start + j))) by {
        assert forall|j: int| 0 <= j implies (spec_match_at(t, p, j) == spec_match_at(
            s,
            p,
            start + j,
        )) by {
            if j + p.len() <= t.len() {
                assert(t.subrange(j, j + p.len() as int) =~= s.subrange(
                    start + j,
                    start + j + p.len() as int,
                ));
            }
        }
    }
    assert(spec_match_at(s, p, i));
    assert(spec_match_at(t, p, i - start));
    lemma_find_sub_props(t, p);
    let f = spec_find_sub(t, p);
    assert(f == i - start) by {
        assert(spec_match_at(t, p, f));
        assert(!(f < i - start)) by {
            if f < i - start {
                assert(spec_match_at(s, p, start + f));
            }
        }
        assert(!(f > i - start));
    }
    assert(t.take(f) =~= s.subrange(start, i));
    assert(t.skip(f + p.len() as int) =~= s.skip(i + p.len() as int));
}

/// The final piece: when no match of `p` begins at or after `start`, the
/// suffix split is that whole suffix alone.
proof fn lemma_split_rest(s: Seq<char>, p: Seq<char>, start: int, i: int)
    requires
        p.len() >= 1,
        0 <= start <= i <= s.len(),
        i + p.len() > s.len(),
        forall|j: int| start <= j < i ==> !spec_match_at(s, p, j),
    ensures
        spec_split(s.skip(start), p) == seq![s.skip(start)],
{
    let t = s.skip(start);
    assert(forall|j: int|
        0 <= j ==> (#[trigger] spec_match_at(t, p, j) == spec_match_at(s, p, start + j))) by {
        assert forall|j: int| 0 <= j implies (spec_match_at(t, p, j) == spec_match_at(
            s,
            p,
            start + j,
        )) by {
            if j + p.len() <= t.len() {
                assert(t.subrange(j, j + p.len() as int) =~= s.subrange(
                    start + j,
                    start + j + p.len() as int,
                ));
            }
        }
    }
    assert(forall|j: int| !spec_match_at(t, p, j)) by {
        assert forall|j: int| !spec_match_at(t, p, j) by {
            if 0 <= j && j + p.len() <= t.len() {
                assert(start + j < i);
                assert(spec_match_at(t, p, j) == spec_match_at(s, p, start + j));
            }
        }
    }
    lemma_find_sub_props(t, p);
    let f = spec_find_sub(t, p);
    assert(f == -1) by {
        if f >= 0 {
            assert(spec_match_at(t, p, f));
        }
    }
}

} // verus!
