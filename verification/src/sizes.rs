//! The size resolver and the padding calculator.
//!
//! The resolver computes the byte size of an ordered field sequence against
//! the current registry snapshot: a direct registry hit contributes its
//! size, the array shorthand contributes element size times count, anything
//! else is a hard failure.  The padding calculator rounds a computed size
//! up to the next 8-byte boundary with one synthetic trailing member.

use vstd::prelude::*;
use vstd::string::StrSliceExecFns;
use crate::array_type::{parse_array_shorthand, spec_parse_array_shorthand};
use crate::defines::{Member, MemberView, spec_member_seq};
use crate::error::{ApiGenError, ApiGenErrorView};
use crate::name_map::NameMap;

verus! {

/// The byte size one type name resolves to against a registry snapshot:
/// the registered size for a direct hit; element size times count for a
/// well-formed array shorthand whose element and count are both
/// registered; otherwise the error naming what is missing or malformed.
pub open spec fn spec_type_size(t: Seq<char>, sizes: Map<Seq<char>, usize>) -> Result<
    int,
    ApiGenErrorView,
> {
    if sizes.contains_key(t) {
        Ok(sizes[t] as int)
    } else if t.len() > 0 && t[0] == '[' {
        match spec_parse_array_shorthand(t) {
            Some((elem, cnt)) => {
                if !sizes.contains_key(elem) {
                    Err(ApiGenErrorView::TypeNotFound(elem))
                } else if !sizes.contains_key(cnt) {
                    Err(ApiGenErrorView::ConstantNotFound(cnt))
                } else {
                    Ok(sizes[elem] * sizes[cnt])
                }
            },
            None => Err(ApiGenErrorView::InvalidArrayTypeFormat(t)),
        }
    } else {
        Err(ApiGenErrorView::TypeNotFound(t))
    }
}

/// The total byte size of an ordered member sequence: the sum of each
/// member's resolved type size, failing on the first unresolvable member,
/// or on the first member at which the running total leaves the machine's
/// size range.
pub open spec fn spec_members_size(ms: Seq<MemberView>, sizes: Map<Seq<char>, usize>) -> Result<
    int,
    ApiGenErrorView,
>
    decreases ms.len(),
{
    if ms.len() == 0 {
        Ok(0)
    } else {
        match spec_members_size(ms.drop_last(), sizes) {
            Err(e) => Err(e),
            Ok(n) => match spec_type_size(ms.last().ty_name, sizes) {
                Err(e) => Err(e),
                Ok(m) => {
                    if n + m > usize::MAX as int {
                        Err(ApiGenErrorView::SizeOverflow(ms.last().ty_name))
                    } else {
                        Ok(n + m)
                    }
                },
            },
        }
    }
}

/// Once a prefix fails, the whole sequence fails the same way.
pub proof fn lemma_members_size_err(ms: Seq<MemberView>, sizes: Map<Seq<char>, usize>, i: int)
    requires
        0 <= i <= ms.len(),
        spec_members_size(ms.take(i), sizes) is Err,
    ensures
        spec_members_size(ms, sizes) == spec_members_size(ms.take(i), sizes),
    decreases ms.len() - i,
{
    if i < ms.len() {
        assert(ms.take(i + 1).drop_last() =~= ms.take(i));
        assert(spec_members_size(ms.take(i + 1), sizes) == spec_members_size(ms.take(i), sizes));
        lemma_members_size_err(ms, sizes, i + 1);
    } else {
        assert(ms.take(i) =~= ms);
    }
}

/// Resolves the total byte size of an ordered member list against the
/// registry snapshot, exactly as `spec_members_size` states it.
pub fn calculate_member_size(members: &Vec<Member>, sizes: &NameMap<usize>) -> (r: Result<
    usize,
    ApiGenError,
>)
    requires
        sizes.wf(),
    ensures
        match r {
            Ok(n) => spec_members_size(spec_member_seq(members@), sizes@) == Ok::<int, ApiGenErrorView>(n as int),
            Err(e) => spec_members_size(spec_member_seq(members@), sizes@) == Err::<int, ApiGenErrorView>(e@),
        },
{
    let ghost ms = spec_member_seq(members@);
    let n: usize = members.len();
    let mut size: usize = 0;
    let mut i: usize = 0;
    while i < n
        invariant
            0 <= i <= n,
            n == members@.len(),
            ms == spec_member_seq(members@),
            ms.len() == n,
            sizes.wf(),
            spec_members_size(ms.take(i as int), sizes@) == Ok::<int, ApiGenErrorView>(size as int),
        decreases n - i,
    {
        let member = &members[i];
        proof {
            assert(ms.take(i + 1).drop_last() =~= ms.take(i as int));
            assert(ms.take(i + 1).last() == ms[i as int]);
            assert(ms[i as int] == member@);
        }
        let step: Result<usize, ApiGenError> = member_step(member, sizes, size);
        match step {
            Ok(next) => {
                size = next;
            },
            Err(e) => {
                proof {
                    lemma_members_size_err(ms, sizes@, i + 1);
                }
                return Err(e);
            },
        }
        i = i + 1;
    }
    proof {
        assert(ms.take(n as int) =~= ms);
    }
    Ok(size)
}

/// One member's contribution: the running total extended by this member's
/// resolved size, or the error that stops the whole resolution.
fn member_step(member: &Member, sizes: &NameMap<usize>, size: usize) -> (r: Result<
    usize,
    ApiGenError,
>)
    requires
        sizes.wf(),
    ensures
        match r {
            Ok(next) => {
                &&& spec_type_size(member@.ty_name, sizes@) matches Ok(m)
                &&& size + m <= usize::MAX as int
                &&& next == size + m
            },
            Err(e) => match spec_type_size(member@.ty_name, sizes@) {
                Err(te) => e@ == te,
                Ok(m) => size + m > usize::MAX as int && e@
                    == ApiGenErrorView::SizeOverflow(member@.ty_name),
            },
        },
{
    match sizes.get(&member.ty_name) {
        Some(s) => {
            match size.checked_add(*s) {
                Some(next) => Ok(next),
                None => Err(ApiGenError::SizeOverflow(member.ty_name.clone())),
            }
        },
        None => {
            let len: usize = member.ty_name.as_str().unicode_len();
            if !(len > 0 && member.ty_name.as_str().get_char(0) == '[') {
                return Err(ApiGenError::TypeNotFound(member.ty_name.clone()));
            }
            match parse_array_shorthand(member.ty_name.as_str()) {
                None => Err(ApiGenError::InvalidArrayTypeFormat(member.ty_name.clone())),
                Some(at) => {
                    let elem_size: usize = match sizes.get(&at.element_type) {
                        Some(es) => *es,
                        None => {
                            return Err(ApiGenError::TypeNotFound(at.element_type));
                        },
                    };
                    let count: usize = match sizes.get(&at.count_reference) {
                        Some(cs) => *cs,
                        None => {
                            return Err(ApiGenError::ConstantNotFound(at.count_reference));
                        },
                    };
                    let product: usize = match elem_size.checked_mul(count) {
                        Some(p) => p,
                        None => {
                            return Err(ApiGenError::SizeOverflow(member.ty_name.clone()));
                        },
                    };
                    match size.checked_add(product) {
                        Some(next) => Ok(next),
                        None => Err(ApiGenError::SizeOverflow(member.ty_name.clone())),
                    }
                },
            }
        },
    }
}

/// The trailing padding a size needs to reach the next 8-byte boundary.
pub open spec fn spec_pad(n: int) -> int {
    (8 - n % 8) % 8
}

/// The shape of the synthetic padding member for a non-zero padding `p`:
/// one 4-byte scalar for the size-4 case, else a byte array of length `p`.
pub open spec fn spec_padding_member(p: int) -> MemberView {
    MemberView {
        ty_name: if p == 4 {
            "u32"@
        } else if p == 1 {
            "[u8; 1]"@
        } else if p == 2 {
            "[u8; 2]"@
        } else if p == 3 {
            "[u8; 3]"@
        } else if p == 5 {
            "[u8; 5]"@
        } else if p == 6 {
            "[u8; 6]"@
        } else {
            "[u8; 7]"@
        },
        qualifier: Seq::empty(),
        name: "padding"@,
    }
}

/// Computes the trailing padding member for a resolved size: none on an
/// 8-byte boundary, a single 4-byte scalar when exactly 4 bytes are
/// missing, and a byte array of the exact missing length otherwise.
pub fn calculate_padding(size: usize) -> (r: Option<Member>)
    ensures
        spec_pad(size as int) == 0 ==> r is None,
        spec_pad(size as int) != 0 ==> ({
            &&& r matches Some(m)
            &&& m@ == spec_padding_member(spec_pad(size as int))
        }),
{
    let padding: usize = (8 - (size % 8)) % 8;
    if padding == 0 {
        None
    } else {
        let ty: &str = if padding == 4 {
            "u32"
        } else if padding == 1 {
            "[u8; 1]"
        } else if padding == 2 {
            "[u8; 2]"
        } else if padding == 3 {
            "[u8; 3]"
        } else if padding == 5 {
            "[u8; 5]"
        } else if padding == 6 {
            "[u8; 6]"
        } else {
            "[u8; 7]"
        };
        Some(Member { ty_name: ty.to_owned(), qualifier: String::new(), name: "padding".to_owned() })
    }
}

} // verus!
