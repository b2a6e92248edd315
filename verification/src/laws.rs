//! The engine's general laws, stated and proved once over the spec-level
//! model that the public contracts use.

use vstd::prelude::*;
use crate::api::{spec_compose_body, spec_ext_compose, spec_hdr_member};
use crate::defines::{ExtensibleStructView, DefinitionItemView, MemberView};
use crate::error::ApiGenErrorView;
use crate::sizes::{spec_members_size, spec_pad, spec_type_size};

verus! {

/// Every member's type name is a direct entry of the size namespace.
pub open spec fn spec_all_direct(ms: Seq<MemberView>, sizes: Map<Seq<char>, usize>) -> bool {
    forall|i: int| 0 <= i < ms.len() ==> sizes.contains_key((#[trigger] ms[i]).ty_name)
}

/// One member's registered size, or zero where its name is not registered.
pub open spec fn spec_direct_size(m: MemberView, sizes: Map<Seq<char>, usize>) -> int {
    if sizes.contains_key(m.ty_name) {
        sizes[m.ty_name] as int
    } else {
        0
    }
}

/// The arithmetic sum of the members' registered sizes.
pub open spec fn spec_sum_sizes(ms: Seq<MemberView>, sizes: Map<Seq<char>, usize>) -> int
    decreases ms.len(),
{
    if ms.len() == 0 {
        0
    } else {
        spec_sum_sizes(ms.drop_last(), sizes) + spec_direct_size(ms.last(), sizes)
    }
}

proof fn lemma_sum_nonneg(ms: Seq<MemberView>, sizes: Map<Seq<char>, usize>)
    ensures
        spec_sum_sizes(ms, sizes) >= 0,
    decreases ms.len(),
{
    if ms.len() > 0 {
        lemma_sum_nonneg(ms.drop_last(), sizes);
    }
}

/// Removing one member takes exactly its size out of the sum.
proof fn lemma_sum_remove(ms: Seq<MemberView>, j: int, sizes: Map<Seq<char>, usize>)
    requires
        0 <= j < ms.len(),
    ensures
        spec_sum_sizes(ms, sizes) == spec_sum_sizes(ms.remove(j), sizes) + spec_direct_size(
            ms[j],
            sizes,
        ),
    decreases ms.len(),
{
    if j == ms.len() - 1 {
        assert(ms.remove(j) =~= ms.drop_last());
    } else {
        assert(ms.remove(j).drop_last() =~= ms.drop_last().remove(j));
        assert(ms.remove(j).last() == ms.last());
        lemma_sum_remove(ms.drop_last(), j, sizes);
        assert(ms.drop_last()[j] == ms[j]);
    }
}

/// The sum of member sizes depends only on which members occur, not on
/// their order: any two member lists with the same multiset of members
/// sum to the same total.
pub proof fn lemma_sum_order_independent(
    ms1: Seq<MemberView>,
    ms2: Seq<MemberView>,
    sizes: Map<Seq<char>, usize>,
)
    requires
        ms1.to_multiset() == ms2.to_multiset(),
    ensures
        spec_sum_sizes(ms1, sizes) == spec_sum_sizes(ms2, sizes),
    decreases ms1.len(),
{
    broadcast use vstd::seq_lib::group_to_multiset_ensures;

    if ms1.len() == 0 {
        assert(ms2.to_multiset().len() == 0);
        assert(ms2.len() == 0);
    } else {
        let x = ms1.last();
        assert(ms1.contains(x));
        assert(ms1.to_multiset().count(x) > 0);
        assert(ms2.contains(x));
        let j = choose|j: int| 0 <= j < ms2.len() && ms2[j] == x;
        assert(ms1.drop_last() =~= ms1.remove(ms1.len() - 1));
        assert(ms1.remove(ms1.len() - 1).to_multiset() =~= ms1.to_multiset().remove(x));
        assert(ms2.remove(j).to_multiset() =~= ms2.to_multiset().remove(ms2[j]));
        lemma_sum_order_independent(ms1.drop_last(), ms2.remove(j), sizes);
        lemma_sum_remove(ms2, j, sizes);
    }
}

/// A sequence of directly registered members resolves to exactly the
/// arithmetic sum of their individual sizes, whenever that sum stays in
/// the machine's size range.
pub proof fn lemma_members_size_is_sum(ms: Seq<MemberView>, sizes: Map<Seq<char>, usize>)
    requires
        spec_all_direct(ms, sizes),
        spec_sum_sizes(ms, sizes) <= usize::MAX as int,
    ensures
        spec_members_size(ms, sizes) == Ok::<int, ApiGenErrorView>(spec_sum_sizes(ms, sizes)),
    decreases ms.len(),
{
    if ms.len() > 0 {
        assert(spec_all_direct(ms.drop_last(), sizes)) by {
            assert(forall|i: int|
                0 <= i < ms.len() - 1 ==> (#[trigger] ms.drop_last()[i]) == ms[i]);
        }
        assert(spec_direct_size(ms.last(), sizes) >= 0);
        lemma_sum_nonneg(ms.drop_last(), sizes);
        lemma_members_size_is_sum(ms.drop_last(), sizes);
        assert(sizes.contains_key(ms.last().ty_name));
        assert(spec_type_size(ms.last().ty_name, sizes) == Ok::<int, ApiGenErrorView>(
            sizes[ms.last().ty_name] as int,
        ));
    }
}

/// Primitive-only totals are order-independent: two member lists holding
/// the same members in any order resolve to the same total size.
pub proof fn lemma_total_order_independent(
    ms1: Seq<MemberView>,
    ms2: Seq<MemberView>,
    sizes: Map<Seq<char>, usize>,
)
    requires
        spec_all_direct(ms1, sizes),
        spec_sum_sizes(ms1, sizes) <= usize::MAX as int,
        ms1.to_multiset() == ms2.to_multiset(),
    ensures
        spec_members_size(ms1, sizes) == Ok::<int, ApiGenErrorView>(spec_sum_sizes(ms1, sizes)),
        spec_members_size(ms2, sizes) == spec_members_size(ms1, sizes),
{
    broadcast use vstd::seq_lib::group_to_multiset_ensures;

    lemma_members_size_is_sum(ms1, sizes);
    lemma_sum_order_independent(ms1, ms2, sizes);
    assert(spec_all_direct(ms2, sizes)) by {
        assert forall|i: int|
            0 <= i < ms2.len() implies sizes.contains_key((#[trigger] ms2[i]).ty_name) by {
            assert(ms2.contains(ms2[i]));
            assert(ms2.to_multiset().count(ms2[i]) > 0);
            assert(ms1.contains(ms2[i]));
            let j = choose|j: int| 0 <= j < ms1.len() && ms1[j] == ms2[i];
            assert(sizes.contains_key(ms1[j].ty_name));
        }
    }
    lemma_members_size_is_sum(ms2, sizes);
}

/// An array shorthand `[T; C]` whose type name is no direct registry key
/// resolves to exactly element size times count when both names are
/// registered; an unregistered element type reports `TypeNotFound`, and an
/// unregistered count reference reports `ConstantNotFound`.
pub proof fn lemma_array_shorthand_size(t: Seq<char>, sizes: Map<Seq<char>, usize>)
    requires
        !sizes.contains_key(t),
        t.len() > 0,
        t[0] == '[',
        crate::array_type::spec_parse_array_shorthand(t) is Some,
    ensures
        ({
            let (elem, cnt) = crate::array_type::spec_parse_array_shorthand(t).unwrap();
            &&& sizes.contains_key(elem) && sizes.contains_key(cnt) ==> spec_type_size(t, sizes)
                == Ok::<int, ApiGenErrorView>(sizes[elem] * sizes[cnt])
            &&& !sizes.contains_key(elem) ==> spec_type_size(t, sizes) == Err::<
                int,
                ApiGenErrorView,
            >(ApiGenErrorView::TypeNotFound(elem))
            &&& sizes.contains_key(elem) && !sizes.contains_key(cnt) ==> spec_type_size(t, sizes)
                == Err::<int, ApiGenErrorView>(ApiGenErrorView::ConstantNotFound(cnt))
        }),
{
}

/// The padding law: the pad of any non-negative size is under 8, and the
/// padded total always lands on an 8-byte boundary.
pub proof fn lemma_padding_law(n: int)
    requires
        n >= 0,
    ensures
        0 <= spec_pad(n) < 8,
        (n + spec_pad(n)) % 8 == 0,
{
}

/// The synthesized command header is exactly two 4-byte fields: against
/// any registry whose 4-byte unsigned primitive still carries its seeded
/// size, the header shape resolves to 8 bytes.
pub proof fn lemma_command_header_size(sizes: Map<Seq<char>, usize>)
    requires
        sizes.contains_key("u32"@),
        sizes["u32"@] == 4,
    ensures
        spec_members_size(crate::api::spec_protocol_hdr_members(), sizes) == Ok::<
            int,
            ApiGenErrorView,
        >(8),
{
    let hm = crate::api::spec_protocol_hdr_members();
    assert(hm.len() == 2);
    assert(hm.drop_last().drop_last() =~= Seq::<MemberView>::empty());
    assert(hm.drop_last().last() == hm[0]);
    assert(hm[0].ty_name == "u32"@);
    assert(hm.last().ty_name == "u32"@);
    assert(spec_members_size(hm.drop_last().drop_last(), sizes) == Ok::<int, ApiGenErrorView>(0));
    assert(spec_type_size("u32"@, sizes) == Ok::<int, ApiGenErrorView>(4));
    assert(spec_members_size(hm.drop_last(), sizes) == Ok::<int, ApiGenErrorView>(4));
}

/// Header-only composition: with the command header registered at its
/// 8-byte size, a request or response with no members of its own composes
/// to the bare header member — total size exactly 8 and no padding
/// appended.
pub proof fn lemma_empty_body_composes_to_header(hdr_name: Seq<char>, sizes: Map<Seq<char>, usize>)
    requires
        sizes.contains_key(hdr_name),
        sizes[hdr_name] == 8,
    ensures
        spec_members_size(seq![spec_hdr_member(hdr_name)], sizes) == Ok::<int, ApiGenErrorView>(8),
        spec_compose_body(Seq::empty(), hdr_name, sizes) == Ok::<Seq<MemberView>, ApiGenErrorView>(
            seq![spec_hdr_member(hdr_name)],
        ),
{
    let with_hdr = seq![spec_hdr_member(hdr_name)] + Seq::<MemberView>::empty();
    assert(with_hdr =~= seq![spec_hdr_member(hdr_name)]);
    assert(with_hdr.len() == 1);
    assert(with_hdr.last() == spec_hdr_member(hdr_name));
    assert(with_hdr.drop_last() =~= Seq::<MemberView>::empty());
    assert(spec_members_size(with_hdr.drop_last(), sizes) == Ok::<int, ApiGenErrorView>(0));
    assert(spec_type_size(hdr_name, sizes) == Ok::<int, ApiGenErrorView>(8));
    assert(spec_members_size(with_hdr, sizes) == Ok::<int, ApiGenErrorView>(8));
    assert(spec_pad(8) == 0);
}

/// Extensible-family composition for one variant: with own-member size `m`
/// and wire-header size `h`, the registered total is exactly `m + h`, and
/// the attached padding follows the padding law applied to `m + h`.
pub proof fn lemma_variant_total(
    v: ExtensibleStructView,
    hdr_size: int,
    sizes: Map<Seq<char>, usize>,
    items: Map<Seq<char>, DefinitionItemView>,
)
    requires
        hdr_size >= 0,
        spec_members_size(v.common.members, sizes) is Ok,
        spec_members_size(v.common.members, sizes)->Ok_0 + hdr_size <= usize::MAX as int,
    ensures
        ({
            let m = spec_members_size(v.common.members, sizes)->Ok_0;
            let comp = spec_ext_compose(seq![v], hdr_size, sizes, items);
            &&& comp.3 is None
            &&& comp.0 == sizes.insert(v.common.name, (m + hdr_size) as usize)
            &&& comp.0[v.common.name] == m + hdr_size
            &&& comp.2.len() == 1
            &&& comp.2[0].padding == (if spec_pad(m + hdr_size) == 0 {
                None
            } else {
                Some(crate::sizes::spec_padding_member(spec_pad(m + hdr_size)))
            })
            &&& (m + hdr_size + spec_pad(m + hdr_size)) % 8 == 0
        }),
{
    let vs = seq![v];
    assert(vs.first() == v);
    assert(vs.drop_first() =~= Seq::<ExtensibleStructView>::empty());
    let m = spec_members_size(v.common.members, sizes)->Ok_0;
    lemma_members_size_in_range(v.common.members, sizes);
    lemma_padding_law(m + hdr_size);
    let total = m + hdr_size;
    let v2 = ExtensibleStructView {
        stype: v.stype,
        common: v.common,
        padding: if spec_pad(total) == 0 {
            None
        } else {
            Some(crate::sizes::spec_padding_member(spec_pad(total)))
        },
    };
    let comp = spec_ext_compose(vs, hdr_size, sizes, items);
    assert(spec_ext_compose(vs.drop_first(), hdr_size, sizes.insert(
        v.common.name,
        total as usize,
    ), items.insert(v.common.name, DefinitionItemView::ExtensibleStruct(v2))).2
        =~= Seq::<ExtensibleStructView>::empty());
    assert(comp.2 =~= seq![v2]);
    assert(comp.2[0] == v2);
}

/// A resolved total always lies in the machine's size range.
pub proof fn lemma_members_size_in_range(ms: Seq<MemberView>, sizes: Map<Seq<char>, usize>)
    requires
        spec_members_size(ms, sizes) is Ok,
    ensures
        0 <= spec_members_size(ms, sizes)->Ok_0 <= usize::MAX as int,
    decreases ms.len(),
{
    if ms.len() > 0 {
        lemma_members_size_in_range(ms.drop_last(), sizes);
        match spec_type_size(ms.last().ty_name, sizes) {
            Ok(m) => {
                assert(m >= 0);
            },
            Err(_) => {},
        }
    }
}

/// Re-registration overwrites: after a later item claims a name, only the
/// later entry is visible under it, in both namespaces.
pub proof fn lemma_reregistration_overwrites(
    sizes: Map<Seq<char>, usize>,
    items: Map<Seq<char>, DefinitionItemView>,
    name: Seq<char>,
    s1: usize,
    s2: usize,
    i1: DefinitionItemView,
    i2: DefinitionItemView,
)
    ensures
        sizes.insert(name, s1).insert(name, s2) == sizes.insert(name, s2),
        sizes.insert(name, s1).insert(name, s2)[name] == s2,
        items.insert(name, i1).insert(name, i2) == items.insert(name, i2),
        items.insert(name, i1).insert(name, i2)[name] == i2,
{
    assert(sizes.insert(name, s1).insert(name, s2) =~= sizes.insert(name, s2));
    assert(items.insert(name, i1).insert(name, i2) =~= items.insert(name, i2));
}

} // verus!

