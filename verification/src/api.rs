//! The registry and its ingestion operations.
//!
//! An [`Api`] owns the two lockstep namespaces of a generation run — type
//! sizes and item definitions — together with the declared groupings,
//! output-file descriptors and header metadata.  Each `add_*` operation is
//! the sole legal way to introduce an item of its kind: it validates,
//! resolves sizes eagerly against the registry as it stands, and commits
//! the result.  Registering under an existing name overwrites the prior
//! entry.

use vstd::prelude::*;
use vstd::string::StrSliceExecFns;
use vstd::string::StringExecFns;
use crate::array_type::{parse_array_shorthand, spec_parse_array_shorthand};
use crate::defines::{
    spec_array_info_seq, spec_ext_struct_seq, spec_member_seq, spec_request_seq,
    spec_response_seq, ArrayInfo, ArrayInfoView, Constant, Copyright, CopyrightView, Definition,
    DefinitionItem, DefinitionItemView, DefinitionView, Enum, EnumEntry, EnumView,
    ExtensibleStruct, ExtensibleStructs, ExtensibleStructsView, Flag, Function, GeneratedFile,
    GeneratedFileView, Member, MemberView, Object, ObjectView, Protocol, ProtocolView,
    StructCommon, StructCommonView, StructDef, StructDefView,
};
use crate::error::{ApiGenError, ApiGenErrorView};
use crate::name_map::NameMap;
use crate::sizes::{
    calculate_member_size, calculate_padding, spec_members_size, spec_pad, spec_padding_member,
};
use crate::text::{parse_usize, spec_is_usize_string, spec_usize_string_val};
use crate::utils::{spec_pascal, to_pascal_case};

verus! {

/// The count-sibling naming convention: the array member's name with one
/// trailing `s` stripped, then `_count`.
pub open spec fn spec_count_sibling_name(name: Seq<char>) -> Seq<char> {
    (if name.len() > 0 && name.last() == 's' {
        name.drop_last()
    } else {
        name
    }) + "_count"@
}

/// Some member of the list carries exactly this name.
pub open spec fn spec_has_member_named(ms: Seq<MemberView>, n: Seq<char>) -> bool {
    exists|i: int| 0 <= i < ms.len() && ms[i].name == n
}

/// The relationship one member would contribute, were its count sibling
/// present: its shorthand's element type and the conventional sibling name.
pub open spec fn spec_member_array_info(m: MemberView) -> Option<ArrayInfoView> {
    match spec_parse_array_shorthand(m.ty_name) {
        Some((elem, cnt)) => Some(
            ArrayInfoView {
                array_member_name: m.name,
                array_base_type: elem,
                count_member_name: spec_count_sibling_name(m.name),
            },
        ),
        None => None,
    }
}

/// The derived relationships of the first `k` members, in member order:
/// one entry per member whose type is a well-formed array shorthand and
/// whose count sibling exists among all the members.
pub open spec fn spec_infer_rec(ms: Seq<MemberView>, k: int) -> Seq<ArrayInfoView>
    decreases k,
{
    if k <= 0 {
        Seq::empty()
    } else {
        spec_infer_rec(ms, k - 1) + (match spec_member_array_info(ms[k - 1]) {
            Some(info) => {
                if spec_has_member_named(ms, info.count_member_name) {
                    seq![info]
                } else {
                    Seq::empty()
                }
            },
            None => Seq::empty(),
        })
    }
}

/// The derived array/count relationships of a whole member list.
pub open spec fn spec_infer_array_info(ms: Seq<MemberView>) -> Seq<ArrayInfoView> {
    spec_infer_rec(ms, ms.len() as int)
}

/// The synthesized protocol command header shape: exactly two 4-byte
/// fields, the command selector and the payload size.
pub open spec fn spec_protocol_hdr_members() -> Seq<MemberView> {
    seq![
        MemberView { ty_name: "u32"@, qualifier: Seq::empty(), name: "proto"@ },
        MemberView { ty_name: "u32"@, qualifier: Seq::empty(), name: "size"@ },
    ]
}

/// The header-typed member prepended to every request and response.
pub open spec fn spec_hdr_member(hdr_name: Seq<char>) -> MemberView {
    MemberView { ty_name: hdr_name, qualifier: Seq::empty(), name: "hdr"@ }
}

/// One composed request or response body: the header member first, then
/// the declared members, then the padding member its resolved total calls
/// for.
pub open spec fn spec_compose_body(
    members: Seq<MemberView>,
    hdr_name: Seq<char>,
    sizes: Map<Seq<char>, usize>,
) -> Result<Seq<MemberView>, ApiGenErrorView> {
    let with_hdr = seq![spec_hdr_member(hdr_name)] + members;
    match spec_members_size(with_hdr, sizes) {
        Err(e) => Err(e),
        Ok(n) => Ok(
            if spec_pad(n) == 0 {
                with_hdr
            } else {
                with_hdr.push(spec_padding_member(spec_pad(n)))
            },
        ),
    }
}

/// All bodies composed in order, stopping at the first failure.
pub open spec fn spec_compose_bodies(
    bodies: Seq<Seq<MemberView>>,
    hdr_name: Seq<char>,
    sizes: Map<Seq<char>, usize>,
) -> Result<Seq<Seq<MemberView>>, ApiGenErrorView>
    decreases bodies.len(),
{
    if bodies.len() == 0 {
        Ok(Seq::empty())
    } else {
        match spec_compose_bodies(bodies.drop_last(), hdr_name, sizes) {
            Err(e) => Err(e),
            Ok(rs) => match spec_compose_body(bodies.last(), hdr_name, sizes) {
                Err(e) => Err(e),
                Ok(b) => Ok(rs.push(b)),
            },
        }
    }
}

/// Once a prefix of the bodies fails, the whole list fails the same way.
pub proof fn lemma_compose_bodies_err(
    bodies: Seq<Seq<MemberView>>,
    hdr_name: Seq<char>,
    sizes: Map<Seq<char>, usize>,
    i: int,
)
    requires
        0 <= i <= bodies.len(),
        spec_compose_bodies(bodies.take(i), hdr_name, sizes) is Err,
    ensures
        spec_compose_bodies(bodies, hdr_name, sizes) == spec_compose_bodies(
            bodies.take(i),
            hdr_name,
            sizes,
        ),
    decreases bodies.len() - i,
{
    if i < bodies.len() {
        assert(bodies.take(i + 1).drop_last() =~= bodies.take(i));
        lemma_compose_bodies_err(bodies, hdr_name, sizes, i + 1);
    } else {
        assert(bodies.take(i) =~= bodies);
    }
}

/// The member lists of a request sequence.
pub open spec fn spec_bodies_of_req(rs: Seq<crate::defines::RequestView>) -> Seq<Seq<MemberView>> {
    rs.map_values(|r: crate::defines::RequestView| r.members)
}

/// The member lists of a response sequence.
pub open spec fn spec_bodies_of_resp(rs: Seq<crate::defines::ResponseView>) -> Seq<
    Seq<MemberView>,
> {
    rs.map_values(|r: crate::defines::ResponseView| r.members)
}

/// The requests with their composed bodies attached, opcodes untouched.
pub open spec fn spec_attach_req(
    rs: Seq<crate::defines::RequestView>,
    bodies: Seq<Seq<MemberView>>,
) -> Seq<crate::defines::RequestView> {
    Seq::new(
        rs.len(),
        |i: int| crate::defines::RequestView { opcode: rs[i].opcode, members: bodies[i] },
    )
}

/// The responses with their composed bodies attached, opcodes untouched.
pub open spec fn spec_attach_resp(
    rs: Seq<crate::defines::ResponseView>,
    bodies: Seq<Seq<MemberView>>,
) -> Seq<crate::defines::ResponseView> {
    Seq::new(
        rs.len(),
        |i: int| crate::defines::ResponseView { opcode: rs[i].opcode, members: bodies[i] },
    )
}

/// The sequential state of the extensible-family composer: starting from
/// the given namespaces, each variant in turn has its own-member size
/// resolved, the wire-header size added, the total registered under its
/// name, and its trailing padding attached; the walk stops at the first
/// failure.  The result carries the final namespaces, the composed
/// variants, and the error that stopped the walk, if one did.
pub open spec fn spec_ext_compose(
    vs: Seq<crate::defines::ExtensibleStructView>,
    hdr_size: int,
    sizes: Map<Seq<char>, usize>,
    items: Map<Seq<char>, DefinitionItemView>,
) -> (
    Map<Seq<char>, usize>,
    Map<Seq<char>, DefinitionItemView>,
    Seq<crate::defines::ExtensibleStructView>,
    Option<ApiGenErrorView>,
)
    decreases vs.len(),
{
    if vs.len() == 0 {
        (sizes, items, Seq::empty(), None)
    } else {
        let v = vs.first();
        match spec_members_size(v.common.members, sizes) {
            Err(e) => (sizes, items, Seq::empty(), Some(e)),
            Ok(m) => {
                if m + hdr_size > usize::MAX as int {
                    (sizes, items, Seq::empty(), Some(ApiGenErrorView::SizeOverflow(v.common.name)))
                } else {
                    let total = m + hdr_size;
                    let v2 = crate::defines::ExtensibleStructView {
                        stype: v.stype,
                        common: v.common,
                        padding: if spec_pad(total) == 0 {
                            None
                        } else {
                            Some(spec_padding_member(spec_pad(total)))
                        },
                    };
                    let sizes2 = sizes.insert(v.common.name, total as usize);
                    let items2 = items.insert(
                        v.common.name,
                        DefinitionItemView::ExtensibleStruct(v2),
                    );
                    let rec = spec_ext_compose(vs.drop_first(), hdr_size, sizes2, items2);
                    (rec.0, rec.1, seq![v2] + rec.2, rec.3)
                }
            },
        }
    }
}

/// The shared tag enum's entries: one per variant's discriminator.
pub open spec fn spec_stype_entries(
    vs: Seq<crate::defines::ExtensibleStructView>,
) -> Seq<crate::defines::EnumEntryView> {
    vs.map_values(
        |v: crate::defines::ExtensibleStructView|
            crate::defines::EnumEntryView { name: v.stype.name, value: v.stype.value },
    )
}

/// The registered items the given names resolve to, in order, skipping
/// names that resolve to nothing.
pub open spec fn spec_items_of_names(
    items: Map<Seq<char>, DefinitionItemView>,
    names: Seq<Seq<char>>,
) -> Seq<DefinitionItemView>
    decreases names.len(),
{
    if names.len() == 0 {
        Seq::empty()
    } else {
        spec_items_of_names(items, names.drop_last()) + (if items.contains_key(names.last()) {
            seq![items[names.last()]]
        } else {
            Seq::empty()
        })
    }
}

/// The read surface an emitter walks: each named grouping resolved to its
/// member items, in declared order, flattened; unknown grouping or item
/// names are skipped.
pub open spec fn spec_resolve_instantiations(
    defs: Map<Seq<char>, DefinitionView>,
    items: Map<Seq<char>, DefinitionItemView>,
    names: Seq<Seq<char>>,
) -> Seq<DefinitionItemView>
    decreases names.len(),
{
    if names.len() == 0 {
        Seq::empty()
    } else {
        spec_resolve_instantiations(defs, items, names.drop_last()) + (if defs.contains_key(
            names.last(),
        ) {
            spec_items_of_names(items, defs[names.last()].items)
        } else {
            Seq::empty()
        })
    }
}

/// Builds one plain member: a type name, no qualifier, a field name.
fn mk_member(ty: &str, name: &str) -> (m: Member)
    ensures
        m@ == (MemberView { ty_name: ty@, qualifier: Seq::empty(), name: name@ }),
{
    Member { ty_name: ty.to_owned(), qualifier: String::new(), name: name.to_owned() }
}

/// The registry: one namespace of byte sizes and one of item definitions,
/// kept in lockstep, plus the organizational state of a run.
pub struct Api {
    name: String,
    copyright: Copyright,
    version: u32,
    definitions: NameMap<Definition>,
    definition_items: NameMap<DefinitionItem>,
    type_sizes: NameMap<usize>,
    rust_to_c_typemap: NameMap<String>,
    generated_files: Vec<GeneratedFile>,
}

/// The primitive seed of the size namespace: 1/2/4/8-byte integers, the
/// 8-byte floating type, the pointer-sized machine word and the opaque
/// pointer-sized handle.
pub open spec fn spec_initial_sizes() -> Map<Seq<char>, usize> {
    Map::empty().insert("u8"@, 1usize).insert("i8"@, 1usize).insert("u16"@, 2usize).insert(
        "i16"@,
        2usize,
    ).insert("i32"@, 4usize).insert("u32"@, 4usize).insert("u64"@, 8usize).insert(
        "i64"@,
        8usize,
    ).insert("f64"@, 8usize).insert("usize"@, 8usize).insert("*mut core::ffi::c_void"@, 8usize)
}

/// The seed of the native-type translation table.
pub open spec fn spec_initial_typemap() -> Map<Seq<char>, Seq<char>> {
    Map::empty().insert("u8"@, "uint8_t"@).insert("i8"@, "int8_t"@).insert(
        "u16"@,
        "uint16_t"@,
    ).insert("i16"@, "int16_t"@).insert("i32"@, "int32_t"@).insert("u32"@, "uint32_t"@).insert(
        "u64"@,
        "uint64_t"@,
    ).insert("i64"@, "int64_t"@).insert("f64"@, "double"@).insert("usize"@, "size_t"@).insert(
        "*mut core::ffi::c_void"@,
        "void*"@,
    )
}

impl Api {
    /// Both namespaces, the grouping map and the translation table are
    /// well-formed association maps.
    pub closed spec fn wf(&self) -> bool {
        &&& self.definitions.wf()
        &&& self.definition_items.wf()
        &&& self.type_sizes.wf()
        &&& self.rust_to_c_typemap.wf()
    }

    pub closed spec fn spec_name(&self) -> Seq<char> {
        self.name@
    }

    pub closed spec fn spec_copyright(&self) -> CopyrightView {
        self.copyright@
    }

    pub closed spec fn spec_version(&self) -> u32 {
        self.version
    }

    pub closed spec fn spec_definitions(&self) -> Map<Seq<char>, DefinitionView> {
        self.definitions@
    }

    pub closed spec fn spec_items(&self) -> Map<Seq<char>, DefinitionItemView> {
        self.definition_items@
    }

    pub closed spec fn spec_sizes(&self) -> Map<Seq<char>, usize> {
        self.type_sizes@
    }

    pub closed spec fn spec_typemap(&self) -> Map<Seq<char>, Seq<char>> {
        self.rust_to_c_typemap@
    }

    pub closed spec fn spec_generated_files(&self) -> Seq<GeneratedFileView> {
        self.generated_files@.map_values(|g: GeneratedFile| g@)
    }

    /// Everything but the two registry namespaces is as it was.
    pub open spec fn spec_same_surroundings(&self, other: &Api) -> bool {
        &&& self.spec_name() == other.spec_name()
        &&& self.spec_copyright() == other.spec_copyright()
        &&& self.spec_version() == other.spec_version()
        &&& self.spec_definitions() == other.spec_definitions()
        &&& self.spec_typemap() == other.spec_typemap()
        &&& self.spec_generated_files() == other.spec_generated_files()
    }

    /// A fresh registry: empty namespaces over the primitive seeds, no
    /// groupings, no output files, empty header metadata.
    pub fn new() -> (r: Api)
        ensures
            r.wf(),
            r.spec_sizes() == spec_initial_sizes(),
            r.spec_typemap() == spec_initial_typemap(),
            r.spec_items() == Map::<Seq<char>, DefinitionItemView>::empty(),
            r.spec_definitions() == Map::<Seq<char>, DefinitionView>::empty(),
            r.spec_generated_files() == Seq::<GeneratedFileView>::empty(),
            r.spec_name() == Seq::<char>::empty(),
            r.spec_version() == 0,
            r.spec_copyright() == (CopyrightView {
                spdx: Seq::<char>::empty(),
                holder: Seq::<char>::empty(),
                year: 0,
            }),
    {
        let mut type_sizes: NameMap<usize> = NameMap::new();
        type_sizes.insert("u8".to_owned(), 1);
        type_sizes.insert("i8".to_owned(), 1);
        type_sizes.insert("u16".to_owned(), 2);
        type_sizes.insert("i16".to_owned(), 2);
        type_sizes.insert("i32".to_owned(), 4);
        type_sizes.insert("u32".to_owned(), 4);
        type_sizes.insert("u64".to_owned(), 8);
        type_sizes.insert("i64".to_owned(), 8);
        type_sizes.insert("f64".to_owned(), 8);
        type_sizes.insert("usize".to_owned(), 8);
        type_sizes.insert("*mut core::ffi::c_void".to_owned(), 8);
        let mut rust_to_c_typemap: NameMap<String> = NameMap::new();
        rust_to_c_typemap.insert("u8".to_owned(), "uint8_t".to_owned());
        rust_to_c_typemap.insert("i8".to_owned(), "int8_t".to_owned());
        rust_to_c_typemap.insert("u16".to_owned(), "uint16_t".to_owned());
        rust_to_c_typemap.insert("i16".to_owned(), "int16_t".to_owned());
        rust_to_c_typemap.insert("i32".to_owned(), "int32_t".to_owned());
        rust_to_c_typemap.insert("u32".to_owned(), "uint32_t".to_owned());
        rust_to_c_typemap.insert("u64".to_owned(), "uint64_t".to_owned());
        rust_to_c_typemap.insert("i64".to_owned(), "int64_t".to_owned());
        rust_to_c_typemap.insert("f64".to_owned(), "double".to_owned());
        rust_to_c_typemap.insert("usize".to_owned(), "size_t".to_owned());
        rust_to_c_typemap.insert("*mut core::ffi::c_void".to_owned(), "void*".to_owned());
        Api {
            name: String::new(),
            copyright: Copyright { spdx: String::new(), holder: String::new(), year: 0 },
            version: 0,
            definitions: NameMap::new(),
            definition_items: NameMap::new(),
            type_sizes,
            rust_to_c_typemap,
            generated_files: Vec::new(),
        }
    }

    /// The declared name of the whole interface.
    pub fn name(&self) -> (r: &str)
        ensures
            r@ == self.spec_name(),
    {
        self.name.as_str()
    }

    pub fn copyright(&self) -> (r: &Copyright)
        ensures
            r@ == self.spec_copyright(),
    {
        &self.copyright
    }

    pub fn version(&self) -> (r: u32)
        ensures
            r == self.spec_version(),
    {
        self.version
    }

    /// The named groupings, keyed by their names.
    pub fn definitions(&self) -> (r: &NameMap<Definition>)
        ensures
            r@ == self.spec_definitions(),
            self.wf() ==> r.wf(),
    {
        &self.definitions
    }

    /// The registered items, keyed by the shared namespace.
    pub fn definition_items(&self) -> (r: &NameMap<DefinitionItem>)
        ensures
            r@ == self.spec_items(),
            self.wf() ==> r.wf(),
    {
        &self.definition_items
    }

    pub fn generated_files(&self) -> (r: &Vec<GeneratedFile>)
        ensures
            r@.map_values(|g: GeneratedFile| g@) == self.spec_generated_files(),
    {
        &self.generated_files
    }

    /// Looks a name's registered byte size up (a constant's numeric value,
    /// or a composite's resolved size).
    pub fn type_size(&self, name: &String) -> (r: Option<usize>)
        requires
            self.wf(),
        ensures
            match r {
                Some(s) => self.spec_sizes().contains_key(name@) && s == self.spec_sizes()[name@],
                None => !self.spec_sizes().contains_key(name@),
            },
    {
        match self.type_sizes.get(name) {
            Some(s) => Some(*s),
            None => None,
        }
    }

    /// Looks one registered item up by name.
    pub fn definition_item(&self, name: &String) -> (r: Option<&DefinitionItem>)
        requires
            self.wf(),
        ensures
            match r {
                Some(d) => self.spec_items().contains_key(name@) && d@ == self.spec_items()[name@],
                None => !self.spec_items().contains_key(name@),
            },
    {
        self.definition_items.get(name)
    }

    /// Resolves an output file's instantiation list: each named grouping's
    /// member items, in declared order, flattened; names that resolve to
    /// nothing are skipped.
    #[verifier::loop_isolation(false)]
    pub fn resolve_instantiations<'a>(&'a self, names: &Vec<String>) -> (r: Vec<
        &'a DefinitionItem,
    >)
        requires
            self.wf(),
        ensures
            r@.map_values(|d: &DefinitionItem| d@) == spec_resolve_instantiations(
                self.spec_definitions(),
                self.spec_items(),
                crate::utils::spec_str_seq(names@),
            ),
    {
        let ghost nv = crate::utils::spec_str_seq(names@);
        let n: usize = names.len();
        let mut result: Vec<&'a DefinitionItem> = Vec::new();
        let mut i: usize = 0;
        proof {
            assert(result@.map_values(|d: &DefinitionItem| d@) =~= spec_resolve_instantiations(
                self.spec_definitions(),
                self.spec_items(),
                nv.take(0),
            ));
        }
        while i < n
            invariant
                0 <= i <= n,
                result@.map_values(|d: &DefinitionItem| d@) == spec_resolve_instantiations(
                    self.spec_definitions(),
                    self.spec_items(),
                    nv.take(i as int),
                ),
            decreases n - i,
        {
            proof {
                assert(nv.take(i + 1).drop_last() =~= nv.take(i as int));
                assert(nv.take(i + 1).last() == names@[i as int]@);
            }
            match self.definitions.get(&names[i]) {
                None => {
                    proof {
                        assert(result@.map_values(|d: &DefinitionItem| d@)
                            + Seq::<DefinitionItemView>::empty() =~= result@.map_values(
                            |d: &DefinitionItem| d@,
                        ));
                    }
                },
                Some(def) => {
                    let ghost din = def@.items;
                    let ghost base = result@.map_values(|d: &DefinitionItem| d@);
                    let m: usize = def.items.len();
                    let mut j: usize = 0;
                    proof {
                        assert(base + spec_items_of_names(self.spec_items(), din.take(0)) =~= base);
                    }
                    while j < m
                        invariant
                            0 <= j <= m,
                            result@.map_values(|d: &DefinitionItem| d@) == base
                                + spec_items_of_names(self.spec_items(), din.take(j as int)),
                        decreases m - j,
                    {
                        proof {
                            assert(din.take(j + 1).drop_last() =~= din.take(j as int));
                            assert(din.take(j + 1).last() == def.items@[j as int]@);
                        }
                        let ghost pre = result@;
                        match self.definition_items.get(&def.items[j]) {
                            None => {
                                proof {
                                    assert(result@.map_values(|d: &DefinitionItem| d@)
                                        + Seq::<DefinitionItemView>::empty() =~= result@.map_values(
                                        |d: &DefinitionItem| d@,
                                    ));
                                }
                            },
                            Some(item) => {
                                result.push(item);
                                proof {
                                    assert(result@.map_values(|d: &DefinitionItem| d@)
                                        =~= pre.map_values(|d: &DefinitionItem| d@).push(item@));
                                    assert(result@.map_values(|d: &DefinitionItem| d@) =~= base
                                        + spec_items_of_names(self.spec_items(), din.take(j + 1)));
                                }
                            },
                        }
                        j = j + 1;
                    }
                    proof {
                        assert(din.take(m as int) =~= din);
                        assert(result@.map_values(|d: &DefinitionItem| d@) =~= base
                            + spec_items_of_names(self.spec_items(), din));
                        assert(result@.map_values(|d: &DefinitionItem| d@)
                            =~= spec_resolve_instantiations(
                            self.spec_definitions(),
                            self.spec_items(),
                            nv.take(i + 1),
                        ));
                    }
                },
            }
            i = i + 1;
        }
        proof {
            assert(nv.take(n as int) =~= nv);
        }
        result
    }

    pub fn set_name(&mut self, name: String)
        ensures
            final(self).spec_name() == name@,
            final(self).spec_copyright() == old(self).spec_copyright(),
            final(self).spec_version() == old(self).spec_version(),
            final(self).spec_definitions() == old(self).spec_definitions(),
            final(self).spec_items() == old(self).spec_items(),
            final(self).spec_sizes() == old(self).spec_sizes(),
            final(self).spec_typemap() == old(self).spec_typemap(),
            final(self).spec_generated_files() == old(self).spec_generated_files(),
            old(self).wf() ==> final(self).wf(),
    {
        self.name = name;
    }

    pub fn set_copyright(&mut self, copyright: Copyright)
        ensures
            final(self).spec_copyright() == copyright@,
            final(self).spec_name() == old(self).spec_name(),
            final(self).spec_version() == old(self).spec_version(),
            final(self).spec_definitions() == old(self).spec_definitions(),
            final(self).spec_items() == old(self).spec_items(),
            final(self).spec_sizes() == old(self).spec_sizes(),
            final(self).spec_typemap() == old(self).spec_typemap(),
            final(self).spec_generated_files() == old(self).spec_generated_files(),
            old(self).wf() ==> final(self).wf(),
    {
        self.copyright = copyright;
    }

    pub fn set_version(&mut self, version: u32)
        ensures
            final(self).spec_version() == version,
            final(self).spec_name() == old(self).spec_name(),
            final(self).spec_copyright() == old(self).spec_copyright(),
            final(self).spec_definitions() == old(self).spec_definitions(),
            final(self).spec_items() == old(self).spec_items(),
            final(self).spec_sizes() == old(self).spec_sizes(),
            final(self).spec_typemap() == old(self).spec_typemap(),
            final(self).spec_generated_files() == old(self).spec_generated_files(),
            old(self).wf() ==> final(self).wf(),
    {
        self.version = version;
    }

    /// Records one output-artifact descriptor for the emitters.
    pub fn add_generated_file(&mut self, file: GeneratedFile)
        ensures
            final(self).spec_generated_files() == old(self).spec_generated_files().push(file@),
            final(self).spec_name() == old(self).spec_name(),
            final(self).spec_copyright() == old(self).spec_copyright(),
            final(self).spec_version() == old(self).spec_version(),
            final(self).spec_definitions() == old(self).spec_definitions(),
            final(self).spec_items() == old(self).spec_items(),
            final(self).spec_sizes() == old(self).spec_sizes(),
            final(self).spec_typemap() == old(self).spec_typemap(),
            old(self).wf() ==> final(self).wf(),
    {
        let ghost pre = self.generated_files@;
        self.generated_files.push(file);
        proof {
            assert(self.generated_files@.map_values(|g: GeneratedFile| g@) =~= pre.map_values(
                |g: GeneratedFile| g@,
            ).push(file@));
        }
    }

    /// Records a named grouping; a later grouping under the same name
    /// overwrites the earlier one.
    pub fn add_definition(&mut self, definition: Definition)
        requires
            old(self).wf(),
        ensures
            final(self).wf(),
            final(self).spec_definitions() == old(self).spec_definitions().insert(
                definition@.name,
                definition@,
            ),
            final(self).spec_name() == old(self).spec_name(),
            final(self).spec_copyright() == old(self).spec_copyright(),
            final(self).spec_version() == old(self).spec_version(),
            final(self).spec_items() == old(self).spec_items(),
            final(self).spec_sizes() == old(self).spec_sizes(),
            final(self).spec_typemap() == old(self).spec_typemap(),
            final(self).spec_generated_files() == old(self).spec_generated_files(),
    {
        let key = definition.name.clone();
        self.definitions.insert(key, definition);
    }

    /// Registers a constant: its textual value must parse as a machine-size
    /// non-negative integer, and that number itself becomes the name's
    /// entry in the size namespace, so constants double as array-count
    /// references.
    pub fn add_constant(&mut self, constant: Constant) -> (r: Result<(), ApiGenError>)
        requires
            old(self).wf(),
        ensures
            final(self).wf(),
            match r {
                Ok(()) => {
                    &&& spec_is_usize_string(constant@.value)
                    &&& final(self).spec_sizes() == old(self).spec_sizes().insert(
                        constant@.name,
                        spec_usize_string_val(constant@.value) as usize,
                    )
                    &&& final(self).spec_items() == old(self).spec_items().insert(
                        constant@.name,
                        DefinitionItemView::Constant(constant@),
                    )
                    &&& final(self).spec_same_surroundings(old(self))
                },
                Err(e) => {
                    &&& !spec_is_usize_string(constant@.value)
                    &&& e@ == (ApiGenErrorView::InvalidConstantValue {
                        name: constant@.name,
                        value: constant@.value,
                    })
                    &&& *final(self) == *old(self)
                },
            },
    {
        match parse_usize(constant.value.as_str()) {
            None => Err(
                ApiGenError::InvalidConstantValue {
                    name: constant.name.clone(),
                    value: constant.value.clone(),
                },
            ),
            Some(value) => {
                let key = constant.name.clone();
                self.type_sizes.insert(key, value);
                let key2 = constant.name.clone();
                self.definition_items.insert(key2, DefinitionItem::Constant(constant));
                Ok(())
            },
        }
    }

    /// Registers an enum: it inherits the size of its declared underlying
    /// type, which must already be registered.
    pub fn add_enum(&mut self, new_enum: Enum) -> (r: Result<(), ApiGenError>)
        requires
            old(self).wf(),
        ensures
            final(self).wf(),
            match r {
                Ok(()) => {
                    &&& old(self).spec_sizes().contains_key(new_enum@.ty_name)
                    &&& final(self).spec_sizes() == old(self).spec_sizes().insert(
                        new_enum@.name,
                        old(self).spec_sizes()[new_enum@.ty_name],
                    )
                    &&& final(self).spec_items() == old(self).spec_items().insert(
                        new_enum@.name,
                        DefinitionItemView::Enum(new_enum@),
                    )
                    &&& final(self).spec_same_surroundings(old(self))
                },
                Err(e) => {
                    &&& !old(self).spec_sizes().contains_key(new_enum@.ty_name)
                    &&& e@ == ApiGenErrorView::TypeNotFound(new_enum@.ty_name)
                    &&& *final(self) == *old(self)
                },
            },
    {
        let size: usize = match self.type_sizes.get(&new_enum.ty_name) {
            Some(s) => *s,
            None => {
                return Err(ApiGenError::TypeNotFound(new_enum.ty_name.clone()));
            },
        };
        let key = new_enum.name.clone();
        self.type_sizes.insert(key, size);
        let key2 = new_enum.name.clone();
        self.definition_items.insert(key2, DefinitionItem::Enum(new_enum));
        Ok(())
    }

    /// Registers a bit-flag set: sized exactly like an enum.
    pub fn add_flag(&mut self, new_flag: Flag) -> (r: Result<(), ApiGenError>)
        requires
            old(self).wf(),
        ensures
            final(self).wf(),
            match r {
                Ok(()) => {
                    &&& old(self).spec_sizes().contains_key(new_flag@.ty_name)
                    &&& final(self).spec_sizes() == old(self).spec_sizes().insert(
                        new_flag@.name,
                        old(self).spec_sizes()[new_flag@.ty_name],
                    )
                    &&& final(self).spec_items() == old(self).spec_items().insert(
                        new_flag@.name,
                        DefinitionItemView::Flag(new_flag@),
                    )
                    &&& final(self).spec_same_surroundings(old(self))
                },
                Err(e) => {
                    &&& !old(self).spec_sizes().contains_key(new_flag@.ty_name)
                    &&& e@ == ApiGenErrorView::TypeNotFound(new_flag@.ty_name)
                    &&& *final(self) == *old(self)
                },
            },
    {
        let size: usize = match self.type_sizes.get(&new_flag.ty_name) {
            Some(s) => *s,
            None => {
                return Err(ApiGenError::TypeNotFound(new_flag.ty_name.clone()));
            },
        };
        let key = new_flag.name.clone();
        self.type_sizes.insert(key, size);
        let key2 = new_flag.name.clone();
        self.definition_items.insert(key2, DefinitionItem::Flag(new_flag));
        Ok(())
    }

    /// Registers an opaque handle.  An object is declared without a name of
    /// its own, so its native-side binding name is normalized onto the name
    /// field and keys the item namespace; the two are conflated on purpose.
    pub fn add_object(&mut self, object: Object)
        requires
            old(self).wf(),
        ensures
            final(self).wf(),
            final(self).spec_items() == old(self).spec_items().insert(
                object@.ffi,
                DefinitionItemView::Object(
                    ObjectView { name: object@.ffi, ffi: object@.ffi, rust: object@.rust },
                ),
            ),
            final(self).spec_sizes() == old(self).spec_sizes(),
            final(self).spec_same_surroundings(old(self)),
    {
        let mut object = object;
        object.name = object.ffi.clone();
        let key = object.name.clone();
        self.definition_items.insert(key, DefinitionItem::Object(object));
    }

    /// Registers a struct: derives the array/count relationships its member
    /// names imply, resolves its total size against the registry as it
    /// stands, and commits both namespaces.  Bare structs get no automatic
    /// padding.
    pub fn add_struct(&mut self, struct_def: StructDef) -> (r: Result<(), ApiGenError>)
        requires
            old(self).wf(),
        ensures
            final(self).wf(),
            match r {
                Ok(()) => {
                    &&& spec_members_size(struct_def@.common.members, old(self).spec_sizes())
                        matches Ok(sz)
                    &&& final(self).spec_sizes() == old(self).spec_sizes().insert(
                        struct_def@.common.name,
                        sz as usize,
                    )
                    &&& final(self).spec_items() == old(self).spec_items().insert(
                        struct_def@.common.name,
                        DefinitionItemView::Struct(
                            StructDefView {
                                common: StructCommonView {
                                    name: struct_def@.common.name,
                                    members: struct_def@.common.members,
                                    array_info: struct_def@.common.array_info
                                        + spec_infer_array_info(struct_def@.common.members),
                                },
                            },
                        ),
                    )
                    &&& final(self).spec_same_surroundings(old(self))
                },
                Err(e) => {
                    &&& spec_members_size(struct_def@.common.members, old(self).spec_sizes())
                        == Err::<int, ApiGenErrorView>(e@)
                    &&& *final(self) == *old(self)
                },
            },
    {
        let mut struct_def = struct_def;
        let ghost ms = struct_def@.common.members;
        let ghost infos0 = struct_def@.common.array_info;
        let ghost name0 = struct_def@.common.name;
        let n: usize = struct_def.common.members.len();
        let mut i: usize = 0;
        proof {
            assert(spec_array_info_seq(struct_def.common.array_info@) =~= infos0 + spec_infer_rec(
                ms,
                0,
            ));
        }
        while i < n
            invariant
                0 <= i <= n,
                n == struct_def.common.members@.len(),
                ms == spec_member_seq(struct_def.common.members@),
                spec_array_info_seq(struct_def.common.array_info@) == infos0 + spec_infer_rec(
                    ms,
                    i as int,
                ),
                struct_def.common.name@ == name0,
            decreases n - i,
        {
            let ghost pre_infos = struct_def.common.array_info@;
            let member = &struct_def.common.members[i];
            proof {
                assert(ms[i as int] == member@);
            }
            match parse_array_shorthand(member.ty_name.as_str()) {
                None => {
                    proof {
                        assert(spec_infer_rec(ms, i + 1) =~= spec_infer_rec(ms, i as int));
                    }
                },
                Some(at) => {
                    let name_len: usize = member.name.as_str().unicode_len();
                    let singular: &str = if name_len > 0 && member.name.as_str().get_char(
                        name_len - 1,
                    ) == 's' {
                        member.name.as_str().substring_char(0, name_len - 1)
                    } else {
                        member.name.as_str()
                    };
                    proof {
                        if name_len > 0 && member@.name.last() == 's' {
                            assert(singular@ =~= member@.name.drop_last());
                        }
                    }
                    let count_member_name: String = singular.to_owned().concat("_count");
                    proof {
                        assert(count_member_name@ == spec_count_sibling_name(member@.name));
                    }
                    // Look for the count sibling among all members.
                    let mut found = false;
                    let mut j: usize = 0;
                    while j < n && !found
                        invariant
                            0 <= j <= n,
                            n == struct_def.common.members@.len(),
                            ms == spec_member_seq(struct_def.common.members@),
                            found ==> spec_has_member_named(ms, count_member_name@),
                            !found ==> forall|k: int|
                                0 <= k < j ==> (#[trigger] ms[k].name) != count_member_name@,
                        decreases n - j + (if found {
                            0int
                        } else {
                            1int
                        }),
                    {
                        let hit: bool = struct_def.common.members[j].name.eq(&count_member_name);
                        if hit {
                            proof {
                                assert(ms[j as int].name == count_member_name@);
                            }
                            found = true;
                        } else {
                            j = j + 1;
                        }
                    }
                    if found {
                        let info = ArrayInfo {
                            array_member_name: member.name.clone(),
                            array_base_type: at.element_type,
                            count_member_name,
                        };
                        proof {
                            assert(info@ == spec_member_array_info(ms[i as int]).unwrap());
                        }
                        struct_def.common.array_info.push(info);
                        proof {
                            assert(spec_array_info_seq(struct_def.common.array_info@)
                                =~= spec_array_info_seq(pre_infos).push(
                                spec_member_array_info(ms[i as int]).unwrap(),
                            ));
                            assert(spec_array_info_seq(struct_def.common.array_info@)
                                =~= infos0 + spec_infer_rec(ms, i + 1));
                        }
                    } else {
                        proof {
                            assert(!spec_has_member_named(ms, count_member_name@));
                            assert(spec_infer_rec(ms, i + 1) =~= spec_infer_rec(ms, i as int));
                        }
                    }
                },
            }
            i = i + 1;
        }
        let size: usize = match calculate_member_size(&struct_def.common.members, &self.type_sizes)
            {
            Ok(s) => s,
            Err(e) => {
                return Err(e);
            },
        };
        let key = struct_def.common.name.clone();
        let key2 = struct_def.common.name.clone();
        self.type_sizes.insert(key, size);
        proof {
            assert(struct_def.common@ == (StructCommonView {
                name: name0,
                members: ms,
                array_info: infos0 + spec_infer_array_info(ms),
            }));
        }
        self.definition_items.insert(key2, DefinitionItem::Struct(struct_def));
        Ok(())
    }

    /// Registers a protocol: synthesizes its command header type (two
    /// 4-byte fields, registered under `<PascalCaseName>CommandHdr`),
    /// prepends a header-typed member to every request and response,
    /// recomputes each one's size against the registry with the header
    /// registered, appends the padding its total calls for, and commits
    /// the protocol under its own name.
    #[verifier::loop_isolation(false)]
    pub fn add_protocol(&mut self, protocol: Protocol) -> (r: Result<(), ApiGenError>)
        requires
            old(self).wf(),
        ensures
            final(self).wf(),
            ({
                let pname = protocol@.name;
                let hdr_name = spec_pascal(pname) + "CommandHdr"@;
                let hdr_item = DefinitionItemView::Struct(
                    StructDefView {
                        common: StructCommonView {
                            name: hdr_name,
                            members: spec_protocol_hdr_members(),
                            array_info: Seq::empty(),
                        },
                    },
                );
                match spec_members_size(spec_protocol_hdr_members(), old(self).spec_sizes()) {
                    Err(e0) => {
                        &&& r matches Err(e) && e@ == e0
                        &&& *final(self) == *old(self)
                    },
                    Ok(hsz) => {
                        let sizes1 = old(self).spec_sizes().insert(hdr_name, hsz as usize);
                        let items1 = old(self).spec_items().insert(hdr_name, hdr_item);
                        &&& final(self).spec_sizes() == sizes1
                        &&& final(self).spec_same_surroundings(old(self))
                        &&& match spec_compose_bodies(
                            spec_bodies_of_req(protocol@.requests),
                            hdr_name,
                            sizes1,
                        ) {
                            Err(e1) => {
                                &&& r matches Err(e) && e@ == e1
                                &&& final(self).spec_items() == items1
                            },
                            Ok(reqb) => match spec_compose_bodies(
                                spec_bodies_of_resp(protocol@.responses),
                                hdr_name,
                                sizes1,
                            ) {
                                Err(e2) => {
                                    &&& r matches Err(e) && e@ == e2
                                    &&& final(self).spec_items() == items1
                                },
                                Ok(respb) => {
                                    &&& r is Ok
                                    &&& final(self).spec_items() == items1.insert(
                                        pname,
                                        DefinitionItemView::Protocol(
                                            ProtocolView {
                                                name: pname,
                                                protocol_struct_name: hdr_name,
                                                requests: spec_attach_req(protocol@.requests, reqb),
                                                responses: spec_attach_resp(
                                                    protocol@.responses,
                                                    respb,
                                                ),
                                            },
                                        ),
                                    )
                                },
                            },
                        }
                    },
                }
            }),
    {
        let mut protocol = protocol;
        let ghost pname = protocol@.name;
        let ghost reqs0 = protocol@.requests;
        let ghost resps0 = protocol@.responses;
        // Synthesize and register the command header type.
        let protocol_struct_name: String = to_pascal_case(protocol.name.as_str()).concat(
            "CommandHdr",
        );
        let ghost hdr_name = protocol_struct_name@;
        let mut hdr_members: Vec<Member> = Vec::new();
        hdr_members.push(mk_member("u32", "proto"));
        hdr_members.push(mk_member("u32", "size"));
        proof {
            assert(spec_member_seq(hdr_members@) =~= spec_protocol_hdr_members());
        }
        let hdr_size: usize = match calculate_member_size(&hdr_members, &self.type_sizes) {
            Ok(s) => s,
            Err(e) => {
                return Err(e);
            },
        };
        protocol.protocol_struct_name = protocol_struct_name.clone();
        let hdr_struct = StructDef {
            common: StructCommon {
                name: protocol_struct_name.clone(),
                members: hdr_members,
                array_info: Vec::new(),
            },
        };
        proof {
            assert(spec_array_info_seq(hdr_struct.common.array_info@)
                =~= Seq::<ArrayInfoView>::empty());
            assert(hdr_struct@ == (StructDefView {
                common: StructCommonView {
                    name: hdr_name,
                    members: spec_protocol_hdr_members(),
                    array_info: Seq::empty(),
                },
            }));
        }
        self.type_sizes.insert(protocol_struct_name.clone(), hdr_size);
        self.definition_items.insert(protocol_struct_name.clone(), DefinitionItem::Struct(
            hdr_struct,
        ));
        let ghost sizes1 = self.spec_sizes();
        let ghost items1 = self.spec_items();
        // Prepend the header member to every request, then re-resolve and pad.
        let nreq: usize = protocol.requests.len();
        let mut i: usize = 0;
        proof {
            assert(spec_bodies_of_req(reqs0).take(0) =~= Seq::<Seq<MemberView>>::empty());
            assert(spec_bodies_of_req(spec_request_seq(protocol.requests@).take(0))
                =~= Seq::<Seq<MemberView>>::empty());
        }
        while i < nreq
            invariant
                0 <= i <= nreq,
                nreq == protocol.requests@.len(),
                nreq == reqs0.len(),
                self.wf(),
                self.spec_sizes() == sizes1,
                self.spec_items() == items1,
                self.spec_same_surroundings(old(self)),
                protocol_struct_name@ == hdr_name,
                protocol.name@ == pname,
                protocol.protocol_struct_name@ == hdr_name,
                spec_response_seq(protocol.responses@) == resps0,
                forall|k: int| i <= k < nreq ==> (#[trigger] protocol.requests@[k])@ == reqs0[k],
                forall|k: int|
                    0 <= k < i ==> (#[trigger] protocol.requests@[k])@.opcode == reqs0[k].opcode,
                spec_compose_bodies(spec_bodies_of_req(reqs0).take(i as int), hdr_name, sizes1)
                    == Ok::<Seq<Seq<MemberView>>, ApiGenErrorView>(
                    spec_bodies_of_req(spec_request_seq(protocol.requests@).take(i as int)),
                ),
            decreases nreq - i,
        {
            let ghost pre = spec_request_seq(protocol.requests@);
            let hdr_member = Member {
                ty_name: protocol_struct_name.clone(),
                qualifier: String::new(),
                name: "hdr".to_owned(),
            };
            proof {
                assert(hdr_member@ == spec_hdr_member(hdr_name));
                assert(pre[i as int] == reqs0[i as int]);
            }
            protocol.requests[i].members.insert(0, hdr_member);
            let ghost with_hdr_v = spec_member_seq(protocol.requests@[i as int].members@);
            proof {
                assert(with_hdr_v =~= seq![spec_hdr_member(hdr_name)] + reqs0[i as int].members);
            }
            let sz: usize = match calculate_member_size(
                &protocol.requests[i].members,
                &self.type_sizes,
            ) {
                Ok(s) => s,
                Err(e) => {
                    proof {
                        let bodies = spec_bodies_of_req(reqs0);
                        assert(bodies.take(i + 1).drop_last() =~= bodies.take(i as int));
                        assert(bodies.take(i + 1).last() == reqs0[i as int].members);
                        assert(spec_compose_bodies(bodies.take(i + 1), hdr_name, sizes1) == Err::<
                            Seq<Seq<MemberView>>,
                            ApiGenErrorView,
                        >(e@));
                        lemma_compose_bodies_err(bodies, hdr_name, sizes1, i + 1);
                    }
                    return Err(e);
                },
            };
            match calculate_padding(sz) {
                Some(p) => {
                    let ghost pv = p@;
                    protocol.requests[i].members.push(p);
                    proof {
                        assert(spec_member_seq(protocol.requests@[i as int].members@)
                            =~= with_hdr_v.push(pv));
                    }
                },
                None => {},
            }
            proof {
                let bodies = spec_bodies_of_req(reqs0);
                assert(bodies.take(i + 1).drop_last() =~= bodies.take(i as int));
                assert(bodies.take(i + 1).last() == reqs0[i as int].members);
                assert(spec_compose_body(reqs0[i as int].members, hdr_name, sizes1) == Ok::<
                    Seq<MemberView>,
                    ApiGenErrorView,
                >(spec_member_seq(protocol.requests@[i as int].members@)));
                let cur = spec_request_seq(protocol.requests@);
                assert(spec_bodies_of_req(cur.take(i + 1)) =~= spec_bodies_of_req(
                    pre.take(i as int),
                ).push(spec_member_seq(protocol.requests@[i as int].members@)));
                assert(spec_bodies_of_req(pre.take(i as int)) =~= spec_bodies_of_req(
                    cur.take(i as int),
                ));
            }
            i = i + 1;
        }
        // The responses get exactly the same treatment.
        let nresp: usize = protocol.responses.len();
        let mut j: usize = 0;
        proof {
            assert(spec_bodies_of_resp(resps0).take(0) =~= Seq::<Seq<MemberView>>::empty());
            assert(spec_bodies_of_resp(spec_response_seq(protocol.responses@).take(0))
                =~= Seq::<Seq<MemberView>>::empty());
            assert(spec_compose_bodies(spec_bodies_of_req(reqs0), hdr_name, sizes1) == Ok::<
                Seq<Seq<MemberView>>,
                ApiGenErrorView,
            >(spec_bodies_of_req(spec_request_seq(protocol.requests@)))) by {
                assert(spec_bodies_of_req(reqs0).take(nreq as int) =~= spec_bodies_of_req(reqs0));
                assert(spec_request_seq(protocol.requests@).take(nreq as int) =~= spec_request_seq(
                    protocol.requests@,
                ));
            }
        }
        while j < nresp
            invariant
                0 <= j <= nresp,
                nresp == protocol.responses@.len(),
                nresp == resps0.len(),
                self.wf(),
                self.spec_sizes() == sizes1,
                self.spec_items() == items1,
                self.spec_same_surroundings(old(self)),
                protocol_struct_name@ == hdr_name,
                protocol.name@ == pname,
                protocol.protocol_struct_name@ == hdr_name,
                spec_request_seq(protocol.requests@) == spec_attach_req(
                    reqs0,
                    spec_bodies_of_req(spec_request_seq(protocol.requests@)),
                ),
                spec_compose_bodies(spec_bodies_of_req(reqs0), hdr_name, sizes1) == Ok::<
                    Seq<Seq<MemberView>>,
                    ApiGenErrorView,
                >(spec_bodies_of_req(spec_request_seq(protocol.requests@))),
                forall|k: int| j <= k < nresp ==> (#[trigger] protocol.responses@[k])@ == resps0[k],
                forall|k: int|
                    0 <= k < j ==> (#[trigger] protocol.responses@[k])@.opcode == resps0[k].opcode,
                spec_compose_bodies(spec_bodies_of_resp(resps0).take(j as int), hdr_name, sizes1)
                    == Ok::<Seq<Seq<MemberView>>, ApiGenErrorView>(
                    spec_bodies_of_resp(spec_response_seq(protocol.responses@).take(j as int)),
                ),
            decreases nresp - j,
        {
            let ghost pre = spec_response_seq(protocol.responses@);
            let hdr_member = Member {
                ty_name: protocol_struct_name.clone(),
                qualifier: String::new(),
                name: "hdr".to_owned(),
            };
            proof {
                assert(hdr_member@ == spec_hdr_member(hdr_name));
                assert(pre[j as int] == resps0[j as int]);
            }
            protocol.responses[j].members.insert(0, hdr_member);
            let ghost with_hdr_v = spec_member_seq(protocol.responses@[j as int].members@);
            proof {
                assert(with_hdr_v =~= seq![spec_hdr_member(hdr_name)] + resps0[j as int].members);
            }
            let sz: usize = match calculate_member_size(
                &protocol.responses[j].members,
                &self.type_sizes,
            ) {
                Ok(s) => s,
                Err(e) => {
                    proof {
                        let bodies = spec_bodies_of_resp(resps0);
                        assert(bodies.take(j + 1).drop_last() =~= bodies.take(j as int));
                        assert(bodies.take(j + 1).last() == resps0[j as int].members);
                        assert(spec_compose_bodies(bodies.take(j + 1), hdr_name, sizes1) == Err::<
                            Seq<Seq<MemberView>>,
                            ApiGenErrorView,
                        >(e@));
                        lemma_compose_bodies_err(bodies, hdr_name, sizes1, j + 1);
                    }
                    return Err(e);
                },
            };
            match calculate_padding(sz) {
                Some(p) => {
                    let ghost pv = p@;
                    protocol.responses[j].members.push(p);
                    proof {
                        assert(spec_member_seq(protocol.responses@[j as int].members@)
                            =~= with_hdr_v.push(pv));
                    }
                },
                None => {},
            }
            proof {
                let bodies = spec_bodies_of_resp(resps0);
                assert(bodies.take(j + 1).drop_last() =~= bodies.take(j as int));
                assert(bodies.take(j + 1).last() == resps0[j as int].members);
                assert(spec_compose_body(resps0[j as int].members, hdr_name, sizes1) == Ok::<
                    Seq<MemberView>,
                    ApiGenErrorView,
                >(spec_member_seq(protocol.responses@[j as int].members@)));
                let cur = spec_response_seq(protocol.responses@);
                assert(spec_bodies_of_resp(cur.take(j + 1)) =~= spec_bodies_of_resp(
                    pre.take(j as int),
                ).push(spec_member_seq(protocol.responses@[j as int].members@)));
                assert(spec_bodies_of_resp(pre.take(j as int)) =~= spec_bodies_of_resp(
                    cur.take(j as int),
                ));
            }
            j = j + 1;
        }
        proof {
            assert(spec_compose_bodies(spec_bodies_of_resp(resps0), hdr_name, sizes1) == Ok::<
                Seq<Seq<MemberView>>,
                ApiGenErrorView,
            >(spec_bodies_of_resp(spec_response_seq(protocol.responses@)))) by {
                assert(spec_bodies_of_resp(resps0).take(nresp as int) =~= spec_bodies_of_resp(
                    resps0,
                ));
                assert(spec_response_seq(protocol.responses@).take(nresp as int)
                    =~= spec_response_seq(protocol.responses@));
            }
            assert(spec_request_seq(protocol.requests@) =~= spec_attach_req(
                reqs0,
                spec_bodies_of_req(spec_request_seq(protocol.requests@)),
            ));
            assert(spec_response_seq(protocol.responses@) =~= spec_attach_resp(
                resps0,
                spec_bodies_of_resp(spec_response_seq(protocol.responses@)),
            ));
        }
        let key = protocol.name.clone();
        proof {
            assert(protocol@ == (ProtocolView {
                name: pname,
                protocol_struct_name: hdr_name,
                requests: spec_attach_req(
                    reqs0,
                    spec_bodies_of_req(spec_request_seq(protocol.requests@)),
                ),
                responses: spec_attach_resp(
                    resps0,
                    spec_bodies_of_resp(spec_response_seq(protocol.responses@)),
                ),
            }));
        }
        self.definition_items.insert(key, DefinitionItem::Protocol(protocol));
        Ok(())
    }

    /// Registers an extensible-struct family: builds the shared 4-byte
    /// discriminator enum under `stypes_name`, synthesizes the size-tagged
    /// wire header and the pointer-chained native header shapes, registers
    /// each variant's total size (own members plus the wire header) with
    /// its trailing padding, and commits the whole family under
    /// `stypes_name`, overwriting the enum entry registered moments
    /// before.
    #[verifier::loop_isolation(false)]
    pub fn add_extensible_structs(
        &mut self,
        stypes_name: String,
        parsed_structs: Vec<ExtensibleStruct>,
    ) -> (r: Result<(), ApiGenError>)
        requires
            old(self).wf(),
        ensures
            final(self).wf(),
            ({
                let sname = stypes_name@;
                let vs0 = spec_ext_struct_seq(parsed_structs@);
                if !old(self).spec_sizes().contains_key("u32"@) {
                    &&& r matches Err(e) && e@ == ApiGenErrorView::TypeNotFound("u32"@)
                    &&& *final(self) == *old(self)
                } else {
                    let sizes2 = old(self).spec_sizes().insert(
                        sname,
                        old(self).spec_sizes()["u32"@],
                    );
                    let items2 = old(self).spec_items().insert(
                        sname,
                        DefinitionItemView::Enum(
                            EnumView {
                                name: sname,
                                ty_name: "u32"@,
                                entries: spec_stype_entries(vs0),
                            },
                        ),
                    );
                    let hdr_members = seq![
                        MemberView { ty_name: sname, qualifier: Seq::empty(), name: "stype"@ },
                        MemberView { ty_name: "u32"@, qualifier: Seq::empty(), name: "size"@ },
                    ];
                    &&& final(self).spec_same_surroundings(old(self))
                    &&& match spec_members_size(hdr_members, sizes2) {
                        Err(e0) => {
                            &&& r matches Err(e) && e@ == e0
                            &&& final(self).spec_sizes() == sizes2
                            &&& final(self).spec_items() == items2
                        },
                        Ok(hsz) => {
                            let comp = spec_ext_compose(vs0, hsz, sizes2, items2);
                            &&& final(self).spec_sizes() == comp.0
                            &&& match comp.3 {
                                Some(e1) => {
                                    &&& r matches Err(e) && e@ == e1
                                    &&& final(self).spec_items() == comp.1
                                },
                                None => {
                                    &&& r is Ok
                                    &&& final(self).spec_items() == comp.1.insert(
                                        sname,
                                        DefinitionItemView::ExtensibleStructs(
                                            ExtensibleStructsView {
                                                stypes_name: sname,
                                                structs: comp.2,
                                                protocol_struct: StructCommonView {
                                                    name: spec_pascal(sname) + "Hdr"@,
                                                    members: hdr_members,
                                                    array_info: Seq::empty(),
                                                },
                                                ffi_struct: StructCommonView {
                                                    name: spec_pascal(sname) + "FFI"@,
                                                    members: seq![
                                                        MemberView {
                                                            ty_name: sname,
                                                            qualifier: Seq::empty(),
                                                            name: "stype"@,
                                                        },
                                                        MemberView {
                                                            ty_name: "*mut core::ffi::c_void"@,
                                                            qualifier: Seq::empty(),
                                                            name: "pNext"@,
                                                        },
                                                    ],
                                                    array_info: Seq::empty(),
                                                },
                                            },
                                        ),
                                    )
                                },
                            }
                        },
                    }
                }
            }),
    {
        let mut parsed_structs = parsed_structs;
        let ghost sname = stypes_name@;
        let ghost vs0 = spec_ext_struct_seq(parsed_structs@);
        // The shared discriminator enum, one entry per variant.
        let nvar: usize = parsed_structs.len();
        let mut entries: Vec<EnumEntry> = Vec::new();
        let mut k: usize = 0;
        while k < nvar
            invariant
                0 <= k <= nvar,
                nvar == parsed_structs@.len(),
                crate::defines::spec_enum_entry_seq(entries@) == spec_stype_entries(vs0).take(
                    k as int,
                ),
            decreases nvar - k,
        {
            let ghost pre = entries@;
            let entry = EnumEntry::from(parsed_structs[k].stype.duplicate());
            entries.push(entry);
            proof {
                assert(pre.len() == k) by {
                    assert(crate::defines::spec_enum_entry_seq(pre).len() == pre.len());
                }
                assert(entry@ == spec_stype_entries(vs0)[k as int]);
                assert forall|x: int|
                    0 <= x < k + 1 implies crate::defines::spec_enum_entry_seq(entries@)[x]
                    == spec_stype_entries(vs0).take(k + 1)[x] by {
                    if x < k {
                        assert(entries@[x] == pre[x]);
                        assert(crate::defines::spec_enum_entry_seq(pre)[x] == spec_stype_entries(
                            vs0,
                        ).take(k as int)[x]);
                    } else {
                        assert(entries@[x] == entry);
                    }
                }
                assert(crate::defines::spec_enum_entry_seq(entries@) =~= spec_stype_entries(
                    vs0,
                ).take(k + 1));
            }
            k = k + 1;
        }
        proof {
            assert(spec_stype_entries(vs0).take(nvar as int) =~= spec_stype_entries(vs0));
        }
        let stype_enum = Enum {
            name: stypes_name.clone(),
            ty_name: "u32".to_owned(),
            entries,
        };
        match self.add_enum(stype_enum) {
            Ok(()) => {},
            Err(e) => {
                return Err(e);
            },
        }
        let ghost sizes2 = self.spec_sizes();
        let ghost items2 = self.spec_items();
        // The wire header shape: discriminator plus payload size.  It is
        // measured, but never registered as a standalone sized type.
        let mut hdr_members: Vec<Member> = Vec::new();
        hdr_members.push(Member {
            ty_name: stypes_name.clone(),
            qualifier: String::new(),
            name: "stype".to_owned(),
        });
        hdr_members.push(mk_member("u32", "size"));
        let ghost hdr_members_v = seq![
            MemberView { ty_name: sname, qualifier: Seq::empty(), name: "stype"@ },
            MemberView { ty_name: "u32"@, qualifier: Seq::empty(), name: "size"@ },
        ];
        proof {
            assert(spec_member_seq(hdr_members@) =~= hdr_members_v);
        }
        let hdr_size: usize = match calculate_member_size(&hdr_members, &self.type_sizes) {
            Ok(s) => s,
            Err(e) => {
                return Err(e);
            },
        };
        let protocol_struct_name: String = to_pascal_case(stypes_name.as_str()).concat("Hdr");
        let protocol_struct = StructCommon {
            name: protocol_struct_name,
            members: hdr_members,
            array_info: Vec::new(),
        };
        // The native header shape: the payload-size field swapped for a
        // forward chain link, so a consumer can walk an extension chain
        // without knowing each block's size up front.
        let ffi_struct_name: String = to_pascal_case(stypes_name.as_str()).concat("FFI");
        let mut ffi_members: Vec<Member> = Vec::new();
        ffi_members.push(Member {
            ty_name: stypes_name.clone(),
            qualifier: String::new(),
            name: "stype".to_owned(),
        });
        ffi_members.push(mk_member("*mut core::ffi::c_void", "pNext"));
        let ffi_struct = StructCommon {
            name: ffi_struct_name,
            members: ffi_members,
            array_info: Vec::new(),
        };
        proof {
            assert(protocol_struct@ == (StructCommonView {
                name: spec_pascal(sname) + "Hdr"@,
                members: hdr_members_v,
                array_info: Seq::empty(),
            })) by {
                assert(spec_array_info_seq(protocol_struct.array_info@)
                    =~= Seq::<ArrayInfoView>::empty());
            }
            assert(ffi_struct@ == (StructCommonView {
                name: spec_pascal(sname) + "FFI"@,
                members: seq![
                    MemberView { ty_name: sname, qualifier: Seq::empty(), name: "stype"@ },
                    MemberView {
                        ty_name: "*mut core::ffi::c_void"@,
                        qualifier: Seq::empty(),
                        name: "pNext"@,
                    },
                ],
                array_info: Seq::empty(),
            })) by {
                assert(spec_member_seq(ffi_struct.members@) =~= seq![
                    MemberView { ty_name: sname, qualifier: Seq::empty(), name: "stype"@ },
                    MemberView {
                        ty_name: "*mut core::ffi::c_void"@,
                        qualifier: Seq::empty(),
                        name: "pNext"@,
                    },
                ]);
                assert(spec_array_info_seq(ffi_struct.array_info@)
                    =~= Seq::<ArrayInfoView>::empty());
            }
        }
        // Each variant: own-member size plus the wire-header size, padding
        // on the combined total.
        let ghost comp = spec_ext_compose(vs0, hdr_size as int, sizes2, items2);
        let mut i: usize = 0;
        proof {
            assert(vs0.skip(0) =~= vs0);
        }
        while i < nvar
            invariant
                0 <= i <= nvar,
                nvar == parsed_structs@.len(),
                self.wf(),
                self.spec_same_surroundings(old(self)),
                forall|j: int| i <= j < nvar ==> (#[trigger] parsed_structs@[j])@ == vs0[j],
                ({
                    let rest = spec_ext_compose(
                        vs0.skip(i as int),
                        hdr_size as int,
                        self.spec_sizes(),
                        self.spec_items(),
                    );
                    &&& rest.0 == comp.0
                    &&& rest.1 == comp.1
                    &&& rest.3 == comp.3
                    &&& comp.2 == spec_ext_struct_seq(parsed_structs@.take(i as int)) + rest.2
                }),
            decreases nvar - i,
        {
            let ghost rest = spec_ext_compose(
                vs0.skip(i as int),
                hdr_size as int,
                self.spec_sizes(),
                self.spec_items(),
            );
            proof {
                assert(vs0.skip(i as int).first() == vs0[i as int]);
                assert(vs0.skip(i as int).drop_first() =~= vs0.skip(i + 1));
                assert(parsed_structs@[i as int]@ == vs0[i as int]);
            }
            let size: usize = match calculate_member_size(
                &parsed_structs[i].common.members,
                &self.type_sizes,
            ) {
                Ok(s) => s,
                Err(e) => {
                    return Err(e);
                },
            };
            let total: usize = match size.checked_add(hdr_size) {
                Some(t) => t,
                None => {
                    return Err(ApiGenError::SizeOverflow(parsed_structs[i].common.name.clone()));
                },
            };
            let key = parsed_structs[i].common.name.clone();
            self.type_sizes.insert(key, total);
            let pad = calculate_padding(total);
            parsed_structs[i].padding = pad;
            let stored = parsed_structs[i].duplicate();
            let key2 = parsed_structs[i].common.name.clone();
            proof {
                assert(parsed_structs@[i as int]@ == (crate::defines::ExtensibleStructView {
                    stype: vs0[i as int].stype,
                    common: vs0[i as int].common,
                    padding: if spec_pad(total as int) == 0 {
                        None
                    } else {
                        Some(spec_padding_member(spec_pad(total as int)))
                    },
                }));
            }
            self.definition_items.insert(key2, DefinitionItem::ExtensibleStruct(stored));
            proof {
                let rest2 = spec_ext_compose(
                    vs0.skip(i + 1),
                    hdr_size as int,
                    self.spec_sizes(),
                    self.spec_items(),
                );
                assert(rest.2 =~= seq![parsed_structs@[i as int]@] + rest2.2);
                assert(spec_ext_struct_seq(parsed_structs@.take(i + 1)) =~= spec_ext_struct_seq(
                    parsed_structs@.take(i as int),
                ).push(parsed_structs@[i as int]@));
                assert(spec_ext_struct_seq(parsed_structs@.take(i as int)) + rest.2
                    =~= spec_ext_struct_seq(parsed_structs@.take(i + 1)) + rest2.2);
            }
            i = i + 1;
        }
        proof {
            assert(vs0.skip(nvar as int) =~= Seq::<crate::defines::ExtensibleStructView>::empty());
            assert(parsed_structs@.take(nvar as int) =~= parsed_structs@);
            assert(comp.2 =~= spec_ext_struct_seq(parsed_structs@)
                + Seq::<crate::defines::ExtensibleStructView>::empty());
            assert(comp.2 =~= spec_ext_struct_seq(parsed_structs@));
        }
        // The whole family, committed under the shared tag enum's name.
        let key = stypes_name.clone();
        let family = ExtensibleStructs {
            stypes_name,
            structs: parsed_structs,
            protocol_struct,
            ffi_struct,
        };
        self.definition_items.insert(key, DefinitionItem::ExtensibleStructs(family));
        Ok(())
    }

    /// Registers a callable signature.  Functions carry no size, so only
    /// the item namespace learns of them.
    pub fn add_function(&mut self, function: Function)
        requires
            old(self).wf(),
        ensures
            final(self).wf(),
            final(self).spec_items() == old(self).spec_items().insert(
                function@.name,
                DefinitionItemView::Function(function@),
            ),
            final(self).spec_sizes() == old(self).spec_sizes(),
            final(self).spec_same_surroundings(old(self)),
    {
        let key = function.name.clone();
        self.definition_items.insert(key, DefinitionItem::Function(function));
    }
}

} // verus!
