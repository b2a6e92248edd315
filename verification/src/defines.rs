//! The engine's data model: the structured records the schema reader hands
//! to the registry, the registered item variants, and the read-only
//! descriptors the emitters consume.
//!
//! Every record type carries a view — the same shape over character
//! sequences — so that contracts can pin registered values down exactly.

use vstd::prelude::*;

verus! {

/// One field of a composite: a type name (a primitive, a registered item
/// name, or the `"[ElementType; CountReference]"` array shorthand), an
/// optional qualifier, and the member's own name.
#[derive(Debug, Default, Clone)]
pub struct Member {
    pub ty_name: String,
    pub qualifier: String,
    pub name: String,
}

pub struct MemberView {
    pub ty_name: Seq<char>,
    pub qualifier: Seq<char>,
    pub name: Seq<char>,
}

impl View for Member {
    type V = MemberView;

    open spec fn view(&self) -> MemberView {
        MemberView { ty_name: self.ty_name@, qualifier: self.qualifier@, name: self.name@ }
    }
}

/// The views of a member list, in order.
pub open spec fn spec_member_seq(v: Seq<Member>) -> Seq<MemberView> {
    v.map_values(|m: Member| m@)
}

/// A derived array/count relationship: an array member paired with the
/// sibling member that carries its element count, by the naming convention
/// singular(array name) + "_count".
#[derive(Debug, Default, Clone)]
pub struct ArrayInfo {
    pub array_member_name: String,
    pub array_base_type: String,
    pub count_member_name: String,
}

pub struct ArrayInfoView {
    pub array_member_name: Seq<char>,
    pub array_base_type: Seq<char>,
    pub count_member_name: Seq<char>,
}

impl View for ArrayInfo {
    type V = ArrayInfoView;

    open spec fn view(&self) -> ArrayInfoView {
        ArrayInfoView {
            array_member_name: self.array_member_name@,
            array_base_type: self.array_base_type@,
            count_member_name: self.count_member_name@,
        }
    }
}

pub open spec fn spec_array_info_seq(v: Seq<ArrayInfo>) -> Seq<ArrayInfoView> {
    v.map_values(|a: ArrayInfo| a@)
}

/// The name, members and derived array relationships shared by plain
/// structs and extensible-struct variants.
#[derive(Debug, Default, Clone)]
pub struct StructCommon {
    pub name: String,
    pub members: Vec<Member>,
    pub array_info: Vec<ArrayInfo>,
}

pub struct StructCommonView {
    pub name: Seq<char>,
    pub members: Seq<MemberView>,
    pub array_info: Seq<ArrayInfoView>,
}

impl View for StructCommon {
    type V = StructCommonView;

    open spec fn view(&self) -> StructCommonView {
        StructCommonView {
            name: self.name@,
            members: spec_member_seq(self.members@),
            array_info: spec_array_info_seq(self.array_info@),
        }
    }
}

/// A plain struct declaration.
#[derive(Debug, Default, Clone)]
pub struct StructDef {
    pub common: StructCommon,
}

pub struct StructDefView {
    pub common: StructCommonView,
}

impl View for StructDef {
    type V = StructDefView;

    open spec fn view(&self) -> StructDefView {
        StructDefView { common: self.common@ }
    }
}

/// A named constant with a textual value; registered constants double as
/// array-count references.
#[derive(Debug, Default, Clone)]
pub struct Constant {
    pub ty_name: String,
    pub name: String,
    pub value: String,
}

pub struct ConstantView {
    pub ty_name: Seq<char>,
    pub name: Seq<char>,
    pub value: Seq<char>,
}

impl View for Constant {
    type V = ConstantView;

    open spec fn view(&self) -> ConstantView {
        ConstantView { ty_name: self.ty_name@, name: self.name@, value: self.value@ }
    }
}

/// One named entry of an enum or flag set.
#[derive(Debug, Default, Clone)]
pub struct EnumEntry {
    pub name: String,
    pub value: String,
}

pub struct EnumEntryView {
    pub name: Seq<char>,
    pub value: Seq<char>,
}

impl View for EnumEntry {
    type V = EnumEntryView;

    open spec fn view(&self) -> EnumEntryView {
        EnumEntryView { name: self.name@, value: self.value@ }
    }
}

pub open spec fn spec_enum_entry_seq(v: Seq<EnumEntry>) -> Seq<EnumEntryView> {
    v.map_values(|e: EnumEntry| e@)
}

/// An enumeration over a declared underlying integer type.
#[derive(Debug, Default, Clone)]
pub struct Enum {
    pub name: String,
    pub ty_name: String,
    pub entries: Vec<EnumEntry>,
}

pub struct EnumView {
    pub name: Seq<char>,
    pub ty_name: Seq<char>,
    pub entries: Seq<EnumEntryView>,
}

impl View for Enum {
    type V = EnumView;

    open spec fn view(&self) -> EnumView {
        EnumView {
            name: self.name@,
            ty_name: self.ty_name@,
            entries: spec_enum_entry_seq(self.entries@),
        }
    }
}

/// A bit-flag set over a declared underlying integer type.
#[derive(Debug, Default, Clone)]
pub struct Flag {
    pub name: String,
    pub ty_name: String,
    pub entries: Vec<EnumEntry>,
}

pub struct FlagView {
    pub name: Seq<char>,
    pub ty_name: Seq<char>,
    pub entries: Seq<EnumEntryView>,
}

impl View for Flag {
    type V = FlagView;

    open spec fn view(&self) -> FlagView {
        FlagView {
            name: self.name@,
            ty_name: self.ty_name@,
            entries: spec_enum_entry_seq(self.entries@),
        }
    }
}

/// The discriminator of one extensible-struct variant: a name and a value
/// for the shared tag enum.
#[derive(Debug, Default, Clone)]
pub struct SType {
    pub name: String,
    pub value: String,
}

pub struct STypeView {
    pub name: Seq<char>,
    pub value: Seq<char>,
}

impl View for SType {
    type V = STypeView;

    open spec fn view(&self) -> STypeView {
        STypeView { name: self.name@, value: self.value@ }
    }
}

impl From<SType> for EnumEntry {
    /// An extensible-struct discriminator becomes one entry of the family's
    /// shared tag enum.
    fn from(stype: SType) -> (r: EnumEntry) {
        EnumEntry { name: stype.name, value: stype.value }
    }
}

impl vstd::std_specs::convert::FromSpecImpl<SType> for EnumEntry {
    open spec fn obeys_from_spec() -> bool {
        true
    }

    open spec fn from_spec(stype: SType) -> EnumEntry {
        EnumEntry { name: stype.name, value: stype.value }
    }
}

impl Member {
    /// A copy whose view is the same; spelled out so that contracts can
    /// rely on it.
    pub fn duplicate(&self) -> (r: Member)
        ensures
            r@ == self@,
    {
        Member {
            ty_name: self.ty_name.clone(),
            qualifier: self.qualifier.clone(),
            name: self.name.clone(),
        }
    }
}

impl ArrayInfo {
    pub fn duplicate(&self) -> (r: ArrayInfo)
        ensures
            r@ == self@,
    {
        ArrayInfo {
            array_member_name: self.array_member_name.clone(),
            array_base_type: self.array_base_type.clone(),
            count_member_name: self.count_member_name.clone(),
        }
    }
}

impl SType {
    pub fn duplicate(&self) -> (r: SType)
        ensures
            r@ == self@,
    {
        SType { name: self.name.clone(), value: self.value.clone() }
    }
}

impl StructCommon {
    pub fn duplicate(&self) -> (r: StructCommon)
        ensures
            r@ == self@,
    {
        let n: usize = self.members.len();
        let mut members: Vec<Member> = Vec::new();
        let mut i: usize = 0;
        while i < n
            invariant
                0 <= i <= n,
                n == self.members@.len(),
                spec_member_seq(members@) == spec_member_seq(self.members@).take(i as int),
            decreases n - i,
        {
            let d = self.members[i].duplicate();
            let ghost pre = members@;
            members.push(d);
            proof {
                assert(pre.len() == i) by {
                    assert(spec_member_seq(pre).len() == pre.len());
                }
                assert(d@ == spec_member_seq(self.members@)[i as int]);
                assert forall|k: int| 0 <= k < i + 1 implies spec_member_seq(members@)[k]
                    == spec_member_seq(self.members@).take(i + 1)[k] by {
                    if k < i {
                        assert(members@[k] == pre[k]);
                        assert(spec_member_seq(pre)[k] == spec_member_seq(self.members@).take(
                            i as int,
                        )[k]);
                    } else {
                        assert(members@[k] == d);
                    }
                }
                assert(spec_member_seq(members@) =~= spec_member_seq(self.members@).take(i + 1));
            }
            i = i + 1;
        }
        let m: usize = self.array_info.len();
        let mut array_info: Vec<ArrayInfo> = Vec::new();
        let mut j: usize = 0;
        while j < m
            invariant
                0 <= j <= m,
                m == self.array_info@.len(),
                spec_array_info_seq(array_info@) == spec_array_info_seq(self.array_info@).take(
                    j as int,
                ),
            decreases m - j,
        {
            let d = self.array_info[j].duplicate();
            let ghost pre = array_info@;
            array_info.push(d);
            proof {
                assert(pre.len() == j) by {
                    assert(spec_array_info_seq(pre).len() == pre.len());
                }
                assert(d@ == spec_array_info_seq(self.array_info@)[j as int]);
                assert forall|k: int| 0 <= k < j + 1 implies spec_array_info_seq(array_info@)[k]
                    == spec_array_info_seq(self.array_info@).take(j + 1)[k] by {
                    if k < j {
                        assert(array_info@[k] == pre[k]);
                        assert(spec_array_info_seq(pre)[k] == spec_array_info_seq(
                            self.array_info@,
                        ).take(j as int)[k]);
                    } else {
                        assert(array_info@[k] == d);
                    }
                }
                assert(spec_array_info_seq(array_info@) =~= spec_array_info_seq(
                    self.array_info@,
                ).take(j + 1));
            }
            j = j + 1;
        }
        let r = StructCommon { name: self.name.clone(), members, array_info };
        proof {
            assert(spec_member_seq(self.members@).take(n as int) =~= spec_member_seq(
                self.members@,
            ));
            assert(spec_array_info_seq(self.array_info@).take(m as int) =~= spec_array_info_seq(
                self.array_info@,
            ));
        }
        r
    }
}

/// One tagged variant of an extensible-struct family, with the trailing
/// padding member the composer attaches when the combined size needs it.
#[derive(Debug, Default, Clone)]
pub struct ExtensibleStruct {
    pub stype: SType,
    pub common: StructCommon,
    pub padding: Option<Member>,
}

pub struct ExtensibleStructView {
    pub stype: STypeView,
    pub common: StructCommonView,
    pub padding: Option<MemberView>,
}

impl View for ExtensibleStruct {
    type V = ExtensibleStructView;

    open spec fn view(&self) -> ExtensibleStructView {
        ExtensibleStructView {
            stype: self.stype@,
            common: self.common@,
            padding: match self.padding {
                Option::Some(m) => Option::Some(m@),
                Option::None => Option::None,
            },
        }
    }
}

pub open spec fn spec_ext_struct_seq(v: Seq<ExtensibleStruct>) -> Seq<ExtensibleStructView> {
    v.map_values(|s: ExtensibleStruct| s@)
}

impl ExtensibleStruct {
    pub fn duplicate(&self) -> (r: ExtensibleStruct)
        ensures
            r@ == self@,
    {
        ExtensibleStruct {
            stype: self.stype.duplicate(),
            common: self.common.duplicate(),
            padding: match &self.padding {
                Some(m) => Some(m.duplicate()),
                None => None,
            },
        }
    }
}

/// A whole extensible-struct family: the shared tag enum's name, the
/// variants, the size-tagged wire header shape and the pointer-chained
/// native header shape.
#[derive(Debug, Default, Clone)]
pub struct ExtensibleStructs {
    pub stypes_name: String,
    pub structs: Vec<ExtensibleStruct>,
    pub protocol_struct: StructCommon,
    pub ffi_struct: StructCommon,
}

pub struct ExtensibleStructsView {
    pub stypes_name: Seq<char>,
    pub structs: Seq<ExtensibleStructView>,
    pub protocol_struct: StructCommonView,
    pub ffi_struct: StructCommonView,
}

impl View for ExtensibleStructs {
    type V = ExtensibleStructsView;

    open spec fn view(&self) -> ExtensibleStructsView {
        ExtensibleStructsView {
            stypes_name: self.stypes_name@,
            structs: spec_ext_struct_seq(self.structs@),
            protocol_struct: self.protocol_struct@,
            ffi_struct: self.ffi_struct@,
        }
    }
}

/// A named opaque handle pairing a native-side name with a cross-language
/// binding name.
#[derive(Debug, Default, Clone)]
pub struct Object {
    pub name: String,
    pub ffi: String,
    pub rust: String,
}

pub struct ObjectView {
    pub name: Seq<char>,
    pub ffi: Seq<char>,
    pub rust: Seq<char>,
}

impl View for Object {
    type V = ObjectView;

    open spec fn view(&self) -> ObjectView {
        ObjectView { name: self.name@, ffi: self.ffi@, rust: self.rust@ }
    }
}

/// A callable signature: name, return type and parameter members.
/// Functions are not sized types.
#[derive(Debug, Default, Clone)]
pub struct Function {
    pub name: String,
    pub ret: String,
    pub members: Vec<Member>,
}

pub struct FunctionView {
    pub name: Seq<char>,
    pub ret: Seq<char>,
    pub members: Seq<MemberView>,
}

impl View for Function {
    type V = FunctionView;

    open spec fn view(&self) -> FunctionView {
        FunctionView { name: self.name@, ret: self.ret@, members: spec_member_seq(self.members@) }
    }
}

/// The command selector of a protocol request or response.
#[derive(Debug, Default, Clone)]
pub struct Opcode {
    pub name: String,
    pub value: String,
}

pub struct OpcodeView {
    pub name: Seq<char>,
    pub value: Seq<char>,
}

impl View for Opcode {
    type V = OpcodeView;

    open spec fn view(&self) -> OpcodeView {
        OpcodeView { name: self.name@, value: self.value@ }
    }
}

/// A protocol request; after composition its first member is always the
/// synthesized command header.
#[derive(Debug, Default, Clone)]
pub struct Request {
    pub opcode: Opcode,
    pub members: Vec<Member>,
}

pub struct RequestView {
    pub opcode: OpcodeView,
    pub members: Seq<MemberView>,
}

impl View for Request {
    type V = RequestView;

    open spec fn view(&self) -> RequestView {
        RequestView { opcode: self.opcode@, members: spec_member_seq(self.members@) }
    }
}

pub open spec fn spec_request_seq(v: Seq<Request>) -> Seq<RequestView> {
    v.map_values(|r: Request| r@)
}

/// A protocol response; composed exactly like a request.
#[derive(Debug, Default, Clone)]
pub struct Response {
    pub opcode: Opcode,
    pub members: Vec<Member>,
}

pub struct ResponseView {
    pub opcode: OpcodeView,
    pub members: Seq<MemberView>,
}

impl View for Response {
    type V = ResponseView;

    open spec fn view(&self) -> ResponseView {
        ResponseView { opcode: self.opcode@, members: spec_member_seq(self.members@) }
    }
}

pub open spec fn spec_response_seq(v: Seq<Response>) -> Seq<ResponseView> {
    v.map_values(|r: Response| r@)
}

/// A request/response protocol; `protocol_struct_name` is filled in during
/// composition with the synthesized command header type's name.
#[derive(Debug, Default, Clone)]
pub struct Protocol {
    pub name: String,
    pub protocol_struct_name: String,
    pub requests: Vec<Request>,
    pub responses: Vec<Response>,
}

pub struct ProtocolView {
    pub name: Seq<char>,
    pub protocol_struct_name: Seq<char>,
    pub requests: Seq<RequestView>,
    pub responses: Seq<ResponseView>,
}

impl View for Protocol {
    type V = ProtocolView;

    open spec fn view(&self) -> ProtocolView {
        ProtocolView {
            name: self.name@,
            protocol_struct_name: self.protocol_struct_name@,
            requests: spec_request_seq(self.requests@),
            responses: spec_response_seq(self.responses@),
        }
    }
}

/// A registered item: one shared namespace covers every kind.
#[derive(Debug, Clone)]
pub enum DefinitionItem {
    Constant(Constant),
    Struct(StructDef),
    Enum(Enum),
    Flag(Flag),
    ExtensibleStruct(ExtensibleStruct),
    ExtensibleStructs(ExtensibleStructs),
    Object(Object),
    Function(Function),
    Protocol(Protocol),
}

pub enum DefinitionItemView {
    Constant(ConstantView),
    Struct(StructDefView),
    Enum(EnumView),
    Flag(FlagView),
    ExtensibleStruct(ExtensibleStructView),
    ExtensibleStructs(ExtensibleStructsView),
    Object(ObjectView),
    Function(FunctionView),
    Protocol(ProtocolView),
}

impl View for DefinitionItem {
    type V = DefinitionItemView;

    open spec fn view(&self) -> DefinitionItemView {
        match self {
            DefinitionItem::Constant(c) => DefinitionItemView::Constant(c@),
            DefinitionItem::Struct(s) => DefinitionItemView::Struct(s@),
            DefinitionItem::Enum(e) => DefinitionItemView::Enum(e@),
            DefinitionItem::Flag(f) => DefinitionItemView::Flag(f@),
            DefinitionItem::ExtensibleStruct(s) => DefinitionItemView::ExtensibleStruct(s@),
            DefinitionItem::ExtensibleStructs(s) => DefinitionItemView::ExtensibleStructs(s@),
            DefinitionItem::Object(o) => DefinitionItemView::Object(o@),
            DefinitionItem::Function(f) => DefinitionItemView::Function(f@),
            DefinitionItem::Protocol(p) => DefinitionItemView::Protocol(p@),
        }
    }
}

/// A named grouping of item names, in declared order; purely
/// organizational, with no layout semantics of its own.
#[derive(Debug, Default, Clone)]
pub struct Definition {
    pub name: String,
    pub items: Vec<String>,
}

pub struct DefinitionView {
    pub name: Seq<char>,
    pub items: Seq<Seq<char>>,
}

impl View for Definition {
    type V = DefinitionView;

    open spec fn view(&self) -> DefinitionView {
        DefinitionView { name: self.name@, items: crate::utils::spec_str_seq(self.items@) }
    }
}

/// A descriptor of one output artifact an external emitter renders from the
/// finished registry; read-only with respect to the engine.
#[derive(Debug, Default, Clone)]
pub struct GeneratedFile {
    pub out_path: String,
    pub file_name: String,
    pub file_type: String,
    pub includes: Vec<String>,
    pub instantiations: Vec<String>,
}

pub struct GeneratedFileView {
    pub out_path: Seq<char>,
    pub file_name: Seq<char>,
    pub file_type: Seq<char>,
    pub includes: Seq<Seq<char>>,
    pub instantiations: Seq<Seq<char>>,
}

impl View for GeneratedFile {
    type V = GeneratedFileView;

    open spec fn view(&self) -> GeneratedFileView {
        GeneratedFileView {
            out_path: self.out_path@,
            file_name: self.file_name@,
            file_type: self.file_type@,
            includes: crate::utils::spec_str_seq(self.includes@),
            instantiations: crate::utils::spec_str_seq(self.instantiations@),
        }
    }
}

/// Copyright metadata attached once at ingestion start.
#[derive(Debug, Default, Clone)]
pub struct Copyright {
    pub spdx: String,
    pub holder: String,
    pub year: u32,
}

pub struct CopyrightView {
    pub spdx: Seq<char>,
    pub holder: Seq<char>,
    pub year: u32,
}

impl View for Copyright {
    type V = CopyrightView;

    open spec fn view(&self) -> CopyrightView {
        CopyrightView { spdx: self.spdx@, holder: self.holder@, year: self.year }
    }
}

} // verus!
