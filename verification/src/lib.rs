//! A layout-resolution and composition engine for declarative binary schemas.
//!
//! The engine owns a registry of named items (constants, structs, enums,
//! flags, objects, functions, protocols and extensible-struct families).
//! Every composite item is resolved eagerly at registration time to a
//! deterministic byte size, and trailing padding to an 8-byte boundary is
//! derived where the ABI rules call for it.  Protocol requests and responses
//! get a synthesized command header prepended; extensible-struct families get
//! a shared discriminator enum plus a wire header and a pointer-chained
//! native header.
//!
//! The textual schema reader that feeds the registry and the template-driven
//! emitters that render it into output artifacts live outside this crate;
//! they only need the ingestion and read surface exposed here.

mod api;
mod array_type;
mod defines;
mod error;
mod file_type;
mod laws;
mod magma_protocol;
mod name_map;
mod sizes;
mod text;
mod utils;

pub use api::{
    spec_attach_req, spec_attach_resp, spec_bodies_of_req, spec_bodies_of_resp, spec_compose_bodies,
    spec_compose_body, spec_count_sibling_name, spec_ext_compose, spec_has_member_named,
    spec_hdr_member, spec_infer_array_info, spec_infer_rec, spec_initial_sizes,
    spec_initial_typemap, spec_items_of_names, spec_member_array_info, spec_protocol_hdr_members,
    spec_resolve_instantiations, spec_stype_entries, Api,
};
pub use array_type::{
    parse_array_shorthand, spec_find_char, spec_parse_array_shorthand, spec_trim, spec_trim_left,
    spec_trim_right, ArrayType,
};
pub use defines::{
    ArrayInfo, Constant, Copyright, Definition, DefinitionItem, Enum, EnumEntry, ExtensibleStruct,
    ExtensibleStructs, Flag, Function, GeneratedFile, Member, Object, Opcode, Protocol, Request,
    Response, SType, StructCommon, StructDef,
};
pub use defines::{
    spec_array_info_seq, spec_enum_entry_seq, spec_ext_struct_seq, spec_member_seq,
    spec_request_seq, spec_response_seq,
};
pub use defines::{
    ArrayInfoView, ConstantView, CopyrightView, DefinitionItemView, DefinitionView, EnumEntryView,
    EnumView, ExtensibleStructView, ExtensibleStructsView, FlagView, FunctionView,
    GeneratedFileView, MemberView, ObjectView, OpcodeView, ProtocolView, RequestView, ResponseView,
    STypeView, StructCommonView, StructDefView,
};
pub use error::{ApiGenError, ApiGenErrorView};
pub use file_type::{spec_file_type, FileType};
pub use laws::{
    lemma_array_shorthand_size, lemma_command_header_size, lemma_empty_body_composes_to_header,
    lemma_members_size_in_range,
    lemma_members_size_is_sum, lemma_padding_law, lemma_reregistration_overwrites,
    lemma_sum_order_independent, lemma_total_order_independent, lemma_variant_total,
    spec_all_direct, spec_direct_size, spec_sum_sizes,
};
pub use magma_protocol::{
    magma_command_hdr, MagmaCreateBufferCmd, MagmaCreateBufferInfo, MagmaCreateBufferRequest,
    MagmaCreateDeviceCmd, MagmaCreateDeviceRequest, MagmaHeap, MagmaHeapBudget,
    MagmaMemoryProperties, MagmaMemoryType, MagmaOpcode, MAGMA_MAX_MEMORY_HEAPS,
    MAGMA_MAX_MEMORY_TYPES,
};
pub use name_map::{assoc_view, NameMap};
pub use sizes::{
    calculate_member_size, calculate_padding, spec_members_size, spec_pad, spec_padding_member,
    spec_type_size,
};
pub use text::{
    parse_usize, spec_all_digits, spec_digit_part, spec_digit_val, spec_digits_val, spec_is_digit,
    spec_is_space, spec_is_usize_string, spec_to_upper, spec_usize_string_val,
};
pub use utils::{
    spec_find_sub, spec_match_at, spec_pascal, spec_pascal_rec, spec_split, spec_split_empty_sep,
    spec_str_seq, split, to_pascal_case,
};
