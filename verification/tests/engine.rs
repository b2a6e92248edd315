//! End-to-end checks of the layout engine: primitive sums, the array
//! shorthand, padding, protocol and extensible-family composition, and the
//! overwrite behaviour of the shared namespace.

use apigen::{
    calculate_member_size, calculate_padding, Api, ApiGenError, Constant, DefinitionItem, Enum,
    ExtensibleStruct, Flag, Member, NameMap, Object, Opcode, Protocol, Request, Response, SType,
    StructCommon, StructDef,
};

fn member(ty: &str, name: &str) -> Member {
    Member { ty_name: ty.to_string(), qualifier: String::new(), name: name.to_string() }
}

fn constant(name: &str, value: &str) -> Constant {
    Constant { ty_name: "u32".to_string(), name: name.to_string(), value: value.to_string() }
}

fn struct_def(name: &str, members: Vec<Member>) -> StructDef {
    StructDef {
        common: StructCommon { name: name.to_string(), members, array_info: Vec::new() },
    }
}

fn primitive_sizes() -> NameMap<usize> {
    let mut sizes: NameMap<usize> = NameMap::new();
    sizes.insert("u8".to_string(), 1);
    sizes.insert("u16".to_string(), 2);
    sizes.insert("u32".to_string(), 4);
    sizes.insert("u64".to_string(), 8);
    sizes
}

#[test]
fn primitive_sum_is_total() {
    let sizes = primitive_sizes();
    let members = vec![member("u8", "a"), member("u16", "b"), member("u32", "c"),
        member("u64", "d")];
    assert_eq!(calculate_member_size(&members, &sizes).unwrap(), 15);
}

#[test]
fn primitive_sum_is_order_independent() {
    let sizes = primitive_sizes();
    let one = vec![member("u8", "a"), member("u16", "b"), member("u32", "c")];
    let other = vec![member("u32", "c"), member("u8", "a"), member("u16", "b")];
    assert_eq!(
        calculate_member_size(&one, &sizes).unwrap(),
        calculate_member_size(&other, &sizes).unwrap()
    );
    assert_eq!(calculate_member_size(&one, &sizes).unwrap(), 7);
}

#[test]
fn array_shorthand_multiplies() {
    let mut sizes = primitive_sizes();
    sizes.insert("COUNT".to_string(), 5);
    let members = vec![member("[u16; COUNT]", "xs")];
    assert_eq!(calculate_member_size(&members, &sizes).unwrap(), 10);
}

#[test]
fn array_shorthand_tolerates_spaces() {
    let mut sizes = primitive_sizes();
    sizes.insert("COUNT".to_string(), 3);
    let members = vec![member("[u32 ; COUNT]", "xs")];
    assert_eq!(calculate_member_size(&members, &sizes).unwrap(), 12);
}

#[test]
fn array_shorthand_unknown_element_is_type_not_found() {
    let mut sizes = primitive_sizes();
    sizes.insert("COUNT".to_string(), 5);
    let members = vec![member("[mystery; COUNT]", "xs")];
    let err = calculate_member_size(&members, &sizes).unwrap_err();
    assert!(matches!(err, ApiGenError::TypeNotFound(t) if t == "mystery"));
}

#[test]
fn array_shorthand_unknown_count_is_constant_not_found() {
    let sizes = primitive_sizes();
    let members = vec![member("[u8; NOPE]", "xs")];
    let err = calculate_member_size(&members, &sizes).unwrap_err();
    assert!(matches!(err, ApiGenError::ConstantNotFound(c) if c == "NOPE"));
}

#[test]
fn malformed_array_is_invalid_format() {
    let sizes = primitive_sizes();
    let members = vec![member("[u8 COUNT]", "xs")];
    let err = calculate_member_size(&members, &sizes).unwrap_err();
    assert!(matches!(err, ApiGenError::InvalidArrayTypeFormat(t) if t == "[u8 COUNT]"));
}

#[test]
fn unknown_plain_type_is_type_not_found() {
    let sizes = primitive_sizes();
    let members = vec![member("mystery", "x")];
    let err = calculate_member_size(&members, &sizes).unwrap_err();
    assert!(matches!(err, ApiGenError::TypeNotFound(t) if t == "mystery"));
}

#[test]
fn first_failure_wins() {
    let sizes = primitive_sizes();
    let members = vec![member("first_missing", "a"), member("second_missing", "b")];
    let err = calculate_member_size(&members, &sizes).unwrap_err();
    assert!(matches!(err, ApiGenError::TypeNotFound(t) if t == "first_missing"));
}

#[test]
fn padding_rounds_to_eight() {
    for n in 0usize..64 {
        let padded = match calculate_padding(n) {
            None => n,
            Some(m) => {
                assert_eq!(m.name, "padding");
                if m.ty_name == "u32" {
                    n + 4
                } else {
                    // A byte array "[u8; p]" of the exact missing length.
                    let p: usize = m.ty_name[5..6].parse().unwrap();
                    assert_eq!(m.ty_name, format!("[u8; {}]", p));
                    n + p
                }
            },
        };
        assert_eq!(padded % 8, 0);
        assert!(padded - n < 8);
    }
}

#[test]
fn padding_of_four_is_scalar() {
    let m = calculate_padding(12).unwrap();
    assert_eq!(m.ty_name, "u32");
    assert_eq!(m.name, "padding");
    assert_eq!(m.qualifier, "");
}

#[test]
fn padding_of_other_remainders_is_byte_array() {
    assert_eq!(calculate_padding(15).unwrap().ty_name, "[u8; 1]");
    assert_eq!(calculate_padding(14).unwrap().ty_name, "[u8; 2]");
    assert_eq!(calculate_padding(13).unwrap().ty_name, "[u8; 3]");
    assert_eq!(calculate_padding(11).unwrap().ty_name, "[u8; 5]");
    assert_eq!(calculate_padding(10).unwrap().ty_name, "[u8; 6]");
    assert_eq!(calculate_padding(9).unwrap().ty_name, "[u8; 7]");
    assert!(calculate_padding(0).is_none());
    assert!(calculate_padding(8).is_none());
    assert!(calculate_padding(16).is_none());
}

#[test]
fn point_struct_is_eight_bytes() {
    let mut api = Api::new();
    api.add_struct(struct_def("Point", vec![member("i32", "x"), member("i32", "y")])).unwrap();
    assert_eq!(api.type_size(&"Point".to_string()), Some(8));
}

#[test]
fn triple_struct_is_twelve_bytes_unpadded() {
    let mut api = Api::new();
    api.add_struct(
        struct_def("Triple", vec![member("i32", "a"), member("i32", "b"), member("i32", "c")]),
    ).unwrap();
    // Bare structs are not auto-padded.
    assert_eq!(api.type_size(&"Triple".to_string()), Some(12));
    match api.definition_item(&"Triple".to_string()) {
        Some(DefinitionItem::Struct(s)) => {
            assert_eq!(s.common.members.len(), 3);
        },
        _ => panic!("Triple should be registered as a struct"),
    }
}

#[test]
fn struct_array_count_sibling_is_inferred() {
    let mut api = Api::new();
    api.add_constant(constant("MAX_HEAPS", "4")).unwrap();
    api.add_struct(
        struct_def(
            "Heaps",
            vec![member("u32", "heap_count"), member("[u32; MAX_HEAPS]", "heaps")],
        ),
    ).unwrap();
    assert_eq!(api.type_size(&"Heaps".to_string()), Some(20));
    match api.definition_item(&"Heaps".to_string()) {
        Some(DefinitionItem::Struct(s)) => {
            assert_eq!(s.common.array_info.len(), 1);
            assert_eq!(s.common.array_info[0].array_member_name, "heaps");
            assert_eq!(s.common.array_info[0].array_base_type, "u32");
            assert_eq!(s.common.array_info[0].count_member_name, "heap_count");
        },
        _ => panic!("Heaps should be registered as a struct"),
    }
}

#[test]
fn struct_array_without_sibling_still_sizes() {
    let mut api = Api::new();
    api.add_constant(constant("N", "2")).unwrap();
    api.add_struct(struct_def("Bag", vec![member("[u64; N]", "items")])).unwrap();
    assert_eq!(api.type_size(&"Bag".to_string()), Some(16));
    match api.definition_item(&"Bag".to_string()) {
        Some(DefinitionItem::Struct(s)) => assert_eq!(s.common.array_info.len(), 0),
        _ => panic!("Bag should be registered as a struct"),
    }
}

#[test]
fn constant_value_becomes_registered_size() {
    let mut api = Api::new();
    api.add_constant(constant("LIMIT", "12")).unwrap();
    assert_eq!(api.type_size(&"LIMIT".to_string()), Some(12));
    assert!(matches!(
        api.definition_item(&"LIMIT".to_string()),
        Some(DefinitionItem::Constant(_))
    ));
}

#[test]
fn constant_with_plus_sign_parses() {
    let mut api = Api::new();
    api.add_constant(constant("P", "+7")).unwrap();
    assert_eq!(api.type_size(&"P".to_string()), Some(7));
}

#[test]
fn bad_constant_value_is_rejected() {
    let mut api = Api::new();
    let err = api.add_constant(constant("BAD", "twelve")).unwrap_err();
    assert!(matches!(
        err,
        ApiGenError::InvalidConstantValue { name, value } if name == "BAD" && value == "twelve"
    ));
    assert!(api.type_size(&"BAD".to_string()).is_none());
}

#[test]
fn empty_and_overflowing_constants_are_rejected() {
    let mut api = Api::new();
    assert!(api.add_constant(constant("E", "")).is_err());
    assert!(api.add_constant(constant("NEG", "-1")).is_err());
    assert!(api.add_constant(constant("BIG", "99999999999999999999999999")).is_err());
    assert_eq!(api.add_constant(constant("MAX", "18446744073709551615")).is_ok(), true);
    assert_eq!(api.type_size(&"MAX".to_string()), Some(usize::MAX));
}

#[test]
fn enum_inherits_underlying_size() {
    let mut api = Api::new();
    let e = Enum {
        name: "Mode".to_string(),
        ty_name: "u16".to_string(),
        entries: Vec::new(),
    };
    api.add_enum(e).unwrap();
    assert_eq!(api.type_size(&"Mode".to_string()), Some(2));
}

#[test]
fn enum_with_unknown_underlying_type_fails() {
    let mut api = Api::new();
    let e = Enum {
        name: "Mode".to_string(),
        ty_name: "u48".to_string(),
        entries: Vec::new(),
    };
    let err = api.add_enum(e).unwrap_err();
    assert!(matches!(err, ApiGenError::TypeNotFound(t) if t == "u48"));
}

#[test]
fn flag_inherits_underlying_size() {
    let mut api = Api::new();
    let f = Flag {
        name: "Caps".to_string(),
        ty_name: "u64".to_string(),
        entries: Vec::new(),
    };
    api.add_flag(f).unwrap();
    assert_eq!(api.type_size(&"Caps".to_string()), Some(8));
}

#[test]
fn object_is_keyed_by_its_native_name() {
    let mut api = Api::new();
    let o = Object {
        name: String::new(),
        ffi: "magma_device_t".to_string(),
        rust: "MagmaDevice".to_string(),
    };
    api.add_object(o);
    match api.definition_item(&"magma_device_t".to_string()) {
        Some(DefinitionItem::Object(o)) => {
            assert_eq!(o.name, "magma_device_t");
            assert_eq!(o.rust, "MagmaDevice");
        },
        _ => panic!("object should be keyed by its native-side name"),
    }
}

#[test]
fn protocol_composes_header_and_padding() {
    let mut api = Api::new();
    let protocol = Protocol {
        name: "foo".to_string(),
        protocol_struct_name: String::new(),
        requests: vec![Request {
            opcode: Opcode { name: "FOO_GO".to_string(), value: "1".to_string() },
            members: vec![member("u32", "x")],
        }],
        responses: Vec::new(),
    };
    api.add_protocol(protocol).unwrap();
    // The synthesized header type: 8 bytes under the PascalCase name.
    assert_eq!(api.type_size(&"FooCommandHdr".to_string()), Some(8));
    match api.definition_item(&"foo".to_string()) {
        Some(DefinitionItem::Protocol(p)) => {
            assert_eq!(p.protocol_struct_name, "FooCommandHdr");
            let members = &p.requests[0].members;
            // header(8) + member(4) = 12, padded by 4 to 16.
            assert_eq!(members.len(), 3);
            assert_eq!(members[0].name, "hdr");
            assert_eq!(members[0].ty_name, "FooCommandHdr");
            assert_eq!(members[1].name, "x");
            assert_eq!(members[2].name, "padding");
            assert_eq!(members[2].ty_name, "u32");
        },
        _ => panic!("foo should be registered as a protocol"),
    }
}

#[test]
fn empty_request_is_header_only() {
    let mut api = Api::new();
    let protocol = Protocol {
        name: "bar".to_string(),
        protocol_struct_name: String::new(),
        requests: vec![Request {
            opcode: Opcode { name: "BAR_NOP".to_string(), value: "0".to_string() },
            members: Vec::new(),
        }],
        responses: vec![Response {
            opcode: Opcode { name: "BAR_NOP".to_string(), value: "0".to_string() },
            members: Vec::new(),
        }],
    };
    api.add_protocol(protocol).unwrap();
    match api.definition_item(&"bar".to_string()) {
        Some(DefinitionItem::Protocol(p)) => {
            // Header only: size exactly 8, so no padding is appended.
            assert_eq!(p.requests[0].members.len(), 1);
            assert_eq!(p.requests[0].members[0].name, "hdr");
            assert_eq!(p.responses[0].members.len(), 1);
        },
        _ => panic!("bar should be registered as a protocol"),
    }
}

fn variant(name: &str, stype: &str, value: &str, members: Vec<Member>) -> ExtensibleStruct {
    ExtensibleStruct {
        stype: SType { name: stype.to_string(), value: value.to_string() },
        common: StructCommon { name: name.to_string(), members, array_info: Vec::new() },
        padding: None,
    }
}

#[test]
fn extensible_family_adds_wire_header_size() {
    let mut api = Api::new();
    let variants = vec![
        variant("DeviceInfo", "DEVICE_INFO", "1", vec![member("u32", "vendor_id")]),
        variant("HeapInfo", "HEAP_INFO", "2", vec![member("u64", "heap_size")]),
    ];
    api.add_extensible_structs("magma_stype".to_string(), variants).unwrap();
    // Variant total = own members + 8-byte wire header, padded on the total.
    assert_eq!(api.type_size(&"DeviceInfo".to_string()), Some(12));
    assert_eq!(api.type_size(&"HeapInfo".to_string()), Some(16));
    // The shared discriminator enum sized as a 4-byte unsigned.
    assert_eq!(api.type_size(&"magma_stype".to_string()), Some(4));
    match api.definition_item(&"DeviceInfo".to_string()) {
        Some(DefinitionItem::ExtensibleStruct(v)) => {
            let pad = v.padding.as_ref().expect("12 needs 4 bytes of padding");
            assert_eq!(pad.ty_name, "u32");
        },
        _ => panic!("DeviceInfo should be registered as an extensible struct"),
    }
    match api.definition_item(&"HeapInfo".to_string()) {
        Some(DefinitionItem::ExtensibleStruct(v)) => {
            assert!(v.padding.is_none());
        },
        _ => panic!("HeapInfo should be registered as an extensible struct"),
    }
}

#[test]
fn extensible_family_registers_both_header_shapes() {
    let mut api = Api::new();
    let variants = vec![variant("Blob", "BLOB", "7", vec![member("u32", "n")])];
    api.add_extensible_structs("magma_stype".to_string(), variants).unwrap();
    match api.definition_item(&"magma_stype".to_string()) {
        Some(DefinitionItem::ExtensibleStructs(fam)) => {
            assert_eq!(fam.protocol_struct.name, "MagmaStypeHdr");
            assert_eq!(fam.protocol_struct.members[0].name, "stype");
            assert_eq!(fam.protocol_struct.members[0].ty_name, "magma_stype");
            assert_eq!(fam.protocol_struct.members[1].name, "size");
            assert_eq!(fam.protocol_struct.members[1].ty_name, "u32");
            assert_eq!(fam.ffi_struct.name, "MagmaStypeFFI");
            assert_eq!(fam.ffi_struct.members[0].name, "stype");
            assert_eq!(fam.ffi_struct.members[1].name, "pNext");
            assert_eq!(fam.ffi_struct.members[1].ty_name, "*mut core::ffi::c_void");
            assert_eq!(fam.structs.len(), 1);
            // The family's tag enum entries carry the declared discriminators.
            assert_eq!(fam.stypes_name, "magma_stype");
        },
        _ => panic!("the family should overwrite the tag enum under its name"),
    }
}

#[test]
fn later_variant_can_reference_earlier_one() {
    let mut api = Api::new();
    let variants = vec![
        variant("First", "FIRST", "1", vec![member("u32", "a")]),
        variant("Second", "SECOND", "2", vec![member("First", "inner")]),
    ];
    api.add_extensible_structs("st".to_string(), variants).unwrap();
    // First totals 12; Second holds First (12) plus the 8-byte header.
    assert_eq!(api.type_size(&"Second".to_string()), Some(20));
}

#[test]
fn reregistration_overwrites_prior_entry() {
    let mut api = Api::new();
    api.add_constant(constant("THING", "4")).unwrap();
    assert_eq!(api.type_size(&"THING".to_string()), Some(4));
    api.add_struct(struct_def("THING", vec![member("u64", "x")])).unwrap();
    // The old size is no longer visible.
    assert_eq!(api.type_size(&"THING".to_string()), Some(8));
    assert!(matches!(
        api.definition_item(&"THING".to_string()),
        Some(DefinitionItem::Struct(_))
    ));
}

#[test]
fn sizes_resolve_against_registry_at_reference_time() {
    let mut api = Api::new();
    api.add_struct(struct_def("Inner", vec![member("u32", "a")])).unwrap();
    api.add_struct(struct_def("Outer", vec![member("Inner", "i"), member("u32", "b")])).unwrap();
    assert_eq!(api.type_size(&"Outer".to_string()), Some(8));
    // A forward reference is a hard failure, never deferred.
    let err = api.add_struct(struct_def("Bad", vec![member("Later", "x")])).unwrap_err();
    assert!(matches!(err, ApiGenError::TypeNotFound(t) if t == "Later"));
}

#[test]
fn empty_family_still_registers_enum_and_headers() {
    let mut api = Api::new();
    api.add_extensible_structs("bare".to_string(), Vec::new()).unwrap();
    assert_eq!(api.type_size(&"bare".to_string()), Some(4));
    match api.definition_item(&"bare".to_string()) {
        Some(DefinitionItem::ExtensibleStructs(fam)) => {
            assert_eq!(fam.structs.len(), 0);
            assert_eq!(fam.protocol_struct.name, "BareHdr");
            assert_eq!(fam.ffi_struct.name, "BareFFI");
        },
        _ => panic!("the empty family should still be registered"),
    }
}

#[test]
fn overwriting_a_primitive_changes_later_resolution() {
    let mut api = Api::new();
    // The shared namespace lets a later constant shadow a primitive; later
    // references resolve against the registry as it stands.
    api.add_constant(constant("u32", "2")).unwrap();
    let e = Enum {
        name: "Narrow".to_string(),
        ty_name: "u32".to_string(),
        entries: Vec::new(),
    };
    api.add_enum(e).unwrap();
    assert_eq!(api.type_size(&"Narrow".to_string()), Some(2));
}
