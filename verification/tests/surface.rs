//! Checks of the supporting surface: name shaping, splitting, decimal
//! parsing, the shorthand tokenizer, the artifact kinds, the name map and
//! the registry's organizational state.

use apigen::{
    parse_array_shorthand, parse_usize, split, to_pascal_case, Api, Copyright, Definition,
    DefinitionItem, FileType, Function, GeneratedFile, Member, NameMap, StructCommon, StructDef,
};

#[test]
fn pascal_case_drops_underscores_and_capitalizes() {
    assert_eq!(to_pascal_case("magma_protocol"), "MagmaProtocol");
    assert_eq!(to_pascal_case("foo"), "Foo");
    assert_eq!(to_pascal_case("already_Pascal"), "AlreadyPascal");
    assert_eq!(to_pascal_case("_leading"), "Leading");
    assert_eq!(to_pascal_case("double__under"), "DoubleUnder");
    assert_eq!(to_pascal_case(""), "");
    assert_eq!(to_pascal_case("a_b_c"), "ABC");
}

#[test]
fn split_separates_on_every_occurrence() {
    assert_eq!(split("a,b,,c", ","), vec!["a", "b", "", "c"]);
    assert_eq!(split("nosep", ","), vec!["nosep"]);
    assert_eq!(split("", ","), vec![""]);
    assert_eq!(split("a::b::c", "::"), vec!["a", "b", "c"]);
    assert_eq!(split("ab", ""), vec!["", "a", "b", ""]);
}

#[test]
fn parse_usize_accepts_std_grammar() {
    assert_eq!(parse_usize("0"), Some(0));
    assert_eq!(parse_usize("42"), Some(42));
    assert_eq!(parse_usize("+42"), Some(42));
    assert_eq!(parse_usize("007"), Some(7));
    assert_eq!(parse_usize("18446744073709551615"), Some(usize::MAX));
}

#[test]
fn parse_usize_rejects_everything_else() {
    assert_eq!(parse_usize(""), None);
    assert_eq!(parse_usize("+"), None);
    assert_eq!(parse_usize("-1"), None);
    assert_eq!(parse_usize("4 2"), None);
    assert_eq!(parse_usize("0x10"), None);
    assert_eq!(parse_usize("18446744073709551616"), None);
}

#[test]
fn array_tokenizer_accepts_the_grammar() {
    let a = parse_array_shorthand("[u8; COUNT]").unwrap();
    assert_eq!(a.element_type, "u8");
    assert_eq!(a.count_reference, "COUNT");
    let b = parse_array_shorthand("[ *mut core::ffi::c_void ; MAX ]").unwrap();
    assert_eq!(b.element_type, "*mut core::ffi::c_void");
    assert_eq!(b.count_reference, "MAX");
    let c = parse_array_shorthand("[u8;N]").unwrap();
    assert_eq!(c.element_type, "u8");
    assert_eq!(c.count_reference, "N");
}

#[test]
fn array_tokenizer_rejects_malformed_shorthands() {
    assert!(parse_array_shorthand("u8").is_none());
    assert!(parse_array_shorthand("[u8]").is_none());
    assert!(parse_array_shorthand("[u8; N").is_none());
    assert!(parse_array_shorthand("[; N]").is_none());
    assert!(parse_array_shorthand("[u8; ]").is_none());
    assert!(parse_array_shorthand("[]").is_none());
    assert!(parse_array_shorthand("").is_none());
}

#[test]
fn file_type_maps_known_kinds() {
    assert!(matches!(FileType::from_str("protocol"), Some(FileType::Protocol)));
    assert!(matches!(FileType::from_str("header"), Some(FileType::Header)));
    assert!(matches!(FileType::from_str("ffi"), Some(FileType::Ffi)));
    assert!(matches!(FileType::from_str("Rust"), Some(FileType::Rust)));
    assert!(matches!(FileType::from_str("encoder"), Some(FileType::Encoder)));
    assert!(matches!(FileType::from_str("decoder"), Some(FileType::Decoder)));
    assert!(FileType::from_str("rust").is_none());
    assert!(FileType::from_str("").is_none());
}

#[test]
fn name_map_overwrites_in_place() {
    let mut m: NameMap<usize> = NameMap::new();
    assert_eq!(m.len(), 0);
    m.insert("a".to_string(), 1);
    m.insert("b".to_string(), 2);
    m.insert("a".to_string(), 3);
    assert_eq!(m.len(), 2);
    assert_eq!(m.get(&"a".to_string()), Some(&3));
    assert_eq!(m.get(&"b".to_string()), Some(&2));
    assert_eq!(m.get(&"c".to_string()), None);
    // Insertion order is kept; the overwrite stayed in place.
    assert_eq!(m.entries()[0].0, "a");
    assert_eq!(m.entries()[1].0, "b");
}

#[test]
fn metadata_round_trips() {
    let mut api = Api::new();
    assert_eq!(api.name(), "");
    assert_eq!(api.version(), 0);
    api.set_name("magma".to_string());
    api.set_version(3);
    api.set_copyright(Copyright {
        spdx: "MIT".to_string(),
        holder: "Example Maintainers".to_string(),
        year: 2025,
    });
    assert_eq!(api.name(), "magma");
    assert_eq!(api.version(), 3);
    assert_eq!(api.copyright().spdx, "MIT");
    assert_eq!(api.copyright().year, 2025);
}

#[test]
fn generated_files_accumulate_in_order() {
    let mut api = Api::new();
    api.add_generated_file(GeneratedFile {
        out_path: "out".to_string(),
        file_name: "a.h".to_string(),
        file_type: "header".to_string(),
        includes: vec!["b.h".to_string()],
        instantiations: vec!["core".to_string()],
    });
    api.add_generated_file(GeneratedFile {
        out_path: "out".to_string(),
        file_name: "b.rs".to_string(),
        file_type: "Rust".to_string(),
        includes: Vec::new(),
        instantiations: Vec::new(),
    });
    let files = api.generated_files();
    assert_eq!(files.len(), 2);
    assert_eq!(files[0].file_name, "a.h");
    assert_eq!(files[1].file_name, "b.rs");
}

#[test]
fn functions_are_items_without_sizes() {
    let mut api = Api::new();
    api.add_function(Function {
        name: "magma_query".to_string(),
        ret: "u64".to_string(),
        members: vec![Member {
            ty_name: "u32".to_string(),
            qualifier: String::new(),
            name: "id".to_string(),
        }],
    });
    assert!(matches!(
        api.definition_item(&"magma_query".to_string()),
        Some(DefinitionItem::Function(_))
    ));
    assert!(api.type_size(&"magma_query".to_string()).is_none());
}

#[test]
fn instantiations_resolve_in_declared_order() {
    let mut api = Api::new();
    api.add_struct(StructDef {
        common: StructCommon {
            name: "A".to_string(),
            members: vec![Member {
                ty_name: "u32".to_string(),
                qualifier: String::new(),
                name: "x".to_string(),
            }],
            array_info: Vec::new(),
        },
    }).unwrap();
    api.add_function(Function {
        name: "f".to_string(),
        ret: "u32".to_string(),
        members: Vec::new(),
    });
    api.add_definition(Definition {
        name: "core".to_string(),
        items: vec!["A".to_string(), "missing".to_string(), "f".to_string()],
    });
    let resolved = api.resolve_instantiations(&vec!["core".to_string(), "ghost".to_string()]);
    assert_eq!(resolved.len(), 2);
    assert!(matches!(resolved[0], DefinitionItem::Struct(_)));
    assert!(matches!(resolved[1], DefinitionItem::Function(_)));
}

#[test]
fn definitions_overwrite_under_one_name() {
    let mut api = Api::new();
    api.add_definition(Definition {
        name: "core".to_string(),
        items: vec!["a".to_string()],
    });
    api.add_definition(Definition {
        name: "core".to_string(),
        items: vec!["b".to_string(), "c".to_string()],
    });
    let def = api.definitions().get(&"core".to_string()).expect("core should be present");
    assert_eq!(def.items, vec!["b".to_string(), "c".to_string()]);
    assert_eq!(api.definitions().len(), 1);
}
