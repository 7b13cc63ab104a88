use tagmap::convert;
use tagmap::error::ConvertError;
use tagmap::model::{Declaration, Field, TypeRef, Variant, VariantKind};
use tagmap::source::{declaration_of, first_declaration, parse_declaration};

fn scalar(name: &str) -> TypeRef {
    TypeRef::Scalar(name.to_string())
}

#[test]
fn declaration_is_read_with_names_shapes_and_types() {
    let decl = parse_declaration(
        "pub enum Shape { Dot, Circle(f64), Rect { w: u32, h: u32 }, Tagged(String, bool, usize) }",
    )
    .unwrap();
    let expected = Declaration {
        name: "Shape".to_string(),
        variants: vec![
            Variant { name: "Dot".to_string(), kind: VariantKind::Unit },
            Variant { name: "Circle".to_string(), kind: VariantKind::Positional(vec![scalar("f64")]) },
            Variant {
                name: "Rect".to_string(),
                kind: VariantKind::Named(vec![
                    Field { name: "w".to_string(), ty: scalar("u32") },
                    Field { name: "h".to_string(), ty: scalar("u32") },
                ]),
            },
            Variant {
                name: "Tagged".to_string(),
                kind: VariantKind::Positional(vec![scalar("String"), scalar("bool"), scalar("usize")]),
            },
        ],
    };
    assert_eq!(decl, expected);
}

#[test]
fn only_the_first_declaration_is_read() {
    let source = "use std::fmt;\nstruct S { a: i32 }\nfn f() {}\nenum First { A }\nenum Second { B(i32) }\n";
    let decl = parse_declaration(source).unwrap();
    assert_eq!(decl.name, "First");
    assert_eq!(decl.variants, vec![Variant { name: "A".to_string(), kind: VariantKind::Unit }]);
    let file = syn::parse_file(source).unwrap();
    assert_eq!(first_declaration(&file), Some(decl));
}

#[test]
fn input_without_declaration_is_reported() {
    assert_eq!(parse_declaration(""), Err(ConvertError::NoDeclarationFound));
    assert_eq!(parse_declaration("struct S; fn main() {}"), Err(ConvertError::NoDeclarationFound));
    assert_eq!(convert("struct S { x: i32 }"), Err(ConvertError::NoDeclarationFound));
    assert_eq!(convert("mod m { enum Inner { A } }"), Err(ConvertError::NoDeclarationFound));
}

#[test]
fn rejected_input_is_a_parse_failure() {
    for source in ["enum {", "enum E { A(, }", "this is not rust", "enum E { A B }"] {
        assert!(matches!(parse_declaration(source), Err(ConvertError::ParseFailure { .. })));
        assert!(matches!(convert(source), Err(ConvertError::ParseFailure { .. })));
    }
    match convert("enum E {") {
        Err(ConvertError::ParseFailure { message }) => assert!(!message.is_empty()),
        other => panic!("unexpected {:?}", other),
    }
}

#[test]
fn parse_failure_carries_the_parsers_diagnostic() {
    for source in ["enum {", "enum E { A(, }", "this is not rust", "enum E { A B }", "fn f( {", "\"open"] {
        let diagnostic = match syn::parse_file(source) {
            Err(error) => error.to_string(),
            Ok(_) => panic!("the text parses"),
        };
        assert!(!diagnostic.is_empty());
        assert_eq!(
            parse_declaration(source),
            Err(ConvertError::ParseFailure { message: diagnostic.clone() })
        );
        assert_eq!(convert(source), Err(ConvertError::ParseFailure { message: diagnostic }));
    }
}

#[test]
fn path_of_several_segments_is_no_plain_name() {
    for (written, name) in [
        ("Str::ing", "Str::ing"),
        ("u::size", "u::size"),
        ("i::nt", "i::nt"),
        ("b::o::o::l", "b::o::o::l"),
        ("std::string::String", "std::string::String"),
        ("::String", "::String"),
        ("::i32", "::i32"),
        ("self::i32", "self::i32"),
        ("Vec::<u8>", "Vec"),
        ("::std::vec::Vec<u8>", "::std::vec::Vec"),
    ] {
        let source = format!("enum E {{ A({}) }}", written);
        let decl = parse_declaration(&source).unwrap();
        assert_eq!(
            decl.variants[0].kind,
            VariantKind::Positional(vec![TypeRef::Compound(name.to_string())])
        );
        assert_eq!(
            convert(&source),
            Err(ConvertError::UnmappableType {
                variant: "A".to_string(),
                field: "t_0".to_string(),
                source_type: name.to_string(),
            })
        );
    }
}

#[test]
fn written_types_are_classified() {
    let decl = parse_declaration(
        "enum E { A(i32, Vec<u8>, &'static str, std::string::String, (u8, u8), Option<Box<i32>>, ::core::primitive::bool, fn(i32) -> i32, <T as Tr>::Out, [u8; 2], u::size) }",
    )
    .unwrap();
    let expected = vec![
        scalar("i32"),
        TypeRef::Compound("Vec".to_string()),
        TypeRef::Structured,
        TypeRef::Compound("std::string::String".to_string()),
        TypeRef::Structured,
        TypeRef::Compound("Option".to_string()),
        TypeRef::Compound("::core::primitive::bool".to_string()),
        TypeRef::Structured,
        TypeRef::Structured,
        TypeRef::Structured,
        TypeRef::Compound("u::size".to_string()),
    ];
    assert_eq!(decl.variants[0].kind, VariantKind::Positional(expected));
}

#[test]
fn enum_item_converts_to_the_same_declaration() {
    let file = syn::parse_file("enum Pair { Both(u8, i8), Neither }").unwrap();
    let item = match &file.items[0] {
        syn::Item::Enum(item) => item,
        _ => panic!("not an enum"),
    };
    let decl = declaration_of(item).unwrap();
    assert_eq!(decl.name, "Pair");
    assert_eq!(decl.variants.len(), 2);
    assert_eq!(decl.variants[0].name, "Both");
    assert_eq!(decl.variants[0].kind, VariantKind::Positional(vec![scalar("u8"), scalar("i8")]));
    assert_eq!(decl.variants[1].name, "Neither");
    assert_eq!(decl.variants[1].kind, VariantKind::Unit);
}

#[test]
fn attributes_generics_and_discriminants_are_passed_over() {
    let decl = parse_declaration(
        "#[derive(Debug)]\npub(crate) enum Opt<T> where T: Copy { #[allow(unused)] Some(T) = 1, None = 2 }",
    )
    .unwrap();
    assert_eq!(decl.name, "Opt");
    assert_eq!(decl.variants[0].kind, VariantKind::Positional(vec![scalar("T")]));
    assert_eq!(decl.variants[1].kind, VariantKind::Unit);
}

#[test]
fn empty_field_lists_keep_their_shape() {
    let decl = parse_declaration("enum E { A(), B {}, C }").unwrap();
    assert_eq!(decl.variants[0].kind, VariantKind::Positional(vec![]));
    assert_eq!(decl.variants[1].kind, VariantKind::Named(vec![]));
    assert_eq!(decl.variants[2].kind, VariantKind::Unit);
}

#[test]
fn byte_order_mark_and_shebang_are_accepted() {
    let decl = parse_declaration("\u{feff}#!/usr/bin/env run\nenum E { A }").unwrap();
    assert_eq!(decl.name, "E");
}
