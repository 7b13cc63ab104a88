use tagmap::convert;
use tagmap::convert_declaration;
use tagmap::error::ConvertError;
use tagmap::lower::{handle_named, handle_unnamed, lower_declaration, lower_variant, Member};
use tagmap::mapper::TypeTable;
use tagmap::model::{Declaration, Field, TypeRef, Variant, VariantKind};

fn scalar(name: &str) -> TypeRef {
    TypeRef::Scalar(name.to_string())
}

fn unit(name: &str) -> Variant {
    Variant { name: name.to_string(), kind: VariantKind::Unit }
}

fn member(ty: &str, ident: &str) -> Member {
    Member { ty: ty.to_string(), ident: ident.to_string() }
}

fn simple() -> Declaration {
    Declaration { name: "Simple".to_string(), variants: vec![unit("A"), unit("B"), unit("C")] }
}

fn sum() -> Declaration {
    Declaration {
        name: "Sum".to_string(),
        variants: vec![
            Variant { name: "A".to_string(), kind: VariantKind::Positional(vec![scalar("String")]) },
            Variant { name: "B".to_string(), kind: VariantKind::Positional(vec![scalar("i32")]) },
        ],
    }
}

fn named() -> Declaration {
    Declaration {
        name: "Named".to_string(),
        variants: vec![
            Variant {
                name: "A".to_string(),
                kind: VariantKind::Named(vec![
                    Field { name: "x".to_string(), ty: scalar("String") },
                    Field { name: "y".to_string(), ty: scalar("i32") },
                ]),
            },
            unit("B"),
        ],
    }
}

#[test]
fn three_unit_variants_lower_to_placeholders() {
    let table = TypeTable::standard();
    let lowered = lower_declaration(&table, &simple()).unwrap();
    let tags: Vec<&str> = lowered.iter().map(|l| l.tag.as_str()).collect();
    assert_eq!(tags, vec!["SIMPLE_A", "SIMPLE_B", "SIMPLE_C"]);
    let members: Vec<&str> = lowered.iter().map(|l| l.member.as_str()).collect();
    assert_eq!(members, vec!["a", "b", "c"]);
    for l in &lowered {
        assert_eq!(l.payload, "empty");
    }
}

#[test]
fn three_unit_variants_emit_exact_text() {
    let expected = "#include <stdint.h>\n        #include <stdbool.h>\n        typedef uint8_t empty;\n\n        enum SimpleTag { SIMPLE_A, SIMPLE_B, SIMPLE_C };\n\n        struct Simple {\n            enum SimpleTag variant;\n            union { empty a;\nempty b;\nempty c;\n            };\n        };\n        ";
    assert_eq!(convert_declaration(&simple()).unwrap(), expected);
    assert_eq!(convert("enum Simple { A, B, C }").unwrap(), expected);
}

#[test]
fn positional_variants_lower_to_numbered_members() {
    let table = TypeTable::standard();
    let a = handle_unnamed(&table, &vec![scalar("String")], "A").unwrap();
    assert_eq!(a, vec![member("char*", "t_0")]);
    let b = handle_unnamed(&table, &vec![scalar("i32")], "B").unwrap();
    assert_eq!(b, vec![member("int32_t", "t_0")]);
    let lowered = lower_declaration(&table, &sum()).unwrap();
    assert_eq!(lowered.len(), 2);
    assert_eq!(lowered[0].tag, "SUM_A");
    assert_eq!(lowered[0].member, "a");
    assert_eq!(lowered[0].payload, "\n        struct {\n            char* t_0;\n        }");
    assert_eq!(lowered[1].tag, "SUM_B");
    assert_eq!(lowered[1].member, "b");
    assert_eq!(lowered[1].payload, "\n        struct {\n            int32_t t_0;\n        }");
}

#[test]
fn positional_variants_emit_exact_text() {
    let expected = "#include <stdint.h>\n        #include <stdbool.h>\n        typedef uint8_t empty;\n\n        enum SumTag { SUM_A, SUM_B };\n\n        struct Sum {\n            enum SumTag variant;\n            union { \n        struct {\n            char* t_0;\n        } a;\n\n        struct {\n            int32_t t_0;\n        } b;\n            };\n        };\n        ";
    assert_eq!(convert_declaration(&sum()).unwrap(), expected);
    assert_eq!(convert("enum Sum { A(String), B(i32) }").unwrap(), expected);
}

#[test]
fn named_variant_keeps_field_identifiers() {
    let table = TypeTable::standard();
    let fields = vec![
        Field { name: "x".to_string(), ty: scalar("String") },
        Field { name: "y".to_string(), ty: scalar("i32") },
    ];
    let a = handle_named(&table, &fields, "A").unwrap();
    assert_eq!(a, vec![member("char*", "x"), member("int32_t", "y")]);
    let lowered = lower_declaration(&table, &named()).unwrap();
    assert_eq!(lowered.len(), 2);
    assert_eq!(lowered[0].tag, "NAMED_A");
    assert_eq!(lowered[0].member, "a");
    assert_eq!(
        lowered[0].payload,
        "\n        struct {\n            char* x;\nint32_t y;\n        }"
    );
    assert_eq!(lowered[1].tag, "NAMED_B");
    assert_eq!(lowered[1].payload, "empty");
    assert_eq!(lowered[1].member, "b");
}

#[test]
fn named_variant_emits_exact_text() {
    let expected = "#include <stdint.h>\n        #include <stdbool.h>\n        typedef uint8_t empty;\n\n        enum NamedTag { NAMED_A, NAMED_B };\n\n        struct Named {\n            enum NamedTag variant;\n            union { \n        struct {\n            char* x;\nint32_t y;\n        } a;\nempty b;\n            };\n        };\n        ";
    assert_eq!(convert_declaration(&named()).unwrap(), expected);
    assert_eq!(convert("enum Named { A { x: String, y: i32 }, B }").unwrap(), expected);
}

#[test]
fn many_positional_fields_are_numbered_in_decimal() {
    let table = TypeTable::standard();
    let fields: Vec<TypeRef> = (0..12).map(|_| scalar("u8")).collect();
    let members = handle_unnamed(&table, &fields, "Wide").unwrap();
    assert_eq!(members.len(), 12);
    for (i, m) in members.iter().enumerate() {
        assert_eq!(m.ident, format!("t_{}", i));
        assert_eq!(m.ty, "uint8_t");
    }
}

#[test]
fn unit_variant_lowers_under_any_declaration_name() {
    let table = TypeTable::standard();
    let lowered = lower_variant(&table, "myEnum", &unit("SomeCase")).unwrap();
    assert_eq!(lowered.tag, "MYENUM_SOMECASE");
    assert_eq!(lowered.payload, "empty");
    assert_eq!(lowered.member, "somecase");
}

#[test]
fn nested_type_is_unmappable_and_gives_no_output() {
    let decl = Declaration {
        name: "Outer".to_string(),
        variants: vec![
            unit("Fine"),
            Variant {
                name: "Bad".to_string(),
                kind: VariantKind::Positional(vec![scalar("i32"), scalar("Inner")]),
            },
        ],
    };
    let expected = ConvertError::UnmappableType {
        variant: "Bad".to_string(),
        field: "t_1".to_string(),
        source_type: "Inner".to_string(),
    };
    assert_eq!(convert_declaration(&decl), Err(expected.clone()));
    assert_eq!(convert("enum Outer { Fine, Bad(i32, Inner) }"), Err(expected));
}

#[test]
fn generic_type_is_unmappable() {
    let expected = ConvertError::UnmappableType {
        variant: "Many".to_string(),
        field: "items".to_string(),
        source_type: "Vec".to_string(),
    };
    assert_eq!(convert("enum Bag { Many { items: Vec<i32> } }"), Err(expected.clone()));
    let decl = Declaration {
        name: "Bag".to_string(),
        variants: vec![Variant {
            name: "Many".to_string(),
            kind: VariantKind::Named(vec![Field {
                name: "items".to_string(),
                ty: TypeRef::Compound("Vec".to_string()),
            }]),
        }],
    };
    assert_eq!(convert_declaration(&decl), Err(expected));
}

#[test]
fn generic_instance_of_a_mapped_name_is_still_unmappable() {
    let expected = ConvertError::UnmappableType {
        variant: "A".to_string(),
        field: "t_0".to_string(),
        source_type: "i32".to_string(),
    };
    assert_eq!(convert("enum E { A(i32<u8>) }"), Err(expected));
}

#[test]
fn reference_and_tuple_types_are_unsupported() {
    let expected = ConvertError::UnsupportedType {
        variant: "A".to_string(),
        field: "t_0".to_string(),
    };
    assert_eq!(convert("enum E { A(&'static str) }"), Err(expected.clone()));
    assert_eq!(convert("enum E { A((i32, i32)) }"), Err(expected.clone()));
    assert_eq!(convert("enum E { A([u8; 4]) }"), Err(expected.clone()));
    let decl = Declaration {
        name: "E".to_string(),
        variants: vec![Variant {
            name: "A".to_string(),
            kind: VariantKind::Positional(vec![TypeRef::Structured]),
        }],
    };
    assert_eq!(convert_declaration(&decl), Err(expected));
}

#[test]
fn first_failing_field_decides_the_error() {
    let decl = Declaration {
        name: "E".to_string(),
        variants: vec![
            Variant {
                name: "A".to_string(),
                kind: VariantKind::Named(vec![
                    Field { name: "ok".to_string(), ty: scalar("bool") },
                    Field { name: "first".to_string(), ty: TypeRef::Structured },
                    Field { name: "second".to_string(), ty: scalar("Nope") },
                ]),
            },
            Variant { name: "B".to_string(), kind: VariantKind::Positional(vec![scalar("Nope")]) },
        ],
    };
    assert_eq!(
        convert_declaration(&decl),
        Err(ConvertError::UnsupportedType { variant: "A".to_string(), field: "first".to_string() })
    );
}

#[test]
fn wide_integers_are_rejected() {
    for name in ["i128", "u128"] {
        let decl = Declaration {
            name: "E".to_string(),
            variants: vec![Variant {
                name: "A".to_string(),
                kind: VariantKind::Positional(vec![scalar(name)]),
            }],
        };
        assert_eq!(
            convert_declaration(&decl),
            Err(ConvertError::UnmappableType {
                variant: "A".to_string(),
                field: "t_0".to_string(),
                source_type: name.to_string(),
            })
        );
    }
}

#[test]
fn converting_twice_gives_identical_output() {
    let first = convert_declaration(&named()).unwrap();
    let second = convert_declaration(&named()).unwrap();
    assert_eq!(first.as_bytes(), second.as_bytes());
    let source = "enum Named { A { x: String, y: i32 }, B }";
    assert_eq!(convert(source).unwrap().as_bytes(), convert(source).unwrap().as_bytes());
}

#[test]
fn empty_declaration_emits_an_empty_enumeration() {
    let decl = Declaration { name: "Void".to_string(), variants: vec![] };
    let expected = "#include <stdint.h>\n        #include <stdbool.h>\n        typedef uint8_t empty;\n\n        enum VoidTag {  };\n\n        struct Void {\n            enum VoidTag variant;\n            union { \n            };\n        };\n        ";
    assert_eq!(convert_declaration(&decl).unwrap(), expected);
    assert_eq!(convert("enum Void {}").unwrap(), expected);
}
