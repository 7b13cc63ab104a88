use tagmap::error::ConvertError;
use tagmap::model::{Declaration, Field, TypeRef, Variant, VariantKind};

#[test]
fn messages_name_the_stage_and_the_identifier() {
    assert_eq!(
        ConvertError::NoDeclarationFound.message(),
        "no tagged-union declaration found in the input"
    );
    assert_eq!(
        ConvertError::ParseFailure { message: "expected `,`".to_string() }.message(),
        "the input does not parse: expected `,`"
    );
    assert_eq!(
        ConvertError::UnmappableType {
            variant: "Bad".to_string(),
            field: "t_1".to_string(),
            source_type: "Inner".to_string(),
        }
        .message(),
        "Rust type 'Inner' cannot be mapped to a C type (field t_1 of variant Bad)"
    );
    assert_eq!(
        ConvertError::UnsupportedType { variant: "Bad".to_string(), field: "x".to_string() }
            .message(),
        "the type of field x of variant Bad is not a named type"
    );
}

fn variant(name: &str, kind: VariantKind) -> Variant {
    Variant { name: name.to_string(), kind }
}

#[test]
fn well_formed_declarations_are_recognised() {
    let good = Declaration {
        name: "E".to_string(),
        variants: vec![
            variant("A", VariantKind::Unit),
            variant("B", VariantKind::Positional(vec![TypeRef::Scalar("i32".to_string())])),
            variant(
                "C",
                VariantKind::Named(vec![Field { name: "x".to_string(), ty: TypeRef::Structured }]),
            ),
        ],
    };
    assert!(good.is_well_formed());
    assert!(VariantKind::Unit.is_well_formed());
}

#[test]
fn malformed_declarations_are_recognised() {
    let empty = Declaration { name: "E".to_string(), variants: vec![] };
    assert!(!empty.is_well_formed());
    let twice = Declaration {
        name: "E".to_string(),
        variants: vec![
            variant("A", VariantKind::Unit),
            variant("B", VariantKind::Unit),
            variant("A", VariantKind::Unit),
        ],
    };
    assert!(!twice.is_well_formed());
    let no_fields = Declaration {
        name: "E".to_string(),
        variants: vec![variant("A", VariantKind::Unit), variant("B", VariantKind::Positional(vec![]))],
    };
    assert!(!no_fields.is_well_formed());
    assert!(!VariantKind::Named(vec![]).is_well_formed());
    let case_differs = Declaration {
        name: "E".to_string(),
        variants: vec![variant("Ab", VariantKind::Unit), variant("aB", VariantKind::Unit)],
    };
    assert!(case_differs.is_well_formed());
}
