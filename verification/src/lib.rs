//! Lowers the declaration of a tagged union to a discriminant enumeration
//! and a structure that holds the discriminant and a union of the
//! variants' payload layouts.
use crate::emit::{
    emit, spec_emit, spec_preamble, spec_tag_enumeration, spec_tagged_struct, spec_tags,
    spec_union_members,
};
use crate::error::{ConvertError, ConvertErrorView};
use crate::lower::{
    lower_declaration, members_follow_slots, named_slots, positional_slots, spec_lower_variant,
    spec_lower_variants, spec_members, tags_follow_variants, variants_lower_one_by_one,
    LoweredView,
};
use crate::mapper::{spec_lookup, standard_entries, Entries, TypeTable};
use crate::model::{Declaration, DeclarationView, TypeRefView, VariantKindView, VariantView};
use crate::naming::{spec_member_name, spec_tag_identifier};
use crate::source::{parse_declaration, parsed, spec_parse_declaration, SourceItem};
use vstd::prelude::*;

verus! {

pub mod emit;
pub mod error;
pub mod format;
pub mod lower;
pub mod mapper;
pub mod model;
pub mod naming;
pub mod source;
pub mod text;

/// The output for a declaration under a mapping table, or the error of
/// the first field, in declaration order, whose type has no low-level
/// equivalent. There is no output in part.
pub open spec fn spec_convert(entries: Entries, decl: DeclarationView) -> Result<
    Seq<char>,
    ConvertErrorView,
> {
    match spec_lower_variants(entries, decl.name, decl.variants) {
        Ok(lowered) => Ok(spec_emit(decl.name, lowered)),
        Err(e) => Err(e),
    }
}

/// The result `r` is what `expected` says: the same text, or the same
/// error.
pub open spec fn agrees(r: Result<String, ConvertError>, expected: Result<
    Seq<char>,
    ConvertErrorView,
>) -> bool {
    match (r, expected) {
        (Ok(text), Ok(wanted)) => text@ == wanted,
        (Err(e), Err(wanted)) => e@ == wanted,
        _ => false,
    }
}

/// Converts a declaration under the given mapping table.
pub fn convert_with(table: &TypeTable, decl: &Declaration) -> (r: Result<String, ConvertError>)
    ensures
        agrees(r, spec_convert(table@, decl@)),
{
    match lower_declaration(table, decl) {
        Ok(lowered) => Ok(emit(decl.name.as_str(), &lowered)),
        Err(e) => Err(e),
    }
}

/// Converts a declaration under the supported mapping.
pub fn convert_declaration(decl: &Declaration) -> (r: Result<String, ConvertError>)
    ensures
        agrees(r, spec_convert(standard_entries(), decl@)),
{
    let table = TypeTable::standard();
    convert_with(&table, decl)
}

/// The output for a source text, given what the parser makes of it: the
/// conversion of its first eligible declaration under the supported
/// mapping, or the error of the parse or of the search.
pub open spec fn spec_convert_source(outcome: Result<Seq<SourceItem>, Seq<char>>) -> Result<
    Seq<char>,
    ConvertErrorView,
> {
    match spec_parse_declaration(outcome) {
        Ok(decl) => spec_convert(standard_entries(), decl),
        Err(e) => Err(e),
    }
}

/// Converts the first eligible declaration of a source text.
///
/// Fails with `ParseFailure`, carrying the parser's diagnostic, exactly
/// where the parser rejects the text, with `NoDeclarationFound` exactly
/// where the text parses and holds no eligible declaration, and
/// otherwise as the conversion of the first eligible declaration does.
pub fn convert(source: &str) -> (r: Result<String, ConvertError>)
    ensures
        agrees(r, spec_convert_source(parsed(source@))),
{
    match parse_declaration(source) {
        Ok(decl) => convert_declaration(&decl),
        Err(e) => Err(e),
    }
}

/// Two results that agree with the same expectation are equal: both the
/// same text, or both the same error.
pub open spec fn same_outcome(
    first: Result<String, ConvertError>,
    second: Result<String, ConvertError>,
) -> bool {
    match (first, second) {
        (Ok(a), Ok(b)) => a@ == b@,
        (Err(a), Err(b)) => a@ == b@,
        _ => false,
    }
}

/// Converting the same source text twice gives the same output, or the
/// same error with the same diagnostic, both times.
pub proof fn source_conversion_is_deterministic(
    source: Seq<char>,
    first: Result<String, ConvertError>,
    second: Result<String, ConvertError>,
)
    requires
        agrees(first, spec_convert_source(parsed(source))),
        agrees(second, spec_convert_source(parsed(source))),
    ensures
        same_outcome(first, second),
{
}

/// Converting the same declaration twice gives the same output, or the
/// same error, both times.
pub proof fn conversion_is_deterministic(
    entries: Entries,
    decl: DeclarationView,
    first: Result<String, ConvertError>,
    second: Result<String, ConvertError>,
)
    requires
        agrees(first, spec_convert(entries, decl)),
        agrees(second, spec_convert(entries, decl)),
    ensures
        same_outcome(first, second),
{
}

/// The discriminant tags of a declaration: one per variant, in
/// declaration order, each made of the upper-case names of the declaration
/// and of the variant.
pub open spec fn spec_declared_tags(decl: DeclarationView) -> Seq<Seq<char>> {
    Seq::new(
        decl.variants.len(),
        |i: int| spec_tag_identifier(decl.name, decl.variants[i].name),
    )
}

/// The names of the members of the union of a declaration: one per
/// variant, in declaration order, each the variant's name in lower case.
pub open spec fn spec_declared_members(decl: DeclarationView) -> Seq<Seq<char>> {
    Seq::new(decl.variants.len(), |i: int| spec_member_name(decl.variants[i].name))
}

/// Where a declaration converts, the discriminant enumeration of the
/// output lists exactly the tags of its variants, in declaration order,
/// and the union has one member per variant, named after it, in the same
/// order.
pub proof fn enumeration_lists_every_variant(entries: Entries, decl: DeclarationView)
    ensures
        spec_lower_variants(entries, decl.name, decl.variants) matches Ok(lowered) ==> {
            &&& spec_tags(lowered) == spec_declared_tags(decl)
            &&& lowered.len() == decl.variants.len()
            &&& forall|i: int|
                0 <= i < lowered.len() ==> (#[trigger] lowered[i]).member
                    == spec_declared_members(decl)[i]
            &&& spec_convert(entries, decl) == Ok::<Seq<char>, ConvertErrorView>(
                spec_preamble() + "\n\n        "@ + spec_tag_enumeration(
                    decl.name,
                    spec_declared_tags(decl),
                ) + "\n\n        "@ + spec_tagged_struct(decl.name, spec_union_members(lowered))
                    + "\n        "@,
            )
        },
{
    tags_follow_variants(entries, decl.name, decl.variants);
    if let Ok(lowered) = spec_lower_variants(entries, decl.name, decl.variants) {
        assert(spec_tags(lowered) =~= spec_declared_tags(decl));
    }
}

/// The declared type has a low-level equivalent in the table.
pub open spec fn type_maps(entries: Entries, ty: TypeRefView) -> bool {
    ty matches TypeRefView::Scalar(name) && spec_lookup(entries, name) is Some
}

/// Every field of the variant has a type with a low-level equivalent.
pub open spec fn variant_maps(entries: Entries, v: VariantView) -> bool {
    match v.kind {
        VariantKindView::Unit => true,
        VariantKindView::Positional(types) => forall|k: int|
            0 <= k < types.len() ==> type_maps(entries, #[trigger] types[k]),
        VariantKindView::Named(fields) => forall|k: int|
            0 <= k < fields.len() ==> type_maps(entries, (#[trigger] fields[k]).ty),
    }
}

/// A variant lowers exactly when the type of each of its fields has a
/// low-level equivalent, and fails with an error about a field's type
/// otherwise.
pub proof fn variant_lowers_iff_fields_map(entries: Entries, decl: Seq<char>, v: VariantView)
    ensures
        spec_lower_variant(entries, decl, v) is Ok <==> variant_maps(entries, v),
        spec_lower_variant(entries, decl, v) matches Err(e) ==> e is UnmappableType
            || e is UnsupportedType,
{
    match v.kind {
        VariantKindView::Unit => {},
        VariantKindView::Positional(types) => {
            let slots = positional_slots(types);
            members_follow_slots(entries, v.name, slots);
            if spec_members(entries, v.name, slots) is Ok {
                assert forall|k: int| 0 <= k < types.len() implies type_maps(
                    entries,
                    #[trigger] types[k],
                ) by {
                    assert(spec_members(entries, v.name, slots)->Ok_0[k].ident == slots[k].0);
                }
            }
        },
        VariantKindView::Named(fields) => {
            let slots = named_slots(fields);
            members_follow_slots(entries, v.name, slots);
            if spec_members(entries, v.name, slots) is Ok {
                assert forall|k: int| 0 <= k < fields.len() implies type_maps(
                    entries,
                    (#[trigger] fields[k]).ty,
                ) by {
                    assert(spec_members(entries, v.name, slots)->Ok_0[k].ident == slots[k].0);
                }
            }
        },
    }
}

/// A conversion gives output exactly when the type of every field of
/// every variant has a low-level equivalent. Otherwise it gives an error
/// about a field's type, and nothing else.
pub proof fn conversion_succeeds_iff_every_field_maps(entries: Entries, decl: DeclarationView)
    ensures
        spec_convert(entries, decl) is Ok <==> forall|i: int|
            0 <= i < decl.variants.len() ==> variant_maps(entries, #[trigger] decl.variants[i]),
        spec_convert(entries, decl) matches Err(e) ==> e is UnmappableType || e is UnsupportedType,
{
    variants_lower_one_by_one(entries, decl.name, decl.variants);
    assert forall|i: int| 0 <= i < decl.variants.len() implies (spec_lower_variant(
        entries,
        decl.name,
        #[trigger] decl.variants[i],
    ) is Ok <==> variant_maps(entries, decl.variants[i])) by {
        variant_lowers_iff_fields_map(entries, decl.name, decl.variants[i]);
    }
    match spec_lower_variants(entries, decl.name, decl.variants) {
        Ok(lowered) => {
            assert forall|i: int| 0 <= i < decl.variants.len() implies variant_maps(
                entries,
                #[trigger] decl.variants[i],
            ) by {
                assert(spec_lower_variant(entries, decl.name, decl.variants[i]) == Ok::<
                    LoweredView,
                    ConvertErrorView,
                >(lowered[i]));
            }
        },
        Err(e) => {
            let i = choose|i: int|
                {
                    &&& 0 <= i < decl.variants.len()
                    &&& #[trigger] spec_lower_variant(entries, decl.name, decl.variants[i])
                        == Err::<LoweredView, ConvertErrorView>(e)
                };
            variant_lowers_iff_fields_map(entries, decl.name, decl.variants[i]);
            assert(!variant_maps(entries, decl.variants[i]));
        },
    }
}

} // verus!
