//! Reading a declaration out of source text. The text is parsed by `syn`;
//! what this module reads of the syntax tree is modelled by plain values,
//! and the declaration is built from that model by verified code.
use crate::error::{ConvertError, ConvertErrorView};
use crate::mapper::{only_plain_names_of_the_table_map, spec_get_type, spec_lookup, Entries};
use crate::model::{
    field_views, type_views, variant_views, Declaration, DeclarationView, Field, FieldView,
    TypeRef, TypeRefView, Variant, VariantKind, VariantKindView, VariantView,
};
use crate::text::{join, join_text, views};
use vstd::prelude::*;
use vstd::string::StringExecFns;

verus! {

/// A parsed source file.
#[verifier::external_type_specification]
#[verifier::external_body]
pub struct ExFile(syn::File);

/// The parser's diagnostic.
#[verifier::external_type_specification]
#[verifier::external_body]
pub struct ExError(syn::Error);

/// A parsed `enum` item.
#[verifier::external_type_specification]
#[verifier::external_body]
pub struct ExItemEnum(syn::ItemEnum);

/// A parsed path, such as the one that names a field's type.
#[verifier::external_type_specification]
#[verifier::external_body]
pub struct ExPath(syn::Path);

/// How the fields of a variant are written.
#[derive(Clone, Copy, Debug, PartialEq, Eq)]
pub enum Shape {
    /// No fields: `A`.
    Unit,
    /// Fields in parentheses: `A(T, U)`.
    Unnamed,
    /// Fields in braces: `A { x: T }`.
    Named,
}

/// One segment of a path: its identifier, and whether it is plain, that
/// is without generic arguments.
pub struct SourceSegment {
    pub ident: Seq<char>,
    pub plain: bool,
}

/// A path as written: whether it starts with `::`, and its segments in
/// order.
pub struct SourcePath {
    pub global: bool,
    pub segments: Seq<SourceSegment>,
}

/// The type of a field as written.
pub enum SourceType {
    /// A path without a qualifying self type.
    Path(SourcePath),
    /// Any other type.
    Other,
}

/// A field as written.
pub struct SourceField {
    pub ident: Option<Seq<char>>,
    pub ty: SourceType,
}

/// A variant as written.
pub struct SourceVariant {
    pub name: Seq<char>,
    pub shape: Shape,
    pub fields: Seq<SourceField>,
}

/// An `enum` item as written.
pub struct SourceEnum {
    pub name: Seq<char>,
    pub variants: Seq<SourceVariant>,
}

/// A top-level item as written.
pub enum SourceItem {
    Enum(SourceEnum),
    Other,
}

/// What `syn::parse_file` makes of a text: the items of the file, or,
/// where it rejects the text, its diagnostic.
pub uninterp spec fn parsed(content: Seq<char>) -> Result<Seq<SourceItem>, Seq<char>>;

/// The diagnostic of a parse error, as `syn::Error` displays it.
pub uninterp spec fn error_diagnostic(error: syn::Error) -> Seq<char>;

/// The top-level items of a parsed file, in file order.
pub uninterp spec fn file_items(file: syn::File) -> Seq<SourceItem>;

/// What an `enum` item holds: its name and its variants, in order.
pub uninterp spec fn enum_syntax(item: syn::ItemEnum) -> SourceEnum;

/// What a path holds: its leading `::`, if any, and its segments.
pub uninterp spec fn path_syntax(path: syn::Path) -> SourcePath;

/// Parses a whole source file.
///
/// Trusted: `syn::parse_file` is a function of the text alone, so what
/// it returns is named by `parsed`: the items of the file on success,
/// the diagnostic of the error on failure. The parser recurses as deep as
/// the text nests; that the stack suffices is taken for granted, as
/// memory is.
pub assume_specification[ syn::parse_file ](content: &str) -> (r: Result<syn::File, syn::Error>)
    ensures
        match r {
            Ok(file) => parsed(content@) == Ok::<Seq<SourceItem>, Seq<char>>(file_items(file)),
            Err(error) => parsed(content@) == Err::<Seq<SourceItem>, Seq<char>>(
                error_diagnostic(error),
            ),
        },
;

/// Trusted: the diagnostic of a parse error as text, which is what
/// `syn::Error`'s `to_string` writes.
#[verifier::external_body]
fn error_text(error: &syn::Error) -> (r: String)
    ensures
        r@ == error_diagnostic(*error),
{
    error.to_string()
}

/// Trusted: the length of `syn::File::items`.
#[verifier::external_body]
fn item_count(file: &syn::File) -> (r: usize)
    ensures
        r == file_items(*file).len(),
{
    file.items.len()
}

/// Trusted: item `i` of `syn::File::items`, where it is `syn::Item::Enum`.
#[verifier::external_body]
fn item_enum(file: &syn::File, i: usize) -> (r: Option<&syn::ItemEnum>)
    requires
        i < file_items(*file).len(),
    ensures
        match r {
            Some(item) => file_items(*file)[i as int] == SourceItem::Enum(enum_syntax(*item)),
            None => file_items(*file)[i as int] is Other,
        },
{
    match &file.items[i] {
        syn::Item::Enum(item) => Some(item),
        _ => None,
    }
}

/// Trusted: the text of `syn::ItemEnum::ident`.
#[verifier::external_body]
fn enum_name(item: &syn::ItemEnum) -> (r: String)
    ensures
        r@ == enum_syntax(*item).name,
{
    item.ident.to_string()
}

/// Trusted: the length of `syn::ItemEnum::variants`.
#[verifier::external_body]
fn variant_count(item: &syn::ItemEnum) -> (r: usize)
    ensures
        r == enum_syntax(*item).variants.len(),
{
    item.variants.len()
}

/// Trusted: the text of `syn::Variant::ident` of variant `j`.
#[verifier::external_body]
fn variant_name(item: &syn::ItemEnum, j: usize) -> (r: String)
    requires
        j < enum_syntax(*item).variants.len(),
    ensures
        r@ == enum_syntax(*item).variants[j as int].name,
{
    item.variants[j].ident.to_string()
}

/// Trusted: which variant of `syn::Fields` the fields of variant `j` are.
#[verifier::external_body]
fn variant_shape(item: &syn::ItemEnum, j: usize) -> (r: Shape)
    requires
        j < enum_syntax(*item).variants.len(),
    ensures
        r == enum_syntax(*item).variants[j as int].shape,
{
    match &item.variants[j].fields {
        syn::Fields::Unit => Shape::Unit,
        syn::Fields::Unnamed(_) => Shape::Unnamed,
        syn::Fields::Named(_) => Shape::Named,
    }
}

/// Trusted: `syn::Fields::len` of variant `j`.
#[verifier::external_body]
fn field_count(item: &syn::ItemEnum, j: usize) -> (r: usize)
    requires
        j < enum_syntax(*item).variants.len(),
    ensures
        r == enum_syntax(*item).variants[j as int].fields.len(),
{
    item.variants[j].fields.len()
}

/// Trusted: the text of `syn::Field::ident` of field `k` of variant `j`,
/// where the field has an identifier.
#[verifier::external_body]
fn field_ident(item: &syn::ItemEnum, j: usize, k: usize) -> (r: Option<String>)
    requires
        j < enum_syntax(*item).variants.len(),
        k < enum_syntax(*item).variants[j as int].fields.len(),
    ensures
        match r {
            Some(ident) => enum_syntax(*item).variants[j as int].fields[k as int].ident == Some(
                ident@,
            ),
            None => enum_syntax(*item).variants[j as int].fields[k as int].ident is None,
        },
{
    match &item.variants[j].fields.iter().nth(k).unwrap().ident {
        Some(ident) => Some(ident.to_string()),
        None => None,
    }
}

/// Trusted: the path of `syn::Field::ty` of field `k` of variant `j`,
/// where the type is a `syn::Type::Path` without a qualifying self type.
#[verifier::external_body]
fn field_path(item: &syn::ItemEnum, j: usize, k: usize) -> (r: Option<&syn::Path>)
    requires
        j < enum_syntax(*item).variants.len(),
        k < enum_syntax(*item).variants[j as int].fields.len(),
    ensures
        match r {
            Some(path) => enum_syntax(*item).variants[j as int].fields[k as int].ty
                == SourceType::Path(path_syntax(*path)),
            None => enum_syntax(*item).variants[j as int].fields[k as int].ty is Other,
        },
{
    match &item.variants[j].fields.iter().nth(k).unwrap().ty {
        syn::Type::Path(syn::TypePath { qself: None, path }) => Some(path),
        _ => None,
    }
}

/// Trusted: whether `syn::Path::leading_colon` is there.
#[verifier::external_body]
fn path_is_global(path: &syn::Path) -> (r: bool)
    ensures
        r == path_syntax(*path).global,
{
    path.leading_colon.is_some()
}

/// Trusted: the length of `syn::Path::segments`.
#[verifier::external_body]
fn segment_count(path: &syn::Path) -> (r: usize)
    ensures
        r == path_syntax(*path).segments.len(),
{
    path.segments.len()
}

/// Trusted: the text of `syn::PathSegment::ident` of segment `m`.
#[verifier::external_body]
fn segment_ident(path: &syn::Path, m: usize) -> (r: String)
    requires
        m < path_syntax(*path).segments.len(),
    ensures
        r@ == path_syntax(*path).segments[m as int].ident,
{
    path.segments[m].ident.to_string()
}

/// Trusted: `syn::PathArguments::is_none` of segment `m`.
#[verifier::external_body]
fn segment_is_plain(path: &syn::Path, m: usize) -> (r: bool)
    requires
        m < path_syntax(*path).segments.len(),
    ensures
        r == path_syntax(*path).segments[m as int].plain,
{
    path.segments[m].arguments.is_none()
}

/// The identifiers of the segments, in order.
pub open spec fn spec_segment_idents(segments: Seq<SourceSegment>) -> Seq<Seq<char>> {
    Seq::new(segments.len(), |m: int| segments[m].ident)
}

/// The path is a single plain segment, with no `::` before it.
pub open spec fn is_plain_name(path: SourcePath) -> bool {
    !path.global && path.segments.len() == 1 && path.segments[0].plain
}

/// A path as text, without its generic arguments: the identifiers of the
/// segments joined by `::`, after the leading `::` where there is one.
pub open spec fn spec_path_text(path: SourcePath) -> Seq<char> {
    if path.global {
        "::"@ + join(spec_segment_idents(path.segments), "::"@)
    } else {
        join(spec_segment_idents(path.segments), "::"@)
    }
}

/// The declared type that a written type stands for. A path that is a
/// single plain segment is a plain name: the identifier of that segment.
/// Every other path is a compound type, named by its text. Everything
/// else is structured.
pub open spec fn spec_type_ref(ty: SourceType) -> TypeRefView {
    match ty {
        SourceType::Path(path) => if is_plain_name(path) {
            TypeRefView::Scalar(path.segments[0].ident)
        } else {
            TypeRefView::Compound(spec_path_text(path))
        },
        SourceType::Other => TypeRefView::Structured,
    }
}

/// A written type is a plain name exactly where it is a path of one
/// segment, without a leading `::` and without generic arguments, and
/// the name is then the identifier of that segment. No path of several
/// segments is a plain name, whatever its identifiers.
pub proof fn only_single_segments_are_plain_names(ty: SourceType)
    ensures
        spec_type_ref(ty) is Scalar <==> ty is Path && !ty->Path_0.global
            && ty->Path_0.segments.len() == 1 && ty->Path_0.segments[0].plain,
        spec_type_ref(ty) matches TypeRefView::Scalar(name) ==> name
            == ty->Path_0.segments[0].ident,
        ty matches SourceType::Path(path) && path.segments.len() != 1 ==> spec_type_ref(ty)
            is Compound,
{
}

/// A written type has a low-level type exactly where it is a path of one
/// segment, without a leading `::` and without generic arguments, whose
/// identifier the table holds. A path of several segments has none,
/// whatever the table and whatever its identifiers spell when put
/// together: it fails as unmappable, under its text.
pub proof fn written_type_maps_iff_single_key(
    entries: Entries,
    ty: SourceType,
    variant: Seq<char>,
    field: Seq<char>,
)
    ensures
        spec_get_type(entries, spec_type_ref(ty), variant, field) is Ok <==> ty is Path
            && is_plain_name(ty->Path_0) && spec_lookup(
            entries,
            ty->Path_0.segments[0].ident,
        ) is Some,
        ty matches SourceType::Path(path) ==> !is_plain_name(path) ==> spec_get_type(
            entries,
            spec_type_ref(ty),
            variant,
            field,
        ) == Err::<Seq<char>, ConvertErrorView>(
            ConvertErrorView::UnmappableType {
                variant,
                field,
                source_type: spec_path_text(path),
            },
        ),
        ty is Other ==> spec_get_type(entries, spec_type_ref(ty), variant, field) == Err::<
            Seq<char>,
            ConvertErrorView,
        >(ConvertErrorView::UnsupportedType { variant, field }),
{
    only_plain_names_of_the_table_map(entries, spec_type_ref(ty), variant, field);
}

/// The declared types of fields in parentheses.
pub open spec fn spec_positional_types(fields: Seq<SourceField>) -> Seq<TypeRefView> {
    Seq::new(fields.len(), |k: int| spec_type_ref(fields[k].ty))
}

/// Every field has an identifier.
pub open spec fn all_identified(fields: Seq<SourceField>) -> bool {
    forall|k: int| 0 <= k < fields.len() ==> (#[trigger] fields[k]).ident is Some
}

/// The fields in braces with their identifiers and declared types.
pub open spec fn spec_named_fields(fields: Seq<SourceField>) -> Seq<FieldView> {
    Seq::new(
        fields.len(),
        |k: int| FieldView { name: fields[k].ident.unwrap(), ty: spec_type_ref(fields[k].ty) },
    )
}

/// A written variant can be lowered unless it has a field in braces
/// without an identifier.
pub open spec fn variant_eligible(v: SourceVariant) -> bool {
    v.shape is Named ==> all_identified(v.fields)
}

/// The variant that a written variant stands for.
pub open spec fn spec_variant(v: SourceVariant) -> VariantView {
    VariantView {
        name: v.name,
        kind: match v.shape {
            Shape::Unit => VariantKindView::Unit,
            Shape::Unnamed => VariantKindView::Positional(spec_positional_types(v.fields)),
            Shape::Named => VariantKindView::Named(spec_named_fields(v.fields)),
        },
    }
}

/// An `enum` item is an eligible declaration where each of its variants
/// can be lowered.
pub open spec fn enum_eligible(e: SourceEnum) -> bool {
    forall|j: int| 0 <= j < e.variants.len() ==> variant_eligible(#[trigger] e.variants[j])
}

/// The declaration that an eligible `enum` item stands for: the same
/// name, the same variants in the same order.
pub open spec fn spec_declaration(e: SourceEnum) -> DeclarationView {
    DeclarationView {
        name: e.name,
        variants: Seq::new(e.variants.len(), |j: int| spec_variant(e.variants[j])),
    }
}

/// The first eligible declaration among the items, in file order. Every
/// other item is passed over, later declarations included.
pub open spec fn spec_first_declaration(items: Seq<SourceItem>) -> Option<DeclarationView>
    decreases items.len(),
{
    if items.len() == 0 {
        None
    } else {
        match items[0] {
            SourceItem::Enum(e) => if enum_eligible(e) {
                Some(spec_declaration(e))
            } else {
                spec_first_declaration(items.drop_first())
            },
            SourceItem::Other => spec_first_declaration(items.drop_first()),
        }
    }
}

/// The declared type of field `k` of variant `j`.
fn type_ref_of(item: &syn::ItemEnum, j: usize, k: usize) -> (r: TypeRef)
    requires
        j < enum_syntax(*item).variants.len(),
        k < enum_syntax(*item).variants[j as int].fields.len(),
    ensures
        r@ == spec_type_ref(enum_syntax(*item).variants[j as int].fields[k as int].ty),
{
    match field_path(item, j, k) {
        None => TypeRef::Structured,
        Some(path) => {
            let ghost segments = path_syntax(*path).segments;
            let global = path_is_global(path);
            let count = segment_count(path);
            if !global && count == 1 && segment_is_plain(path, 0) {
                return TypeRef::Scalar(segment_ident(path, 0));
            }
            let mut idents: Vec<String> = Vec::new();
            let mut m: usize = 0;
            while m < count
                invariant
                    m <= count,
                    count == segments.len(),
                    segments == path_syntax(*path).segments,
                    views(idents@) == spec_segment_idents(segments).take(m as int),
                decreases count - m,
            {
                let ghost before = views(idents@);
                let ident = segment_ident(path, m);
                idents.push(ident);
                assert(views(idents@) == before.push(ident@));
                assert(spec_segment_idents(segments).take(m + 1) == spec_segment_idents(
                    segments,
                ).take(m as int).push(ident@));
                m += 1;
            }
            assert(spec_segment_idents(segments).take(m as int) == spec_segment_idents(segments));
            let mut text = String::new();
            if global {
                text.append("::");
            }
            let joined = join_text(&idents, "::");
            text.append(joined.as_str());
            assert(Seq::<char>::empty() + joined@ == joined@);
            TypeRef::Compound(text)
        },
    }
}

/// The types of the fields of variant `j`, in order.
fn positional_types_of(item: &syn::ItemEnum, j: usize) -> (r: Vec<TypeRef>)
    requires
        j < enum_syntax(*item).variants.len(),
    ensures
        type_views(r@) == spec_positional_types(enum_syntax(*item).variants[j as int].fields),
{
    let ghost fields = enum_syntax(*item).variants[j as int].fields;
    let count = field_count(item, j);
    let mut types: Vec<TypeRef> = Vec::new();
    let mut k: usize = 0;
    while k < count
        invariant
            k <= count,
            j < enum_syntax(*item).variants.len(),
            count == fields.len(),
            fields == enum_syntax(*item).variants[j as int].fields,
            type_views(types@) == spec_positional_types(fields).take(k as int),
        decreases count - k,
    {
        let ghost before = type_views(types@);
        let ty = type_ref_of(item, j, k);
        types.push(ty);
        assert(type_views(types@) == before.push(ty@));
        assert(spec_positional_types(fields).take(k + 1) == spec_positional_types(fields).take(
            k as int,
        ).push(ty@));
        k += 1;
    }
    assert(spec_positional_types(fields).take(k as int) == spec_positional_types(fields));
    types
}

/// The fields of variant `j` with their identifiers, in order, unless one
/// of them has none.
fn named_fields_of(item: &syn::ItemEnum, j: usize) -> (r: Option<Vec<Field>>)
    requires
        j < enum_syntax(*item).variants.len(),
    ensures
        match r {
            Some(found) => all_identified(enum_syntax(*item).variants[j as int].fields)
                && field_views(found@) == spec_named_fields(
                enum_syntax(*item).variants[j as int].fields,
            ),
            None => !all_identified(enum_syntax(*item).variants[j as int].fields),
        },
{
    let ghost fields = enum_syntax(*item).variants[j as int].fields;
    let count = field_count(item, j);
    let mut found: Vec<Field> = Vec::new();
    let mut k: usize = 0;
    while k < count
        invariant
            k <= count,
            j < enum_syntax(*item).variants.len(),
            count == fields.len(),
            fields == enum_syntax(*item).variants[j as int].fields,
            forall|n: int| 0 <= n < k ==> (#[trigger] fields[n]).ident is Some,
            field_views(found@) == spec_named_fields(fields).take(k as int),
        decreases count - k,
    {
        match field_ident(item, j, k) {
            None => {
                assert(fields[k as int].ident is None);
                return None;
            },
            Some(name) => {
                let ghost before = field_views(found@);
                let field = Field { name, ty: type_ref_of(item, j, k) };
                found.push(field);
                assert(field_views(found@) == before.push(field@));
                assert(spec_named_fields(fields).take(k + 1) == spec_named_fields(fields).take(
                    k as int,
                ).push(field@));
            },
        }
        k += 1;
    }
    assert(spec_named_fields(fields).take(k as int) == spec_named_fields(fields));
    Some(found)
}

/// Variant `j` of an `enum` item as a variant of a declaration, where it
/// can be lowered.
fn variant_of(item: &syn::ItemEnum, j: usize) -> (r: Option<Variant>)
    requires
        j < enum_syntax(*item).variants.len(),
    ensures
        match r {
            Some(v) => variant_eligible(enum_syntax(*item).variants[j as int]) && v@
                == spec_variant(enum_syntax(*item).variants[j as int]),
            None => !variant_eligible(enum_syntax(*item).variants[j as int]),
        },
{
    let name = variant_name(item, j);
    let kind = match variant_shape(item, j) {
        Shape::Unit => VariantKind::Unit,
        Shape::Unnamed => VariantKind::Positional(positional_types_of(item, j)),
        Shape::Named => match named_fields_of(item, j) {
            Some(fields) => VariantKind::Named(fields),
            None => {
                return None;
            },
        },
    };
    Some(Variant { name, kind })
}

/// An `enum` item as a declaration, where the item is eligible.
pub fn declaration_of(item: &syn::ItemEnum) -> (r: Option<Declaration>)
    ensures
        match r {
            Some(decl) => enum_eligible(enum_syntax(*item)) && decl@ == spec_declaration(
                enum_syntax(*item),
            ),
            None => !enum_eligible(enum_syntax(*item)),
        },
{
    let ghost written = enum_syntax(*item).variants;
    let ghost expected = spec_declaration(enum_syntax(*item)).variants;
    let count = variant_count(item);
    let mut variants: Vec<Variant> = Vec::new();
    let mut j: usize = 0;
    while j < count
        invariant
            j <= count,
            count == written.len(),
            written == enum_syntax(*item).variants,
            expected == spec_declaration(enum_syntax(*item)).variants,
            forall|n: int| 0 <= n < j ==> variant_eligible(#[trigger] written[n]),
            variant_views(variants@) == expected.take(j as int),
        decreases count - j,
    {
        match variant_of(item, j) {
            None => {
                assert(!variant_eligible(written[j as int]));
                return None;
            },
            Some(v) => {
                let ghost before = variant_views(variants@);
                variants.push(v);
                assert(variant_views(variants@) == before.push(v@));
                assert(expected.take(j + 1) == expected.take(j as int).push(v@));
            },
        }
        j += 1;
    }
    assert(expected.take(j as int) == expected);
    let decl = Declaration { name: enum_name(item), variants };
    assert(decl@.variants == expected);
    Some(decl)
}

/// The first eligible declaration of a parsed file, in file order.
pub fn first_declaration(file: &syn::File) -> (r: Option<Declaration>)
    ensures
        match (r, spec_first_declaration(file_items(*file))) {
            (Some(decl), Some(expected)) => decl@ == expected,
            (None, None) => true,
            _ => false,
        },
{
    let ghost items = file_items(*file);
    let count = item_count(file);
    let mut i: usize = 0;
    assert(items.skip(0) == items);
    while i < count
        invariant
            i <= count,
            count == items.len(),
            items == file_items(*file),
            spec_first_declaration(items) == spec_first_declaration(items.skip(i as int)),
        decreases count - i,
    {
        proof {
            let rest = items.skip(i as int);
            assert(rest[0] == items[i as int]);
            assert(rest.drop_first() == items.skip(i + 1));
        }
        match item_enum(file, i) {
            Some(item) => match declaration_of(item) {
                Some(decl) => {
                    return Some(decl);
                },
                None => {},
            },
            None => {},
        }
        i += 1;
    }
    None
}

/// What parsing a text and taking its first eligible declaration gives:
/// the declaration, `ParseFailure` with the parser's diagnostic where the
/// parser rejects the text, `NoDeclarationFound` where the text parses
/// and holds no eligible declaration.
pub open spec fn spec_parse_declaration(outcome: Result<Seq<SourceItem>, Seq<char>>) -> Result<
    DeclarationView,
    ConvertErrorView,
> {
    match outcome {
        Err(diagnostic) => Err(ConvertErrorView::ParseFailure { message: diagnostic }),
        Ok(items) => match spec_first_declaration(items) {
            None => Err(ConvertErrorView::NoDeclarationFound),
            Some(decl) => Ok(decl),
        },
    }
}

/// Parses a source text and returns its first eligible declaration.
///
/// Fails with `ParseFailure`, carrying the parser's diagnostic, exactly
/// where the parser rejects the text, and with `NoDeclarationFound`
/// exactly where the text parses and holds no eligible declaration.
pub fn parse_declaration(source: &str) -> (r: Result<Declaration, ConvertError>)
    ensures
        match (r, spec_parse_declaration(parsed(source@))) {
            (Ok(decl), Ok(expected)) => decl@ == expected,
            (Err(e), Err(expected)) => e@ == expected,
            _ => false,
        },
{
    match syn::parse_file(source) {
        Err(error) => Err(ConvertError::ParseFailure { message: error_text(&error) }),
        Ok(file) => match first_declaration(&file) {
            Some(decl) => Ok(decl),
            None => Err(ConvertError::NoDeclarationFound),
        },
    }
}

} // verus!
