//! The variant lowerer: from one variant to its discriminant tag, the text
//! of its payload layout and the name of its member of the union.
use crate::error::{ConvertError, ConvertErrorView};
use crate::mapper::{get_type, spec_get_type, Entries, TypeTable};
use crate::model::{
    field_views, type_views, Declaration, Field, FieldView, TypeRef, TypeRefView, Variant,
    VariantKind, VariantKindView, VariantView,
};
use crate::naming::{
    member_name, positional_identifier, spec_member_name, spec_positional_identifier,
    spec_tag_identifier, tag_identifier,
};
use crate::text::{join, join_text, views};
use vstd::prelude::*;
use vstd::string::StringExecFns;

verus! {

/// One member of a payload layout: a low-level type and an identifier.
#[derive(Clone, Debug, PartialEq, Eq)]
pub struct Member {
    pub ty: String,
    pub ident: String,
}

pub struct MemberView {
    pub ty: Seq<char>,
    pub ident: Seq<char>,
}

impl View for Member {
    type V = MemberView;

    open spec fn view(&self) -> MemberView {
        MemberView { ty: self.ty@, ident: self.ident@ }
    }
}

/// The views of a list of members, in order.
pub open spec fn member_views(members: Seq<Member>) -> Seq<MemberView> {
    Seq::new(members.len(), |i: int| members[i]@)
}

/// What the emitter needs of one variant.
#[derive(Clone, Debug, PartialEq, Eq)]
pub struct LoweredVariant {
    /// The variant's name in the discriminant enumeration.
    pub tag: String,
    /// The type of the variant's member of the union: a payload layout, or
    /// the placeholder type for a variant without payload.
    pub payload: String,
    /// The name of the variant's member of the union.
    pub member: String,
}

pub struct LoweredView {
    pub tag: Seq<char>,
    pub payload: Seq<char>,
    pub member: Seq<char>,
}

impl View for LoweredVariant {
    type V = LoweredView;

    open spec fn view(&self) -> LoweredView {
        LoweredView { tag: self.tag@, payload: self.payload@, member: self.member@ }
    }
}

/// The views of a list of lowered variants, in order.
pub open spec fn lowered_views(lowered: Seq<LoweredVariant>) -> Seq<LoweredView> {
    Seq::new(lowered.len(), |i: int| lowered[i]@)
}

/// A field as the lowering sees it: its identifier and its declared type.
pub type Slot = (Seq<char>, TypeRefView);

/// Positional fields are named by their position.
pub open spec fn positional_slots(types: Seq<TypeRefView>) -> Seq<Slot> {
    Seq::new(types.len(), |i: int| (spec_positional_identifier(i as nat), types[i]))
}

/// Named fields keep their declared identifiers.
pub open spec fn named_slots(fields: Seq<FieldView>) -> Seq<Slot> {
    Seq::new(fields.len(), |i: int| (fields[i].name, fields[i].ty))
}

/// The members of a payload layout, one per field and in field order, or
/// the error of the first field whose type has no low-level equivalent.
pub open spec fn spec_members(entries: Entries, variant: Seq<char>, slots: Seq<Slot>) -> Result<
    Seq<MemberView>,
    ConvertErrorView,
>
    decreases slots.len(),
{
    if slots.len() == 0 {
        Ok(Seq::empty())
    } else {
        match spec_members(entries, variant, slots.drop_last()) {
            Err(e) => Err(e),
            Ok(done) => match spec_get_type(entries, slots.last().1, variant, slots.last().0) {
                Err(e) => Err(e),
                Ok(low) => Ok(done.push(MemberView { ty: low, ident: slots.last().0 })),
            },
        }
    }
}

/// The name of the placeholder type: one opaque byte that fills the
/// union member of a variant without payload.
pub open spec fn spec_placeholder() -> Seq<char> {
    "empty"@
}

/// One member of a layout as a line of text.
pub open spec fn spec_member_line(m: MemberView) -> Seq<char> {
    m.ty + " "@ + m.ident + ";"@
}

/// The members of a layout as lines of text, in order.
pub open spec fn spec_member_lines(members: Seq<MemberView>) -> Seq<Seq<char>> {
    Seq::new(members.len(), |i: int| spec_member_line(members[i]))
}

/// A payload layout as text: an anonymous aggregate of the members.
pub open spec fn spec_layout_text(members: Seq<MemberView>) -> Seq<char> {
    "\n        struct {\n            "@ + join(spec_member_lines(members), "\n"@)
        + "\n        }"@
}

/// The lowering of one variant of the declaration named `decl`.
pub open spec fn spec_lower_variant(entries: Entries, decl: Seq<char>, v: VariantView) -> Result<
    LoweredView,
    ConvertErrorView,
> {
    let tag = spec_tag_identifier(decl, v.name);
    let member = spec_member_name(v.name);
    match v.kind {
        VariantKindView::Unit => Ok(LoweredView { tag, payload: spec_placeholder(), member }),
        VariantKindView::Positional(types) => match spec_members(
            entries,
            v.name,
            positional_slots(types),
        ) {
            Ok(members) => Ok(LoweredView { tag, payload: spec_layout_text(members), member }),
            Err(e) => Err(e),
        },
        VariantKindView::Named(fields) => match spec_members(
            entries,
            v.name,
            named_slots(fields),
        ) {
            Ok(members) => Ok(LoweredView { tag, payload: spec_layout_text(members), member }),
            Err(e) => Err(e),
        },
    }
}

/// The lowering of the variants in declaration order, or the error of the
/// first variant that does not lower.
pub open spec fn spec_lower_variants(
    entries: Entries,
    decl: Seq<char>,
    variants: Seq<VariantView>,
) -> Result<Seq<LoweredView>, ConvertErrorView>
    decreases variants.len(),
{
    if variants.len() == 0 {
        Ok(Seq::empty())
    } else {
        match spec_lower_variants(entries, decl, variants.drop_last()) {
            Err(e) => Err(e),
            Ok(done) => match spec_lower_variant(entries, decl, variants.last()) {
                Err(e) => Err(e),
                Ok(lowered) => Ok(done.push(lowered)),
            },
        }
    }
}

/// An error among the first fields is the error of the whole list.
pub proof fn members_error_is_final(
    entries: Entries,
    variant: Seq<char>,
    slots: Seq<Slot>,
    n: int,
)
    requires
        0 <= n <= slots.len(),
        spec_members(entries, variant, slots.take(n)) is Err,
    ensures
        spec_members(entries, variant, slots) == spec_members(entries, variant, slots.take(n)),
    decreases slots.len() - n,
{
    if n < slots.len() {
        assert(slots.take(n + 1).drop_last() == slots.take(n));
        members_error_is_final(entries, variant, slots, n + 1);
    } else {
        assert(slots.take(n) == slots);
    }
}

/// An error among the first variants is the error of the whole list.
pub proof fn variants_error_is_final(
    entries: Entries,
    decl: Seq<char>,
    variants: Seq<VariantView>,
    n: int,
)
    requires
        0 <= n <= variants.len(),
        spec_lower_variants(entries, decl, variants.take(n)) is Err,
    ensures
        spec_lower_variants(entries, decl, variants) == spec_lower_variants(
            entries,
            decl,
            variants.take(n),
        ),
    decreases variants.len() - n,
{
    if n < variants.len() {
        assert(variants.take(n + 1).drop_last() == variants.take(n));
        variants_error_is_final(entries, decl, variants, n + 1);
    } else {
        assert(variants.take(n) == variants);
    }
}

/// A list of fields lowers member by member: on success there is one
/// member per field, in field order, with the field's identifier and the
/// low-level type of the field's type; on failure the error is that of the
/// first field whose type has no low-level equivalent.
pub proof fn members_follow_slots(entries: Entries, variant: Seq<char>, slots: Seq<Slot>)
    ensures
        match spec_members(entries, variant, slots) {
            Ok(members) => {
                &&& members.len() == slots.len()
                &&& forall|i: int|
                    0 <= i < slots.len() ==> (#[trigger] members[i]).ident == slots[i].0
                        && spec_get_type(entries, slots[i].1, variant, slots[i].0) == Ok::<
                        Seq<char>,
                        ConvertErrorView,
                    >(members[i].ty)
            },
            Err(e) => exists|i: int|
                {
                    &&& 0 <= i < slots.len()
                    &&& #[trigger] spec_get_type(entries, slots[i].1, variant, slots[i].0) == Err::<
                        Seq<char>,
                        ConvertErrorView,
                    >(e)
                    &&& forall|j: int|
                        0 <= j < i ==> (#[trigger] spec_get_type(
                            entries,
                            slots[j].1,
                            variant,
                            slots[j].0,
                        )) is Ok
                },
        },
    decreases slots.len(),
{
    if slots.len() > 0 {
        let front = slots.drop_last();
        let last = slots.len() - 1;
        members_follow_slots(entries, variant, front);
        match spec_members(entries, variant, front) {
            Ok(done) => {
                assert forall|j: int| 0 <= j < last implies (#[trigger] spec_get_type(
                    entries,
                    slots[j].1,
                    variant,
                    slots[j].0,
                )) is Ok by {
                    assert(front[j] == slots[j]);
                    assert(done[j].ident == front[j].0);
                }
                match spec_get_type(entries, slots.last().1, variant, slots.last().0) {
                    Ok(low) => {
                        let members = done.push(MemberView { ty: low, ident: slots.last().0 });
                        assert forall|i: int| 0 <= i < slots.len() implies (#[trigger] members[i]).ident
                            == slots[i].0 && spec_get_type(
                            entries,
                            slots[i].1,
                            variant,
                            slots[i].0,
                        ) == Ok::<Seq<char>, ConvertErrorView>(members[i].ty) by {
                            if i < last {
                                assert(front[i] == slots[i]);
                                assert(members[i] == done[i]);
                            }
                        }
                    },
                    Err(e) => {
                        assert(spec_get_type(entries, slots[last].1, variant, slots[last].0)
                            == Err::<Seq<char>, ConvertErrorView>(e));
                    },
                }
            },
            Err(e) => {
                let i = choose|i: int|
                    {
                        &&& 0 <= i < front.len()
                        &&& #[trigger] spec_get_type(entries, front[i].1, variant, front[i].0)
                            == Err::<Seq<char>, ConvertErrorView>(e)
                        &&& forall|j: int|
                            0 <= j < i ==> (#[trigger] spec_get_type(
                                entries,
                                front[j].1,
                                variant,
                                front[j].0,
                            )) is Ok
                    };
                assert(front[i] == slots[i]);
                assert forall|j: int| 0 <= j < i implies (#[trigger] spec_get_type(
                    entries,
                    slots[j].1,
                    variant,
                    slots[j].0,
                )) is Ok by {
                    assert(front[j] == slots[j]);
                    assert(spec_get_type(entries, front[j].1, variant, front[j].0) is Ok);
                }
                assert(spec_get_type(entries, slots[i].1, variant, slots[i].0) == Err::<
                    Seq<char>,
                    ConvertErrorView,
                >(e));
            },
        }
    }
}

/// A variant with positional fields of types `T0..Tk` lowers to the
/// members `t_0..t_k`, in this order, member `i` having the low-level type
/// of `Ti`.
pub proof fn positional_members_mirror_fields(
    entries: Entries,
    variant: Seq<char>,
    types: Seq<TypeRefView>,
)
    ensures
        spec_members(entries, variant, positional_slots(types)) matches Ok(members) ==> {
            &&& members.len() == types.len()
            &&& forall|i: int|
                0 <= i < types.len() ==> (#[trigger] members[i]).ident
                    == spec_positional_identifier(i as nat) && spec_get_type(
                    entries,
                    types[i],
                    variant,
                    spec_positional_identifier(i as nat),
                ) == Ok::<Seq<char>, ConvertErrorView>(members[i].ty)
        },
{
    members_follow_slots(entries, variant, positional_slots(types));
}

/// A variant with named fields lowers to as many members as it has
/// fields, in field order, each under the declared identifier of its field
/// and with the low-level type of that field.
pub proof fn named_members_keep_identifiers(
    entries: Entries,
    variant: Seq<char>,
    fields: Seq<FieldView>,
)
    ensures
        spec_members(entries, variant, named_slots(fields)) matches Ok(members) ==> {
            &&& members.len() == fields.len()
            &&& forall|i: int|
                0 <= i < fields.len() ==> (#[trigger] members[i]).ident == fields[i].name
                    && spec_get_type(entries, fields[i].ty, variant, fields[i].name) == Ok::<
                    Seq<char>,
                    ConvertErrorView,
                >(members[i].ty)
        },
{
    members_follow_slots(entries, variant, named_slots(fields));
}

/// A variant without payload always lowers, whatever the mapping table,
/// and the type of its member of the union is the placeholder type and
/// nothing more: it has no payload layout, so no member of its own.
pub proof fn unit_variant_takes_placeholder(entries: Entries, decl: Seq<char>, v: VariantView)
    requires
        v.kind is Unit,
    ensures
        spec_lower_variant(entries, decl, v) == Ok::<LoweredView, ConvertErrorView>(
            LoweredView {
                tag: spec_tag_identifier(decl, v.name),
                payload: spec_placeholder(),
                member: spec_member_name(v.name),
            },
        ),
{
}

/// A declaration lowers variant by variant: on success there is one
/// lowered variant per variant, in declaration order; on failure the error
/// is that of the first variant that does not lower.
pub proof fn variants_lower_one_by_one(
    entries: Entries,
    decl: Seq<char>,
    variants: Seq<VariantView>,
)
    ensures
        match spec_lower_variants(entries, decl, variants) {
            Ok(lowered) => {
                &&& lowered.len() == variants.len()
                &&& forall|i: int|
                    0 <= i < variants.len() ==> spec_lower_variant(entries, decl, variants[i])
                        == Ok::<LoweredView, ConvertErrorView>(#[trigger] lowered[i])
            },
            Err(e) => exists|i: int|
                {
                    &&& 0 <= i < variants.len()
                    &&& #[trigger] spec_lower_variant(entries, decl, variants[i]) == Err::<
                        LoweredView,
                        ConvertErrorView,
                    >(e)
                    &&& forall|j: int|
                        0 <= j < i ==> (#[trigger] spec_lower_variant(
                            entries,
                            decl,
                            variants[j],
                        )) is Ok
                },
        },
    decreases variants.len(),
{
    if variants.len() > 0 {
        let front = variants.drop_last();
        let last = variants.len() - 1;
        variants_lower_one_by_one(entries, decl, front);
        match spec_lower_variants(entries, decl, front) {
            Ok(done) => {
                assert forall|j: int| 0 <= j < last implies (#[trigger] spec_lower_variant(
                    entries,
                    decl,
                    variants[j],
                )) is Ok by {
                    assert(front[j] == variants[j]);
                    assert(spec_lower_variant(entries, decl, front[j]) == Ok::<
                        LoweredView,
                        ConvertErrorView,
                    >(done[j]));
                }
                match spec_lower_variant(entries, decl, variants.last()) {
                    Ok(one) => {
                        let lowered = done.push(one);
                        assert forall|i: int| 0 <= i < variants.len() implies spec_lower_variant(
                            entries,
                            decl,
                            variants[i],
                        ) == Ok::<LoweredView, ConvertErrorView>(#[trigger] lowered[i]) by {
                            if i < last {
                                assert(front[i] == variants[i]);
                                assert(lowered[i] == done[i]);
                            }
                        }
                    },
                    Err(e) => {
                        assert(spec_lower_variant(entries, decl, variants[last]) == Err::<
                            LoweredView,
                            ConvertErrorView,
                        >(e));
                    },
                }
            },
            Err(e) => {
                let i = choose|i: int|
                    {
                        &&& 0 <= i < front.len()
                        &&& #[trigger] spec_lower_variant(entries, decl, front[i]) == Err::<
                            LoweredView,
                            ConvertErrorView,
                        >(e)
                        &&& forall|j: int|
                            0 <= j < i ==> (#[trigger] spec_lower_variant(
                                entries,
                                decl,
                                front[j],
                            )) is Ok
                    };
                assert(front[i] == variants[i]);
                assert forall|j: int| 0 <= j < i implies (#[trigger] spec_lower_variant(
                    entries,
                    decl,
                    variants[j],
                )) is Ok by {
                    assert(front[j] == variants[j]);
                    assert(spec_lower_variant(entries, decl, front[j]) is Ok);
                }
                assert(spec_lower_variant(entries, decl, variants[i]) == Err::<
                    LoweredView,
                    ConvertErrorView,
                >(e));
            },
        }
    }
}

/// The discriminant tags of a lowered declaration are as many as its
/// variants, in declaration order, each made of the upper-case names of
/// the declaration and of its variant; the members of the union are named
/// by the variants' names in lower case.
pub proof fn tags_follow_variants(entries: Entries, decl: Seq<char>, variants: Seq<VariantView>)
    ensures
        spec_lower_variants(entries, decl, variants) matches Ok(lowered) ==> {
            &&& lowered.len() == variants.len()
            &&& forall|i: int|
                0 <= i < variants.len() ==> (#[trigger] lowered[i]).tag == spec_tag_identifier(
                    decl,
                    variants[i].name,
                ) && lowered[i].member == spec_member_name(variants[i].name)
        },
{
    variants_lower_one_by_one(entries, decl, variants);
}

/// Lowers the fields of a variant with positional fields: member `i` is
/// named `t_i` and has the low-level type of field `i`.
pub fn handle_unnamed(table: &TypeTable, fields: &Vec<TypeRef>, variant_name: &str) -> (r: Result<
    Vec<Member>,
    ConvertError,
>)
    ensures
        match (r, spec_members(table@, variant_name@, positional_slots(type_views(fields@)))) {
            (Ok(members), Ok(expected)) => member_views(members@) == expected,
            (Err(e), Err(expected)) => e@ == expected,
            _ => false,
        },
{
    let ghost slots = positional_slots(type_views(fields@));
    let mut members: Vec<Member> = Vec::new();
    let mut i: usize = 0;
    assert(member_views(members@) == Seq::<MemberView>::empty());
    while i < fields.len()
        invariant
            i <= fields.len(),
            slots == positional_slots(type_views(fields@)),
            spec_members(table@, variant_name@, slots.take(i as int)) == Ok::<
                Seq<MemberView>,
                ConvertErrorView,
            >(member_views(members@)),
        decreases fields.len() - i,
    {
        let ident = positional_identifier(i);
        proof {
            assert(slots.take(i + 1).drop_last() == slots.take(i as int));
            assert(slots.take(i + 1).last() == (ident@, fields@[i as int]@));
        }
        match get_type(table, &fields[i], variant_name, ident.as_str()) {
            Ok(ty) => {
                let ghost before = member_views(members@);
                let member = Member { ty, ident };
                members.push(member);
                assert(member_views(members@) == before.push(member@));
            },
            Err(e) => {
                proof {
                    members_error_is_final(table@, variant_name@, slots, i + 1);
                }
                return Err(e);
            },
        }
        i += 1;
    }
    assert(slots.take(i as int) == slots);
    Ok(members)
}

/// Lowers the fields of a variant with named fields: each member keeps
/// the identifier of its field and has the low-level type of that field.
pub fn handle_named(table: &TypeTable, fields: &Vec<Field>, variant_name: &str) -> (r: Result<
    Vec<Member>,
    ConvertError,
>)
    ensures
        match (r, spec_members(table@, variant_name@, named_slots(field_views(fields@)))) {
            (Ok(members), Ok(expected)) => member_views(members@) == expected,
            (Err(e), Err(expected)) => e@ == expected,
            _ => false,
        },
{
    let ghost slots = named_slots(field_views(fields@));
    let mut members: Vec<Member> = Vec::new();
    let mut i: usize = 0;
    assert(member_views(members@) == Seq::<MemberView>::empty());
    while i < fields.len()
        invariant
            i <= fields.len(),
            slots == named_slots(field_views(fields@)),
            spec_members(table@, variant_name@, slots.take(i as int)) == Ok::<
                Seq<MemberView>,
                ConvertErrorView,
            >(member_views(members@)),
        decreases fields.len() - i,
    {
        let field = &fields[i];
        proof {
            assert(slots.take(i + 1).drop_last() == slots.take(i as int));
            assert(slots.take(i + 1).last() == (field.name@, field.ty@));
        }
        match get_type(table, &field.ty, variant_name, field.name.as_str()) {
            Ok(ty) => {
                let ghost before = member_views(members@);
                let member = Member { ty, ident: field.name.clone() };
                members.push(member);
                assert(member_views(members@) == before.push(member@));
            },
            Err(e) => {
                proof {
                    members_error_is_final(table@, variant_name@, slots, i + 1);
                }
                return Err(e);
            },
        }
        i += 1;
    }
    assert(slots.take(i as int) == slots);
    Ok(members)
}

/// Writes a payload layout as an anonymous aggregate, one line per member.
pub fn render_layout(members: &Vec<Member>) -> (r: String)
    ensures
        r@ == spec_layout_text(member_views(members@)),
{
    let mut lines: Vec<String> = Vec::new();
    let mut i: usize = 0;
    while i < members.len()
        invariant
            i <= members.len(),
            views(lines@) == spec_member_lines(member_views(members@)).take(i as int),
        decreases members.len() - i,
    {
        let mut line = members[i].ty.clone();
        line.append(" ");
        line.append(members[i].ident.as_str());
        line.append(";");
        let ghost before = views(lines@);
        lines.push(line);
        assert(views(lines@) == before.push(line@));
        assert(spec_member_lines(member_views(members@)).take(i + 1)
            == spec_member_lines(member_views(members@)).take(i as int).push(line@));
        i += 1;
    }
    assert(spec_member_lines(member_views(members@)).take(i as int) == spec_member_lines(
        member_views(members@),
    ));
    let body = join_text(&lines, "\n");
    let mut out = String::from_str("\n        struct {\n            ");
    out.append(body.as_str());
    out.append("\n        }");
    out
}

/// Lowers one variant of the declaration named `decl_name`.
pub fn lower_variant(table: &TypeTable, decl_name: &str, variant: &Variant) -> (r: Result<
    LoweredVariant,
    ConvertError,
>)
    ensures
        match (r, spec_lower_variant(table@, decl_name@, variant@)) {
            (Ok(lowered), Ok(expected)) => lowered@ == expected,
            (Err(e), Err(expected)) => e@ == expected,
            _ => false,
        },
{
    let name = variant.name.as_str();
    let payload = match &variant.kind {
        VariantKind::Unit => String::from_str("empty"),
        VariantKind::Positional(fields) => match handle_unnamed(table, fields, name) {
            Ok(members) => render_layout(&members),
            Err(e) => {
                return Err(e);
            },
        },
        VariantKind::Named(fields) => match handle_named(table, fields, name) {
            Ok(members) => render_layout(&members),
            Err(e) => {
                return Err(e);
            },
        },
    };
    Ok(LoweredVariant { tag: tag_identifier(decl_name, name), payload, member: member_name(name) })
}

/// Lowers every variant of a declaration, in declaration order.
pub fn lower_declaration(table: &TypeTable, decl: &Declaration) -> (r: Result<
    Vec<LoweredVariant>,
    ConvertError,
>)
    ensures
        match (r, spec_lower_variants(table@, decl@.name, decl@.variants)) {
            (Ok(lowered), Ok(expected)) => lowered_views(lowered@) == expected,
            (Err(e), Err(expected)) => e@ == expected,
            _ => false,
        },
{
    let ghost variants = decl@.variants;
    let mut lowered: Vec<LoweredVariant> = Vec::new();
    let mut i: usize = 0;
    assert(lowered_views(lowered@) == Seq::<LoweredView>::empty());
    while i < decl.variants.len()
        invariant
            i <= decl.variants.len(),
            variants == decl@.variants,
            spec_lower_variants(table@, decl@.name, variants.take(i as int)) == Ok::<
                Seq<LoweredView>,
                ConvertErrorView,
            >(lowered_views(lowered@)),
        decreases decl.variants.len() - i,
    {
        proof {
            assert(variants.take(i + 1).drop_last() == variants.take(i as int));
            assert(variants.take(i + 1).last() == decl.variants@[i as int]@);
        }
        match lower_variant(table, decl.name.as_str(), &decl.variants[i]) {
            Ok(one) => {
                let ghost before = lowered_views(lowered@);
                lowered.push(one);
                assert(lowered_views(lowered@) == before.push(one@));
            },
            Err(e) => {
                proof {
                    variants_error_is_final(table@, decl@.name, variants, i + 1);
                }
                return Err(e);
            },
        }
        i += 1;
    }
    assert(variants.take(i as int) == variants);
    Ok(lowered)
}

} // verus!
