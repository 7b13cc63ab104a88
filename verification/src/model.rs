//! The declaration of a tagged union: a named type with an ordered list of
//! variants, each of which is a unit, carries positional fields or carries
//! named fields.
use vstd::prelude::*;

verus! {

/// The declared type of a field.
#[derive(Clone, Debug, PartialEq, Eq)]
pub enum TypeRef {
    /// A plain type name: a single identifier without generic arguments.
    Scalar(String),
    /// A named type that is more than a plain name: a path of several
    /// segments, one that starts with `::`, or one with generic
    /// arguments. Holds the path as text, without the arguments.
    Compound(String),
    /// A type that no path names: a reference, a tuple, an array, and so
    /// on.
    Structured,
}

/// A field of a variant with named fields.
#[derive(Clone, Debug, PartialEq, Eq)]
pub struct Field {
    pub name: String,
    pub ty: TypeRef,
}

/// What a variant carries.
#[derive(Clone, Debug, PartialEq, Eq)]
pub enum VariantKind {
    /// No payload.
    Unit,
    /// Fields known by their position, starting at zero.
    Positional(Vec<TypeRef>),
    /// Fields known by their declared identifiers.
    Named(Vec<Field>),
}

/// One case of the union.
#[derive(Clone, Debug, PartialEq, Eq)]
pub struct Variant {
    pub name: String,
    pub kind: VariantKind,
}

/// A tagged-union type. The order of the variants is significant.
#[derive(Clone, Debug, PartialEq, Eq)]
pub struct Declaration {
    pub name: String,
    pub variants: Vec<Variant>,
}

pub enum TypeRefView {
    Scalar(Seq<char>),
    Compound(Seq<char>),
    Structured,
}

pub struct FieldView {
    pub name: Seq<char>,
    pub ty: TypeRefView,
}

pub enum VariantKindView {
    Unit,
    Positional(Seq<TypeRefView>),
    Named(Seq<FieldView>),
}

pub struct VariantView {
    pub name: Seq<char>,
    pub kind: VariantKindView,
}

pub struct DeclarationView {
    pub name: Seq<char>,
    pub variants: Seq<VariantView>,
}

impl View for TypeRef {
    type V = TypeRefView;

    open spec fn view(&self) -> TypeRefView {
        match self {
            TypeRef::Scalar(name) => TypeRefView::Scalar(name@),
            TypeRef::Compound(name) => TypeRefView::Compound(name@),
            TypeRef::Structured => TypeRefView::Structured,
        }
    }
}

impl View for Field {
    type V = FieldView;

    open spec fn view(&self) -> FieldView {
        FieldView { name: self.name@, ty: self.ty@ }
    }
}

/// The views of a list of types, in order.
pub open spec fn type_views(types: Seq<TypeRef>) -> Seq<TypeRefView> {
    Seq::new(types.len(), |i: int| types[i]@)
}

/// The views of a list of named fields, in order.
pub open spec fn field_views(fields: Seq<Field>) -> Seq<FieldView> {
    Seq::new(fields.len(), |i: int| fields[i]@)
}

/// The views of a list of variants, in order.
pub open spec fn variant_views(variants: Seq<Variant>) -> Seq<VariantView> {
    Seq::new(variants.len(), |i: int| variants[i]@)
}

impl View for VariantKind {
    type V = VariantKindView;

    open spec fn view(&self) -> VariantKindView {
        match self {
            VariantKind::Unit => VariantKindView::Unit,
            VariantKind::Positional(types) => VariantKindView::Positional(type_views(types@)),
            VariantKind::Named(fields) => VariantKindView::Named(field_views(fields@)),
        }
    }
}

impl View for Variant {
    type V = VariantView;

    open spec fn view(&self) -> VariantView {
        VariantView { name: self.name@, kind: self.kind@ }
    }
}

impl View for Declaration {
    type V = DeclarationView;

    open spec fn view(&self) -> DeclarationView {
        DeclarationView { name: self.name@, variants: variant_views(self.variants@) }
    }
}

impl VariantKindView {
    /// A variant with a payload has at least one field.
    pub open spec fn well_formed(self) -> bool {
        match self {
            VariantKindView::Unit => true,
            VariantKindView::Positional(types) => types.len() > 0,
            VariantKindView::Named(fields) => fields.len() > 0,
        }
    }
}

impl DeclarationView {
    /// A declaration has at least one variant, no two of its variants
    /// share a name, and each variant with a payload has a field.
    pub open spec fn well_formed(self) -> bool {
        &&& self.variants.len() > 0
        &&& forall|i: int, j: int|
            0 <= i < j < self.variants.len() ==> self.variants[i].name != self.variants[j].name
        &&& forall|i: int|
            0 <= i < self.variants.len() ==> (#[trigger] self.variants[i]).kind.well_formed()
    }
}

impl VariantKind {
    /// Whether a variant with a payload has at least one field.
    pub fn is_well_formed(&self) -> (r: bool)
        ensures
            r == self@.well_formed(),
    {
        match self {
            VariantKind::Unit => true,
            VariantKind::Positional(types) => types.len() > 0,
            VariantKind::Named(fields) => fields.len() > 0,
        }
    }
}

impl Declaration {
    /// Whether the declaration has a variant, its variants have different
    /// names and each variant with a payload has a field.
    pub fn is_well_formed(&self) -> (r: bool)
        ensures
            r == self@.well_formed(),
    {
        let n = self.variants.len();
        if n == 0 {
            return false;
        }
        let mut j: usize = 0;
        while j < n
            invariant
                j <= n,
                n == self.variants.len(),
                forall|a: int, b: int|
                    0 <= a < b < j ==> self@.variants[a].name != self@.variants[b].name,
                forall|a: int| 0 <= a < j ==> (#[trigger] self@.variants[a]).kind.well_formed(),
            decreases n - j,
        {
            if !self.variants[j].kind.is_well_formed() {
                assert(!self@.variants[j as int].kind.well_formed());
                return false;
            }
            let mut i: usize = 0;
            while i < j
                invariant
                    i <= j,
                    j < n,
                    n == self.variants.len(),
                    forall|a: int| 0 <= a < i ==> self@.variants[a].name != self@.variants[j as int].name,
                decreases j - i,
            {
                if self.variants[i].name == self.variants[j].name {
                    assert(self@.variants[i as int].name == self@.variants[j as int].name);
                    return false;
                }
                i += 1;
            }
            j += 1;
        }
        true
    }
}

} // verus!
