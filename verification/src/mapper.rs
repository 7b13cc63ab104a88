//! The type mapper: from the name of a primitive source type to the name
//! of the low-level type that stands for it.
use crate::error::{ConvertError, ConvertErrorView};
use crate::model::{TypeRef, TypeRefView};
use vstd::prelude::*;
use vstd::string::StringExecFns;

verus! {

/// The entries of a table as pairs of texts: source name, low-level name.
pub type Entries = Seq<(Seq<char>, Seq<char>)>;

/// The low-level name that the first entry for `name` gives, if any.
pub open spec fn spec_lookup(entries: Entries, name: Seq<char>) -> Option<Seq<char>>
    decreases entries.len(),
{
    if entries.len() == 0 {
        None
    } else if entries[0].0 == name {
        Some(entries[0].1)
    } else {
        spec_lookup(entries.drop_first(), name)
    }
}

/// No source name has two entries.
pub open spec fn keys_distinct(entries: Entries) -> bool {
    forall|i: int, j: int| 0 <= i < j < entries.len() ==> entries[i].0 != entries[j].0
}

/// The supported mapping, in full. Source names are case-sensitive. The
/// 128-bit integers have no entry: no low-level type holds them
/// faithfully, so a field of such a type is rejected, never narrowed.
pub open spec fn standard_entries() -> Entries {
    seq![
        ("String"@, "char*"@),
        ("i8"@, "int8_t"@),
        ("i16"@, "int16_t"@),
        ("i32"@, "int32_t"@),
        ("i64"@, "int64_t"@),
        ("isize"@, "isize_t"@),
        ("u8"@, "uint8_t"@),
        ("u16"@, "uint16_t"@),
        ("u32"@, "uint32_t"@),
        ("u64"@, "uint64_t"@),
        ("usize"@, "size_t"@),
        ("f32"@, "float"@),
        ("f64"@, "double"@),
        ("char"@, "char"@),
        ("bool"@, "bool"@),
    ]
}

/// The low-level type of a declared type, or the error that names the
/// field at fault. Only a plain name in the table has a low-level type: a
/// plain name outside the table and a compound type are unmappable, and
/// a type without a name is unsupported.
pub open spec fn spec_get_type(
    entries: Entries,
    ty: TypeRefView,
    variant: Seq<char>,
    field: Seq<char>,
) -> Result<Seq<char>, ConvertErrorView> {
    match ty {
        TypeRefView::Scalar(name) => match spec_lookup(entries, name) {
            Some(low) => Ok(low),
            None => Err(ConvertErrorView::UnmappableType { variant, field, source_type: name }),
        },
        TypeRefView::Compound(name) => Err(
            ConvertErrorView::UnmappableType { variant, field, source_type: name },
        ),
        TypeRefView::Structured => Err(ConvertErrorView::UnsupportedType { variant, field }),
    }
}

/// A declared type has a low-level type exactly where it is a plain name
/// that the table holds, compared character by character; the low-level
/// type is then the one of the table. A plain name that the table lacks
/// and a compound type fail as unmappable, under the name as written; a
/// type without a name fails as unsupported.
pub proof fn only_plain_names_of_the_table_map(
    entries: Entries,
    ty: TypeRefView,
    variant: Seq<char>,
    field: Seq<char>,
)
    ensures
        spec_get_type(entries, ty, variant, field) is Ok <==> ty is Scalar && spec_lookup(
            entries,
            ty->Scalar_0,
        ) is Some,
        spec_get_type(entries, ty, variant, field) matches Ok(low) ==> entries.contains(
            (ty->Scalar_0, low),
        ),
        ty matches TypeRefView::Scalar(name) ==> spec_lookup(entries, name) is None
            ==> spec_get_type(entries, ty, variant, field) == Err::<Seq<char>, ConvertErrorView>(
            ConvertErrorView::UnmappableType { variant, field, source_type: name },
        ),
        ty matches TypeRefView::Compound(name) ==> spec_get_type(entries, ty, variant, field)
            == Err::<Seq<char>, ConvertErrorView>(
            ConvertErrorView::UnmappableType { variant, field, source_type: name },
        ),
        ty is Structured ==> spec_get_type(entries, ty, variant, field) == Err::<
            Seq<char>,
            ConvertErrorView,
        >(ConvertErrorView::UnsupportedType { variant, field }),
{
    if let TypeRefView::Scalar(name) = ty {
        lookup_finds_the_entry(entries, name);
    }
}

/// An immutable mapping table, made once and handed to the lowering.
pub struct TypeTable {
    entries: Vec<(String, String)>,
}

impl View for TypeTable {
    type V = Entries;

    closed spec fn view(&self) -> Entries {
        pair_views(self.entries@)
    }
}

/// The views of a list of pairs of strings, in order.
pub open spec fn pair_views(pairs: Seq<(String, String)>) -> Entries {
    Seq::new(pairs.len(), |i: int| (pairs[i].0@, pairs[i].1@))
}

impl TypeTable {
    /// Every table holds each source name at most once.
    #[verifier::type_invariant]
    spec fn unique(self) -> bool {
        keys_distinct(self@)
    }

    /// The table of the supported mapping.
    pub fn standard() -> (table: TypeTable)
        ensures
            table@ == standard_entries(),
    {
        let mut entries: Vec<(String, String)> = Vec::new();
        entries.push((String::from_str("String"), String::from_str("char*")));
        entries.push((String::from_str("i8"), String::from_str("int8_t")));
        entries.push((String::from_str("i16"), String::from_str("int16_t")));
        entries.push((String::from_str("i32"), String::from_str("int32_t")));
        entries.push((String::from_str("i64"), String::from_str("int64_t")));
        entries.push((String::from_str("isize"), String::from_str("isize_t")));
        entries.push((String::from_str("u8"), String::from_str("uint8_t")));
        entries.push((String::from_str("u16"), String::from_str("uint16_t")));
        entries.push((String::from_str("u32"), String::from_str("uint32_t")));
        entries.push((String::from_str("u64"), String::from_str("uint64_t")));
        entries.push((String::from_str("usize"), String::from_str("size_t")));
        entries.push((String::from_str("f32"), String::from_str("float")));
        entries.push((String::from_str("f64"), String::from_str("double")));
        entries.push((String::from_str("char"), String::from_str("char")));
        entries.push((String::from_str("bool"), String::from_str("bool")));
        proof {
            assert(pair_views(entries@) =~= standard_entries());
            standard_keys_distinct();
        }
        TypeTable { entries }
    }

    /// A table of the given entries, unless a source name occurs twice.
    pub fn new(entries: Vec<(String, String)>) -> (r: Option<TypeTable>)
        ensures
            match r {
                Some(table) => keys_distinct(pair_views(entries@)) && table@ == pair_views(
                    entries@,
                ),
                None => !keys_distinct(pair_views(entries@)),
            },
    {
        let ghost keys = pair_views(entries@);
        let n = entries.len();
        let mut j: usize = 0;
        while j < n
            invariant
                j <= n,
                n == entries.len(),
                keys == pair_views(entries@),
                forall|a: int, b: int| 0 <= a < b < j ==> keys[a].0 != keys[b].0,
            decreases n - j,
        {
            let mut i: usize = 0;
            while i < j
                invariant
                    i <= j,
                    j < n,
                    n == entries.len(),
                    keys == pair_views(entries@),
                    forall|a: int| 0 <= a < i ==> keys[a].0 != keys[j as int].0,
                decreases j - i,
            {
                if entries[i].0 == entries[j].0 {
                    assert(keys[i as int].0 == keys[j as int].0);
                    return None;
                }
                i += 1;
            }
            j += 1;
        }
        Some(TypeTable { entries })
    }

    /// The low-level name for a source name, where the table has one. The
    /// table has at most one entry for the name, and that entry decides.
    pub fn map_type(&self, name: &str) -> (r: Option<String>)
        ensures
            match r {
                Some(low) => spec_lookup(self@, name@) == Some(low@) && self@.contains(
                    (name@, low@),
                ),
                None => spec_lookup(self@, name@) is None && forall|i: int|
                    0 <= i < self@.len() ==> (#[trigger] self@[i]).0 != name@,
            },
    {
        proof {
            lookup_finds_the_entry(self@, name@);
        }
        let wanted = String::from_str(name);
        let mut i: usize = 0;
        assert(self@.skip(0) == self@);
        while i < self.entries.len()
            invariant
                i <= self.entries.len(),
                wanted@ == name@,
                spec_lookup(self@, name@) == spec_lookup(self@.skip(i as int), name@),
            decreases self.entries.len() - i,
        {
            proof {
                let rest = self@.skip(i as int);
                assert(rest[0] == self@[i as int]);
                assert(rest.drop_first() == self@.skip(i + 1));
            }
            if self.entries[i].0 == wanted {
                return Some(self.entries[i].1.clone());
            }
            i += 1;
        }
        None
    }
}

/// A lookup that succeeds gives the low-level name of an entry for the
/// source name, and a lookup fails only where no entry has the name.
/// Where no source name has two entries, every entry is found.
pub proof fn lookup_finds_the_entry(entries: Entries, name: Seq<char>)
    ensures
        match spec_lookup(entries, name) {
            Some(low) => entries.contains((name, low)),
            None => forall|i: int| 0 <= i < entries.len() ==> (#[trigger] entries[i]).0 != name,
        },
        keys_distinct(entries) ==> forall|i: int|
            0 <= i < entries.len() && (#[trigger] entries[i]).0 == name ==> spec_lookup(
                entries,
                name,
            ) == Some(entries[i].1),
    decreases entries.len(),
{
    if entries.len() > 0 {
        let rest = entries.drop_first();
        lookup_finds_the_entry(rest, name);
        if entries[0].0 == name {
            assert(entries[0] == (name, entries[0].1));
        } else {
            match spec_lookup(rest, name) {
                Some(low) => {
                    let i = choose|i: int| 0 <= i < rest.len() && rest[i] == (name, low);
                    assert(entries[i + 1] == (name, low));
                },
                None => {
                    assert forall|i: int| 0 <= i < entries.len() implies (#[trigger] entries[i]).0
                        != name by {
                        if i > 0 {
                            assert(rest[i - 1] == entries[i]);
                        }
                    }
                },
            }
        }
        if keys_distinct(entries) {
            assert forall|a: int, b: int| 0 <= a < b < rest.len() implies rest[a].0
                != rest[b].0 by {
                assert(rest[a] == entries[a + 1]);
                assert(rest[b] == entries[b + 1]);
            }
            assert forall|i: int|
                0 <= i < entries.len() && (#[trigger] entries[i]).0 == name implies spec_lookup(
                entries,
                name,
            ) == Some(entries[i].1) by {
                if i > 0 {
                    assert(rest[i - 1] == entries[i]);
                    assert(entries[0].0 != entries[i].0);
                }
            }
        }
    }
}

/// The source names of the supported mapping are pairwise different.
pub proof fn standard_keys_distinct()
    ensures
        keys_distinct(standard_entries()),
{
    reveal_strlit("String");
    reveal_strlit("i8");
    reveal_strlit("i16");
    reveal_strlit("i32");
    reveal_strlit("i64");
    reveal_strlit("isize");
    reveal_strlit("u8");
    reveal_strlit("u16");
    reveal_strlit("u32");
    reveal_strlit("u64");
    reveal_strlit("usize");
    reveal_strlit("f32");
    reveal_strlit("f64");
    reveal_strlit("char");
    reveal_strlit("bool");
    let e = standard_entries();
    assert forall|i: int, j: int| 0 <= i < j < e.len() implies e[i].0 != e[j].0 by {
        let a = e[i].0;
        let b = e[j].0;
        if a.len() == b.len() {
            assert(a[0] != b[0] || a[1] != b[1] || a[2] != b[2]);
        }
    }
}

/// The declared type of a field as a low-level type name.
pub fn get_type(table: &TypeTable, ty: &TypeRef, variant: &str, field: &str) -> (r: Result<
    String,
    ConvertError,
>)
    ensures
        match r {
            Ok(low) => spec_get_type(table@, ty@, variant@, field@) == Ok::<
                Seq<char>,
                ConvertErrorView,
            >(low@),
            Err(e) => spec_get_type(table@, ty@, variant@, field@) == Err::<
                Seq<char>,
                ConvertErrorView,
            >(e@),
        },
{
    match ty {
        TypeRef::Scalar(name) => match table.map_type(name.as_str()) {
            Some(low) => Ok(low),
            None => Err(
                ConvertError::UnmappableType {
                    variant: String::from_str(variant),
                    field: String::from_str(field),
                    source_type: name.clone(),
                },
            ),
        },
        TypeRef::Compound(name) => Err(
            ConvertError::UnmappableType {
                variant: String::from_str(variant),
                field: String::from_str(field),
                source_type: name.clone(),
            },
        ),
        TypeRef::Structured => Err(
            ConvertError::UnsupportedType {
                variant: String::from_str(variant),
                field: String::from_str(field),
            },
        ),
    }
}

} // verus!
