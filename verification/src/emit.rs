//! The emitter: assembles the discriminant enumeration and the tagged
//! structure into one block of text. It decides nothing.
use crate::lower::{lowered_views, LoweredVariant, LoweredView};
use crate::naming::{spec_tag_type_name, tag_type_name};
use crate::text::{join, join_text, views};
use vstd::prelude::*;
use vstd::string::StringExecFns;

verus! {

/// The discriminant tags of the lowered variants, in order.
pub open spec fn spec_tags(lowered: Seq<LoweredView>) -> Seq<Seq<char>> {
    Seq::new(lowered.len(), |i: int| lowered[i].tag)
}

/// The declaration of one member of the union: its type, then its name.
pub open spec fn spec_union_member(lowered: LoweredView) -> Seq<char> {
    lowered.payload + " "@ + lowered.member + ";"@
}

/// The declarations of the members of the union, in order.
pub open spec fn spec_union_members(lowered: Seq<LoweredView>) -> Seq<Seq<char>> {
    Seq::new(lowered.len(), |i: int| spec_union_member(lowered[i]))
}

/// What every output starts with: the headers of the fixed-width integer
/// and boolean types, and the definition of the placeholder type.
pub open spec fn spec_preamble() -> Seq<char> {
    "#include <stdint.h>\n        #include <stdbool.h>\n        typedef uint8_t empty;"@
}

/// The discriminant enumeration: the tags in order, separated by commas.
pub open spec fn spec_tag_enumeration(decl: Seq<char>, tags: Seq<Seq<char>>) -> Seq<char> {
    "enum "@ + spec_tag_type_name(decl) + " { "@ + join(tags, ", "@) + " };"@
}

/// The tagged structure: the discriminant, then the union of the members.
pub open spec fn spec_tagged_struct(decl: Seq<char>, members: Seq<Seq<char>>) -> Seq<char> {
    "struct "@ + decl + " {\n            enum "@ + spec_tag_type_name(decl)
        + " variant;\n            union { "@ + join(members, "\n"@)
        + "\n            };\n        };"@
}

/// The whole output for the declaration named `decl`.
pub open spec fn spec_emit(decl: Seq<char>, lowered: Seq<LoweredView>) -> Seq<char> {
    spec_preamble() + "\n\n        "@ + spec_tag_enumeration(decl, spec_tags(lowered))
        + "\n\n        "@ + spec_tagged_struct(decl, spec_union_members(lowered)) + "\n        "@
}

/// Writes the discriminant enumeration of the declaration named `decl`.
pub fn tag_enumeration(decl: &str, lowered: &Vec<LoweredVariant>) -> (r: String)
    ensures
        r@ == spec_tag_enumeration(decl@, spec_tags(lowered_views(lowered@))),
{
    let ghost tags = spec_tags(lowered_views(lowered@));
    let mut names: Vec<String> = Vec::new();
    let mut i: usize = 0;
    while i < lowered.len()
        invariant
            i <= lowered.len(),
            tags == spec_tags(lowered_views(lowered@)),
            views(names@) == tags.take(i as int),
        decreases lowered.len() - i,
    {
        let ghost before = views(names@);
        let name = lowered[i].tag.clone();
        names.push(name);
        assert(views(names@) == before.push(name@));
        assert(tags.take(i + 1) == tags.take(i as int).push(name@));
        i += 1;
    }
    assert(tags.take(i as int) == tags);
    let list = join_text(&names, ", ");
    let tag_type = tag_type_name(decl);
    let mut out = String::from_str("enum ");
    out.append(tag_type.as_str());
    out.append(" { ");
    out.append(list.as_str());
    out.append(" };");
    out
}

/// Writes the tagged structure of the declaration named `decl`.
pub fn tagged_struct(decl: &str, lowered: &Vec<LoweredVariant>) -> (r: String)
    ensures
        r@ == spec_tagged_struct(decl@, spec_union_members(lowered_views(lowered@))),
{
    let ghost members = spec_union_members(lowered_views(lowered@));
    let mut lines: Vec<String> = Vec::new();
    let mut i: usize = 0;
    while i < lowered.len()
        invariant
            i <= lowered.len(),
            members == spec_union_members(lowered_views(lowered@)),
            views(lines@) == members.take(i as int),
        decreases lowered.len() - i,
    {
        let ghost before = views(lines@);
        let mut line = lowered[i].payload.clone();
        line.append(" ");
        line.append(lowered[i].member.as_str());
        line.append(";");
        lines.push(line);
        assert(views(lines@) == before.push(line@));
        assert(members.take(i + 1) == members.take(i as int).push(line@));
        i += 1;
    }
    assert(members.take(i as int) == members);
    let body = join_text(&lines, "\n");
    let tag_type = tag_type_name(decl);
    let mut out = String::from_str("struct ");
    out.append(decl);
    out.append(" {\n            enum ");
    out.append(tag_type.as_str());
    out.append(" variant;\n            union { ");
    out.append(body.as_str());
    out.append("\n            };\n        };");
    out
}

/// Writes the whole output for the declaration named `decl`: the
/// preamble, the discriminant enumeration, the tagged structure.
pub fn emit(decl: &str, lowered: &Vec<LoweredVariant>) -> (r: String)
    ensures
        r@ == spec_emit(decl@, lowered_views(lowered@)),
{
    let enumeration = tag_enumeration(decl, lowered);
    let structure = tagged_struct(decl, lowered);
    let mut out = String::from_str(
        "#include <stdint.h>\n        #include <stdbool.h>\n        typedef uint8_t empty;",
    );
    out.append("\n\n        ");
    out.append(enumeration.as_str());
    out.append("\n\n        ");
    out.append(structure.as_str());
    out.append("\n        ");
    out
}

} // verus!
