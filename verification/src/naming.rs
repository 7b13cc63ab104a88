//! The naming policy: every identifier of the output as a function of the
//! identifiers of the declaration. All of it is total.
use crate::text::{ascii_lower, ascii_upper, decimal, push_decimal, to_ascii_lower, to_ascii_upper};
use vstd::prelude::*;
use vstd::string::StringExecFns;

verus! {

/// The discriminant tag of a variant: both names in upper case, joined by
/// an underscore.
pub open spec fn spec_tag_identifier(decl: Seq<char>, variant: Seq<char>) -> Seq<char> {
    ascii_upper(decl) + "_"@ + ascii_upper(variant)
}

/// The name of a variant's member of the union: the variant's name in
/// lower case.
pub open spec fn spec_member_name(variant: Seq<char>) -> Seq<char> {
    ascii_lower(variant)
}

/// The identifier of the positional field at `position`, counted from zero.
pub open spec fn spec_positional_identifier(position: nat) -> Seq<char> {
    "t_"@ + decimal(position)
}

/// The name of the discriminant enumeration of a declaration.
pub open spec fn spec_tag_type_name(decl: Seq<char>) -> Seq<char> {
    decl + "Tag"@
}

pub fn tag_identifier(decl: &str, variant: &str) -> (r: String)
    ensures
        r@ == spec_tag_identifier(decl@, variant@),
{
    let mut out = to_ascii_upper(decl);
    out.append("_");
    let upper = to_ascii_upper(variant);
    out.append(upper.as_str());
    out
}

pub fn member_name(variant: &str) -> (r: String)
    ensures
        r@ == spec_member_name(variant@),
{
    to_ascii_lower(variant)
}

pub fn positional_identifier(position: usize) -> (r: String)
    ensures
        r@ == spec_positional_identifier(position as nat),
{
    let mut out = String::from_str("t_");
    push_decimal(&mut out, position);
    out
}

pub fn tag_type_name(decl: &str) -> (r: String)
    ensures
        r@ == spec_tag_type_name(decl@),
{
    let mut out = String::from_str(decl);
    out.append("Tag");
    out
}

} // verus!
