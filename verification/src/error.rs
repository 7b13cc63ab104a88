//! The ways in which a conversion ends without output.
use vstd::prelude::*;
use vstd::string::StringExecFns;

verus! {

/// Why a conversion was abandoned. Every error is final: no partial
/// output accompanies it.
#[derive(Clone, Debug, PartialEq, Eq)]
pub enum ConvertError {
    /// The input holds no tagged-union declaration.
    NoDeclarationFound,
    /// The parser rejected the input; `message` is its diagnostic.
    ParseFailure { message: String },
    /// The type of a field is named, and has no low-level equivalent: a
    /// plain name outside the mapping table, a path of several segments,
    /// or a generic type.
    UnmappableType { variant: String, field: String, source_type: String },
    /// The type of a field is not a named type at all.
    UnsupportedType { variant: String, field: String },
}

pub enum ConvertErrorView {
    NoDeclarationFound,
    ParseFailure { message: Seq<char> },
    UnmappableType { variant: Seq<char>, field: Seq<char>, source_type: Seq<char> },
    UnsupportedType { variant: Seq<char>, field: Seq<char> },
}

impl View for ConvertError {
    type V = ConvertErrorView;

    open spec fn view(&self) -> ConvertErrorView {
        match self {
            ConvertError::NoDeclarationFound => ConvertErrorView::NoDeclarationFound,
            ConvertError::ParseFailure { message } => ConvertErrorView::ParseFailure {
                message: message@,
            },
            ConvertError::UnmappableType { variant, field, source_type } => {
                ConvertErrorView::UnmappableType {
                    variant: variant@,
                    field: field@,
                    source_type: source_type@,
                }
            },
            ConvertError::UnsupportedType { variant, field } => ConvertErrorView::UnsupportedType {
                variant: variant@,
                field: field@,
            },
        }
    }
}

/// An error in words, for a person to read.
pub open spec fn spec_message(e: ConvertErrorView) -> Seq<char> {
    match e {
        ConvertErrorView::NoDeclarationFound => "no tagged-union declaration found in the input"@,
        ConvertErrorView::ParseFailure { message } => "the input does not parse: "@ + message,
        ConvertErrorView::UnmappableType { variant, field, source_type } => "Rust type '"@
            + source_type + "' cannot be mapped to a C type (field "@ + field + " of variant "@
            + variant + ")"@,
        ConvertErrorView::UnsupportedType { variant, field } => "the type of field "@ + field
            + " of variant "@ + variant + " is not a named type"@,
    }
}

impl ConvertError {
    /// The error in words: which stage failed, and on which identifier.
    pub fn message(&self) -> (r: String)
        ensures
            r@ == spec_message(self@),
    {
        match self {
            ConvertError::NoDeclarationFound => String::from_str(
                "no tagged-union declaration found in the input",
            ),
            ConvertError::ParseFailure { message } => {
                let mut out = String::from_str("the input does not parse: ");
                out.append(message.as_str());
                out
            },
            ConvertError::UnmappableType { variant, field, source_type } => {
                let mut out = String::from_str("Rust type '");
                out.append(source_type.as_str());
                out.append("' cannot be mapped to a C type (field ");
                out.append(field.as_str());
                out.append(" of variant ");
                out.append(variant.as_str());
                out.append(")");
                out
            },
            ConvertError::UnsupportedType { variant, field } => {
                let mut out = String::from_str("the type of field ");
                out.append(field.as_str());
                out.append(" of variant ");
                out.append(variant.as_str());
                out.append(" is not a named type");
                out
            },
        }
    }
}

} // verus!
