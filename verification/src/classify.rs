//! Classification of a variant's payload.

use vstd::prelude::*;
use crate::syntax::{FieldType, FieldTypeView, Fields, FieldsView};

verus! {

/// How a variant takes the value that is converted into it.
#[derive(Debug, Clone, Copy, PartialEq, Eq, Structural)]
pub enum PayloadShape {
    /// The first unnamed field is a type named `String`.
    StringLike,
    /// The first unnamed field is a type of any other name.
    Direct,
    /// There is no unnamed field with a named type.
    NoInner,
}

/// Model of an optional name.
pub open spec fn name_view(name: Option<String>) -> Option<Seq<char>> {
    match name {
        Some(s) => Some(s@),
        None => None,
    }
}

/// The identifier that a type's path begins with, if the type is a path.
pub open spec fn leading_ident(ty: FieldTypeView) -> Option<Seq<char>> {
    match ty {
        FieldTypeView::Path(segments) => if segments.len() > 0 {
            Some(segments[0])
        } else {
            None
        },
        FieldTypeView::Other => None,
    }
}

/// The identifier that names the type of the first unnamed field.
pub open spec fn unnamed_ident(fields: FieldsView) -> Option<Seq<char>> {
    match fields {
        FieldsView::Unnamed(types) => if types.len() > 0 {
            leading_ident(types[0])
        } else {
            None
        },
        _ => None,
    }
}

/// The shape that an inner identifier stands for.
pub open spec fn inner_ident_type(ident: Option<Seq<char>>) -> PayloadShape {
    match ident {
        Some(name) => if name == "String"@ {
            PayloadShape::StringLike
        } else {
            PayloadShape::Direct
        },
        None => PayloadShape::NoInner,
    }
}

/// The shape of a variant's payload.
pub open spec fn payload_shape(fields: FieldsView) -> PayloadShape {
    inner_ident_type(unnamed_ident(fields))
}

/// Returns the first identifier of the type of the first unnamed field, or
/// `None` where the payload has no unnamed field or that field's type is not
/// named by a path.
pub fn get_variant_unnamed_ident(fields: &Fields) -> (ident: Option<String>)
    ensures
        name_view(ident) == unnamed_ident(fields@),
{
    match fields {
        Fields::Unnamed(types) => {
            if types.len() == 0 {
                return None;
            }
            match &types[0] {
                FieldType::Path(segments) => {
                    if segments.len() == 0 {
                        return None;
                    }
                    Some(segments[0].clone())
                },
                FieldType::Other => None,
            }
        },
        _ => None,
    }
}

/// Classifies a payload by the identifier that names its inner type.
pub fn get_inner_ident_type(ident: &Option<String>) -> (shape: PayloadShape)
    ensures
        shape == inner_ident_type(name_view(*ident)),
{
    match ident {
        Some(name) => {
            let string = String::from_str("String");
            if *name == string {
                PayloadShape::StringLike
            } else {
                PayloadShape::Direct
            }
        },
        None => PayloadShape::NoInner,
    }
}

} // verus!
