//! Generation of `From` conversions into the variants of an annotated enum.
//!
//! A declaration is described by the plain values of [`syntax`]. From it,
//! [`derive`] computes one [`synthesize::ConversionRule`] for every type that
//! an `enum_from_variant` attribute of a variant names, and
//! [`synthesize::emit`] writes the rules out as source text. What holds of
//! every declaration is proved in [`laws`].

use vstd::prelude::*;
use crate::error::DeriveError;
use crate::extract::map_enum_data_from_variant;
use crate::generate::{derive_view, derived, representable, synthesize_all};
use crate::syntax::{Body, Declaration};
use crate::synthesize::ConversionRule;

pub mod classify;
pub mod error;
pub mod extract;
pub mod generate;
pub mod laws;
pub mod syntax;
pub mod synthesize;

verus! {

/// Generates the conversions into an enum that its variants' attributes ask
/// for: one rule for each named type, in declaration order.
///
/// Fails, with no rule at all, where the declaration is no enum, where an
/// `enum_from_variant` attribute is not a parenthesized list of one or more
/// string literals, where no variant has such an attribute, and where a list
/// names the empty string. The attributes of all variants are read before any
/// rule is made, so a failure in reading them comes first; empty names are
/// reported all together, each with its place.
pub fn derive(input: &Declaration) -> (result: Result<Vec<ConversionRule>, DeriveError>)
    ensures
        derive_view(result) == derived(input@),
        !(input@.body is Enum) ==> result is Err && result->Err_0 is NotAnEnum,
        result is Ok || (result is Err && result->Err_0 is EmptyTargetName) ==> representable(
            input@,
        ),
{
    match &input.body {
        Body::Enum(variants) => {
            match map_enum_data_from_variant(variants) {
                Ok(data) => synthesize_all(&input.name, &data),
                Err(e) => Err(e),
            }
        },
        _ => Err(DeriveError::NotAnEnum),
    }
}

} // verus!
