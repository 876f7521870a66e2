//! Where in a declaration something was found, and why generation fails.

use vstd::prelude::*;

verus! {

/// The place of one list entry in an enum: the variant's position among the
/// variants, the attribute's position among the variant's attributes, and the
/// entry's position in the attribute's list.
#[derive(Debug, Clone, Copy, PartialEq, Eq, Structural)]
pub struct Location {
    pub variant: usize,
    pub attribute: usize,
    pub item: usize,
}

impl Location {
    /// Whether this place comes before `other` in the declaration: in an
    /// earlier variant; or in the same variant, in an earlier attribute; or
    /// in the same attribute, earlier in its list.
    pub open spec fn precedes(self, other: Location) -> bool {
        ||| self.variant < other.variant
        ||| self.variant == other.variant && self.attribute < other.attribute
        ||| self.variant == other.variant && self.attribute == other.attribute && self.item
            < other.item
    }
}

/// Why no conversion is generated for a declaration.
#[derive(Debug, Clone, PartialEq, Eq)]
pub enum DeriveError {
    /// The declaration is not an enum.
    NotAnEnum,
    /// An `enum_from_variant` attribute is not a parenthesized list of one or
    /// more string literals. The fields give the variant's and the
    /// attribute's position.
    MalformedAttribute { variant: usize, attribute: usize },
    /// No variant of the enum has an `enum_from_variant` attribute.
    AttributeNotFound,
    /// Conversion targets are the empty string: the places of all of them,
    /// in declaration order.
    EmptyTargetName { at: Vec<Location> },
}

/// Mathematical model of a [`DeriveError`].
pub enum DeriveErrorView {
    NotAnEnum,
    MalformedAttribute { variant: usize, attribute: usize },
    AttributeNotFound,
    EmptyTargetName { at: Seq<Location> },
}

impl View for DeriveError {
    type V = DeriveErrorView;

    open spec fn view(&self) -> DeriveErrorView {
        match self {
            DeriveError::NotAnEnum => DeriveErrorView::NotAnEnum,
            DeriveError::MalformedAttribute { variant, attribute } => {
                DeriveErrorView::MalformedAttribute { variant: *variant, attribute: *attribute }
            },
            DeriveError::AttributeNotFound => DeriveErrorView::AttributeNotFound,
            DeriveError::EmptyTargetName { at } => DeriveErrorView::EmptyTargetName { at: at@ },
        }
    }
}

/// The text of the diagnostic for an error.
pub open spec fn message_text(error: DeriveErrorView) -> Seq<char> {
    match error {
        DeriveErrorView::NotAnEnum => "Couldn't fetch variants"@,
        DeriveErrorView::MalformedAttribute { .. } => "expected #[enum_from_variant(..)]"@,
        DeriveErrorView::AttributeNotFound => "attribute not found"@,
        DeriveErrorView::EmptyTargetName { .. } => "expected this to take a type name"@,
    }
}

impl DeriveError {
    /// The diagnostic that reports this error. An empty target name is
    /// reported with this text at each of its places.
    pub fn message(&self) -> (text: String)
        ensures
            text@ == message_text(self@),
    {
        match self {
            DeriveError::NotAnEnum => String::from_str("Couldn't fetch variants"),
            DeriveError::MalformedAttribute { .. } => String::from_str(
                "expected #[enum_from_variant(..)]",
            ),
            DeriveError::AttributeNotFound => String::from_str("attribute not found"),
            DeriveError::EmptyTargetName { .. } => String::from_str(
                "expected this to take a type name",
            ),
        }
    }
}

} // verus!
