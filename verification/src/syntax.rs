//! The shape of a type declaration, as far as generation reads it.

use vstd::prelude::*;

verus! {

/// One entry of an attribute's parenthesized list.
#[derive(Debug, Clone, PartialEq, Eq)]
pub enum ListItem {
    /// A string literal, held by its value.
    Literal(String),
    /// Anything else: another kind of literal, or nested metadata.
    Other,
}

/// Mathematical model of a [`ListItem`].
pub enum ListItemView {
    Literal(Seq<char>),
    Other,
}

impl View for ListItem {
    type V = ListItemView;

    open spec fn view(&self) -> ListItemView {
        match self {
            ListItem::Literal(s) => ListItemView::Literal(s@),
            ListItem::Other => ListItemView::Other,
        }
    }
}

/// What an attribute is when parsed as structured metadata.
#[derive(Debug, Clone, PartialEq, Eq)]
pub enum AttributeBody {
    /// Nothing: `#[name]`.
    Word,
    /// A parenthesized list: `#[name(a, b)]`.
    List(Vec<ListItem>),
    /// A value: `#[name = value]`.
    NameValue,
    /// Tokens that are none of the three.
    Unparsed,
}

/// Mathematical model of an [`AttributeBody`].
pub enum AttributeBodyView {
    Word,
    List(Seq<ListItemView>),
    NameValue,
    Unparsed,
}

impl View for AttributeBody {
    type V = AttributeBodyView;

    open spec fn view(&self) -> AttributeBodyView {
        match self {
            AttributeBody::Word => AttributeBodyView::Word,
            AttributeBody::List(items) => AttributeBodyView::List(
                items@.map_values(|i: ListItem| i@),
            ),
            AttributeBody::NameValue => AttributeBodyView::NameValue,
            AttributeBody::Unparsed => AttributeBodyView::Unparsed,
        }
    }
}

/// An attribute attached to a variant: `#[name ...]`.
#[derive(Debug, Clone, PartialEq, Eq)]
pub struct Attribute {
    /// The attribute's path, such as `enum_from_variant`.
    pub name: String,
    /// What the attribute is when parsed as structured metadata.
    pub body: AttributeBody,
}

/// Mathematical model of an [`Attribute`].
pub struct AttributeView {
    pub name: Seq<char>,
    pub body: AttributeBodyView,
}

impl View for Attribute {
    type V = AttributeView;

    open spec fn view(&self) -> AttributeView {
        AttributeView { name: self.name@, body: self.body@ }
    }
}

/// The declared type of a field.
#[derive(Debug, Clone, PartialEq, Eq)]
pub enum FieldType {
    /// A type named by a path, held as the identifiers of its segments in
    /// order: `std::io::Error` is `["std", "io", "Error"]`.
    Path(Vec<String>),
    /// Any other type: a reference, a tuple, an array and so on.
    Other,
}

/// Mathematical model of a [`FieldType`].
pub enum FieldTypeView {
    Path(Seq<Seq<char>>),
    Other,
}

impl View for FieldType {
    type V = FieldTypeView;

    open spec fn view(&self) -> FieldTypeView {
        match self {
            FieldType::Path(segments) => FieldTypeView::Path(
                segments@.map_values(|s: String| s@),
            ),
            FieldType::Other => FieldTypeView::Other,
        }
    }
}

/// The payload of a variant.
#[derive(Debug, Clone, PartialEq, Eq)]
pub enum Fields {
    /// No payload: `V`.
    Unit,
    /// Unnamed fields, by their types in order: `V(A, B)`.
    Unnamed(Vec<FieldType>),
    /// Named fields: `V { a: A }`.
    Named,
}

/// Mathematical model of [`Fields`].
pub enum FieldsView {
    Unit,
    Unnamed(Seq<FieldTypeView>),
    Named,
}

impl View for Fields {
    type V = FieldsView;

    open spec fn view(&self) -> FieldsView {
        match self {
            Fields::Unit => FieldsView::Unit,
            Fields::Unnamed(types) => FieldsView::Unnamed(types@.map_values(|t: FieldType| t@)),
            Fields::Named => FieldsView::Named,
        }
    }
}

/// One case of an enum.
#[derive(Debug, Clone, PartialEq, Eq)]
pub struct Variant {
    pub name: String,
    pub attributes: Vec<Attribute>,
    pub fields: Fields,
}

/// Mathematical model of a [`Variant`].
pub struct VariantView {
    pub name: Seq<char>,
    pub attributes: Seq<AttributeView>,
    pub fields: FieldsView,
}

impl View for Variant {
    type V = VariantView;

    open spec fn view(&self) -> VariantView {
        VariantView {
            name: self.name@,
            attributes: self.attributes@.map_values(|a: Attribute| a@),
            fields: self.fields@,
        }
    }
}

/// Model of a sequence of variants.
pub open spec fn variants_view(variants: Seq<Variant>) -> Seq<VariantView> {
    variants.map_values(|v: Variant| v@)
}

/// What kind of type a declaration introduces.
#[derive(Debug, Clone, PartialEq, Eq)]
pub enum Body {
    Struct,
    /// An enum, with its variants in declaration order.
    Enum(Vec<Variant>),
    Union,
}

/// Mathematical model of a [`Body`].
pub enum BodyView {
    Struct,
    Enum(Seq<VariantView>),
    Union,
}

impl View for Body {
    type V = BodyView;

    open spec fn view(&self) -> BodyView {
        match self {
            Body::Struct => BodyView::Struct,
            Body::Enum(variants) => BodyView::Enum(variants_view(variants@)),
            Body::Union => BodyView::Union,
        }
    }
}

/// A named type declaration.
#[derive(Debug, Clone, PartialEq, Eq)]
pub struct Declaration {
    pub name: String,
    pub body: Body,
}

/// Mathematical model of a [`Declaration`].
pub struct DeclarationView {
    pub name: Seq<char>,
    pub body: BodyView,
}

impl View for Declaration {
    type V = DeclarationView;

    open spec fn view(&self) -> DeclarationView {
        DeclarationView { name: self.name@, body: self.body@ }
    }
}

impl AttributeBodyView {
    /// The entries of a list; of anything else, none.
    pub open spec fn entries(self) -> Seq<ListItemView> {
        match self {
            AttributeBodyView::List(items) => items,
            _ => Seq::empty(),
        }
    }
}

} // verus!
