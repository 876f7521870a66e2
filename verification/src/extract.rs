//! Extraction of conversion directives from the attributes of variants.

use vstd::prelude::*;
use crate::classify::{get_variant_unnamed_ident, name_view, unnamed_ident};
use crate::error::{DeriveError, DeriveErrorView, Location};
use crate::syntax::{
    variants_view, Attribute, AttributeBody, AttributeBodyView, AttributeView, ListItem,
    ListItemView, Variant, VariantView,
};

verus! {

/// One conversion directive: a type named in an `enum_from_variant` list,
/// with the variant that carries the list.
#[derive(Debug, Clone, PartialEq, Eq)]
pub struct MapEnumData {
    /// The variant's name.
    pub variant_ident: String,
    /// The value of the string literal that names the type.
    pub target: String,
    /// The identifier that names the type of the variant's first unnamed field.
    pub inner_ident: Option<String>,
    /// Where the literal stands.
    pub at: Location,
}

/// Mathematical model of a [`MapEnumData`].
pub struct MapEnumDataView {
    pub variant_ident: Seq<char>,
    pub target: Seq<char>,
    pub inner_ident: Option<Seq<char>>,
    pub at: Location,
}

impl View for MapEnumData {
    type V = MapEnumDataView;

    open spec fn view(&self) -> MapEnumDataView {
        MapEnumDataView {
            variant_ident: self.variant_ident@,
            target: self.target@,
            inner_ident: name_view(self.inner_ident),
            at: self.at,
        }
    }
}

/// Model of a vector of directives.
pub open spec fn data_view(data: Seq<MapEnumData>) -> Seq<MapEnumDataView> {
    data.map_values(|d: MapEnumData| d@)
}

/// Why a variant yields no directives.
#[derive(Debug, Clone, Copy, PartialEq, Eq, Structural)]
pub enum AttributeError {
    /// The attribute at this position is named `enum_from_variant` and is not
    /// a parenthesized list of one or more string literals.
    Malformed { attribute: usize },
    /// No attribute of the variant is named `enum_from_variant`.
    NotFound,
}

/// The name by which an attribute is recognized.
pub open spec fn marker() -> Seq<char> {
    "enum_from_variant"@
}

/// Whether an attribute carries the marker name.
pub open spec fn is_marker(attribute: AttributeView) -> bool {
    attribute.name == marker()
}

/// Whether a parsed attribute has the form that is asked of a marked one: a
/// parenthesized list of one or more entries, each a string literal.
pub open spec fn is_target_list(body: AttributeBodyView) -> bool {
    &&& body is List
    &&& body.entries().len() >= 1
    &&& forall|k: int| 0 <= k < body.entries().len() ==> (#[trigger] body.entries()[k]) is Literal
}

/// Whether an attribute carries the marker name without being a list of one
/// or more string literals.
pub open spec fn is_malformed(attribute: AttributeView) -> bool {
    is_marker(attribute) && !is_target_list(attribute.body)
}

/// Whether some attribute of the variant carries the marker name.
pub open spec fn has_marker(variant: VariantView) -> bool {
    exists|a: int| 0 <= a < variant.attributes.len() && is_marker(#[trigger] variant.attributes[a])
}

/// Whether the attributes of the variant, and the entries of each list among
/// them that carries the marker name, can be counted in a `usize`. So they
/// can in every variant whose attributes were read.
pub open spec fn countable(variant: VariantView) -> bool {
    &&& variant.attributes.len() <= usize::MAX
    &&& forall|a: int|
        0 <= a < variant.attributes.len() && is_marker(#[trigger] variant.attributes[a])
            ==> variant.attributes[a].body.entries().len() <= usize::MAX
}

/// Whether the variants can be counted in a `usize`, and each is countable.
pub open spec fn all_countable(variants: Seq<VariantView>) -> bool {
    &&& variants.len() <= usize::MAX
    &&& forall|i: int| 0 <= i < variants.len() ==> countable(#[trigger] variants[i])
}

/// The position of the first malformed attribute at or after `from`.
pub open spec fn first_malformed(attributes: Seq<AttributeView>, from: int) -> Option<int>
    decreases attributes.len() - from,
{
    if from < 0 || from >= attributes.len() {
        None
    } else if is_malformed(attributes[from]) {
        Some(from)
    } else {
        first_malformed(attributes, from + 1)
    }
}

/// The directives of a list of string literals, in list order, for the
/// variant that carries it and the place where it stands.
pub open spec fn list_data(
    variant_ident: Seq<char>,
    inner_ident: Option<Seq<char>>,
    items: Seq<ListItemView>,
    position: usize,
    attribute: usize,
) -> Seq<MapEnumDataView> {
    Seq::new(
        items.len(),
        |k: int|
            MapEnumDataView {
                variant_ident,
                target: items[k]->Literal_0,
                inner_ident,
                at: Location { variant: position, attribute, item: k as usize },
            },
    )
}

/// What a parsed attribute that carries the marker name yields: the
/// directives of its list, or the report that it is no list of one or more
/// string literals.
pub open spec fn marked_data(
    variant_ident: Seq<char>,
    inner_ident: Option<Seq<char>>,
    body: AttributeBodyView,
    position: usize,
    attribute: usize,
) -> Result<Seq<MapEnumDataView>, AttributeError> {
    if is_target_list(body) {
        Ok(list_data(variant_ident, inner_ident, body.entries(), position, attribute))
    } else {
        Err(AttributeError::Malformed { attribute })
    }
}

/// The directives of the attribute at position `a` of a variant, in list
/// order: none unless the attribute carries the marker name and is a list of
/// string literals.
pub open spec fn attribute_data(variant: VariantView, position: usize, a: int) -> Seq<
    MapEnumDataView,
> {
    if is_marker(variant.attributes[a]) && is_target_list(variant.attributes[a].body) {
        list_data(
            variant.name,
            unnamed_ident(variant.fields),
            variant.attributes[a].body.entries(),
            position,
            a as usize,
        )
    } else {
        Seq::empty()
    }
}

/// The directives of the first `n` attributes of a variant, in order.
pub open spec fn variant_data(variant: VariantView, position: usize, n: int) -> Seq<
    MapEnumDataView,
>
    decreases n,
{
    if n <= 0 {
        Seq::empty()
    } else {
        variant_data(variant, position, n - 1) + attribute_data(variant, position, n - 1)
    }
}

/// What a variant at a given position yields: the first malformed attribute
/// if there is one; else the directives of all its marked attributes, if it
/// has any.
pub open spec fn attributes(variant: VariantView, position: usize) -> Result<
    Seq<MapEnumDataView>,
    AttributeError,
> {
    match first_malformed(variant.attributes, 0) {
        Some(a) => Err(AttributeError::Malformed { attribute: a as usize }),
        None => if has_marker(variant) {
            Ok(variant_data(variant, position, variant.attributes.len() as int))
        } else {
            Err(AttributeError::NotFound)
        },
    }
}

/// Model of the result of [`get_attributes`].
pub open spec fn attributes_view(result: Result<Vec<MapEnumData>, AttributeError>) -> Result<
    Seq<MapEnumDataView>,
    AttributeError,
> {
    match result {
        Ok(data) => Ok(data_view(data@)),
        Err(e) => Err(e),
    }
}

/// A copy of an optional name.
fn copy_name(name: &Option<String>) -> (copy: Option<String>)
    ensures
        name_view(copy) == name_view(*name),
{
    match name {
        Some(value) => Some(value.clone()),
        None => None,
    }
}

/// Whether an attribute carries the marker name.
pub fn is_marked(attribute: &Attribute) -> (marked: bool)
    ensures
        marked == is_marker(attribute@),
{
    let name = String::from_str("enum_from_variant");
    attribute.name == name
}

/// Reads a parsed attribute that carries the marker name, for the variant of
/// the given name and inner identifier at `position`, whose attribute number
/// `attribute` it is.
///
/// A list of one or more string literals yields one directive for each, in
/// order, each with its place. Anything else is reported as malformed: what
/// is no list, an empty list, and a list with an entry that is no string
/// literal.
pub fn marked_entries(
    variant_ident: &String,
    inner_ident: &Option<String>,
    body: &AttributeBody,
    position: usize,
    attribute: usize,
) -> (result: Result<Vec<MapEnumData>, AttributeError>)
    ensures
        attributes_view(result) == marked_data(
            variant_ident@,
            name_view(*inner_ident),
            body@,
            position,
            attribute,
        ),
        body@.entries().len() <= usize::MAX,
{
    match body {
        AttributeBody::List(items) => {
            assert(body@.entries() == items@.map_values(|i: ListItem| i@));
            if items.len() == 0 {
                return Err(AttributeError::Malformed { attribute });
            }
            let ghost expected = list_data(
                variant_ident@,
                name_view(*inner_ident),
                body@.entries(),
                position,
                attribute,
            );
            let mut data: Vec<MapEnumData> = Vec::new();
            let mut k: usize = 0;
            while k < items.len()
                invariant
                    k <= items.len(),
                    body@.entries() == items@.map_values(|i: ListItem| i@),
                    expected == list_data(
                        variant_ident@,
                        name_view(*inner_ident),
                        body@.entries(),
                        position,
                        attribute,
                    ),
                    forall|j: int| 0 <= j < k ==> (#[trigger] body@.entries()[j]) is Literal,
                    data_view(data@) == expected.subrange(0, k as int),
                decreases items.len() - k,
            {
                match &items[k] {
                    ListItem::Literal(target) => {
                        let entry = MapEnumData {
                            variant_ident: variant_ident.clone(),
                            target: target.clone(),
                            inner_ident: copy_name(inner_ident),
                            at: Location { variant: position, attribute, item: k },
                        };
                        proof {
                            assert(body@.entries()[k as int] == items@[k as int]@);
                            assert(data_view(data@.push(entry)) =~= data_view(data@).push(entry@));
                        }
                        data.push(entry);
                    },
                    ListItem::Other => {
                        assert(body@.entries()[k as int] == items@[k as int]@);
                        return Err(AttributeError::Malformed { attribute });
                    },
                }
                k += 1;
            }
            assert(expected.subrange(0, k as int) =~= expected);
            Ok(data)
        },
        _ => Err(AttributeError::Malformed { attribute }),
    }
}

/// Reads the `enum_from_variant` attributes of the variant that stands at
/// `position` in its enum.
///
/// Only attributes of that name are read. Every one of them must be a
/// parenthesized list of one or more string literals: the first one that is
/// not is reported. Otherwise the directives of all of them are returned in
/// order, each with its place and with the variant's name and inner
/// identifier; a variant without such an attribute is reported as
/// [`AttributeError::NotFound`].
pub fn get_attributes(variant: &Variant, position: usize) -> (result: Result<
    Vec<MapEnumData>,
    AttributeError,
>)
    ensures
        attributes_view(result) == attributes(variant@, position),
        !(result is Err && result->Err_0 is Malformed) ==> countable(variant@),
{
    let inner_ident = get_variant_unnamed_ident(&variant.fields);
    let mut data: Vec<MapEnumData> = Vec::new();
    let mut found = false;
    let mut a: usize = 0;
    while a < variant.attributes.len()
        invariant
            a <= variant.attributes.len(),
            name_view(inner_ident) == unnamed_ident(variant@.fields),
            first_malformed(variant@.attributes, 0) == first_malformed(
                variant@.attributes,
                a as int,
            ),
            found <==> exists|b: int| 0 <= b < a && is_marker(#[trigger] variant@.attributes[b]),
            forall|b: int|
                0 <= b < a && is_marker(#[trigger] variant@.attributes[b])
                    ==> variant@.attributes[b].body.entries().len() <= usize::MAX,
            data_view(data@) == variant_data(variant@, position, a as int),
        decreases variant.attributes.len() - a,
    {
        let attribute = &variant.attributes[a];
        assert(variant@.attributes[a as int] == attribute@);
        if is_marked(attribute) {
            match marked_entries(&variant.name, &inner_ident, &attribute.body, position, a) {
                Ok(mut entries) => {
                    found = true;
                    assert(data_view(data@ + entries@) =~= data_view(data@) + data_view(entries@));
                    data.append(&mut entries);
                },
                Err(e) => {
                    return Err(e);
                },
            }
        }
        a += 1;
    }
    if found {
        Ok(data)
    } else {
        Err(AttributeError::NotFound)
    }
}

/// The position of the first variant at or after `from` that has a malformed
/// attribute.
pub open spec fn first_malformed_variant(variants: Seq<VariantView>, from: int) -> Option<int>
    decreases variants.len() - from,
{
    if from < 0 || from >= variants.len() {
        None
    } else if first_malformed(variants[from].attributes, 0) is Some {
        Some(from)
    } else {
        first_malformed_variant(variants, from + 1)
    }
}

/// Whether some variant has an attribute that carries the marker name.
pub open spec fn any_marker(variants: Seq<VariantView>) -> bool {
    exists|i: int| 0 <= i < variants.len() && has_marker(#[trigger] variants[i])
}

/// The directives of the first `n` variants, in declaration order. A variant
/// that yields none adds nothing.
pub open spec fn collected(variants: Seq<VariantView>, n: int) -> Seq<MapEnumDataView>
    decreases n,
{
    if n <= 0 {
        Seq::empty()
    } else {
        collected(variants, n - 1) + match attributes(variants[n - 1], (n - 1) as usize) {
            Ok(data) => data,
            Err(_) => Seq::empty(),
        }
    }
}

/// What the variants of an enum yield: the first malformed attribute of the
/// first variant that has one; else the directives of all variants, if any
/// variant has a marked attribute.
pub open spec fn enum_data(variants: Seq<VariantView>) -> Result<
    Seq<MapEnumDataView>,
    DeriveErrorView,
> {
    match first_malformed_variant(variants, 0) {
        Some(i) => Err(
            DeriveErrorView::MalformedAttribute {
                variant: i as usize,
                attribute: first_malformed(variants[i].attributes, 0)->0 as usize,
            },
        ),
        None => if any_marker(variants) {
            Ok(collected(variants, variants.len() as int))
        } else {
            Err(DeriveErrorView::AttributeNotFound)
        },
    }
}

/// Model of the result of [`map_enum_data_from_variant`].
pub open spec fn enum_data_view(result: Result<Vec<MapEnumData>, DeriveError>) -> Result<
    Seq<MapEnumDataView>,
    DeriveErrorView,
> {
    match result {
        Ok(data) => Ok(data_view(data@)),
        Err(e) => Err(e@),
    }
}

/// Reads the `enum_from_variant` attributes of all variants, in declaration
/// order.
///
/// A malformed attribute fails the whole enum, and so does an enum none of
/// whose variants has such an attribute. A single variant without one adds
/// nothing and is no error.
pub fn map_enum_data_from_variant(variants: &Vec<Variant>) -> (result: Result<
    Vec<MapEnumData>,
    DeriveError,
>)
    ensures
        enum_data_view(result) == enum_data(variants_view(variants@)),
        result is Ok ==> all_countable(variants_view(variants@)),
{
    let ghost model = variants_view(variants@);
    let mut data: Vec<MapEnumData> = Vec::new();
    let mut found = false;
    let mut i: usize = 0;
    while i < variants.len()
        invariant
            i <= variants.len(),
            model == variants_view(variants@),
            first_malformed_variant(model, 0) == first_malformed_variant(model, i as int),
            found <==> exists|j: int| 0 <= j < i && has_marker(#[trigger] model[j]),
            forall|j: int| 0 <= j < i ==> countable(#[trigger] model[j]),
            data_view(data@) == collected(model, i as int),
        decreases variants.len() - i,
    {
        assert(model[i as int] == variants@[i as int]@);
        match get_attributes(&variants[i], i) {
            Ok(mut entries) => {
                found = true;
                assert(data_view(data@ + entries@) =~= data_view(data@) + data_view(entries@));
                data.append(&mut entries);
            },
            Err(AttributeError::Malformed { attribute }) => {
                return Err(DeriveError::MalformedAttribute { variant: i, attribute });
            },
            Err(AttributeError::NotFound) => {},
        }
        i += 1;
    }
    if found {
        Ok(data)
    } else {
        Err(DeriveError::AttributeNotFound)
    }
}

} // verus!
