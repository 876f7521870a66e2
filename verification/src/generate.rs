//! What is generated for a whole declaration.

use vstd::prelude::*;
use crate::error::{DeriveError, DeriveErrorView, Location};
use crate::extract::{all_countable, data_view, enum_data, MapEnumData, MapEnumDataView};
use crate::synthesize::{
    rule_for, rules_view, synthesize, ConversionRule, ConversionRuleView,
};
use crate::syntax::{BodyView, DeclarationView};

verus! {

/// The places of the directives among the first `n` that name the empty
/// string, in order.
pub open spec fn empty_places(data: Seq<MapEnumDataView>, n: int) -> Seq<Location>
    decreases n,
{
    if n <= 0 {
        Seq::empty()
    } else {
        empty_places(data, n - 1) + if data[n - 1].target.len() == 0 {
            seq![data[n - 1].at]
        } else {
            Seq::empty()
        }
    }
}

/// The rules that the first `n` directives give rise to, in order. A
/// directive that names the empty string adds nothing.
pub open spec fn rules(enum_name: Seq<char>, data: Seq<MapEnumDataView>, n: int) -> Seq<
    ConversionRuleView,
>
    decreases n,
{
    if n <= 0 {
        Seq::empty()
    } else {
        rules(enum_name, data, n - 1) + match rule_for(enum_name, data[n - 1]) {
            Ok(rule) => seq![rule],
            Err(_) => Seq::empty(),
        }
    }
}

/// What the directives of an enum give rise to: if any names the empty
/// string, the places of all that do; else the rules of all, in order.
pub open spec fn synthesized(enum_name: Seq<char>, data: Seq<MapEnumDataView>) -> Result<
    Seq<ConversionRuleView>,
    DeriveErrorView,
> {
    if empty_places(data, data.len() as int).len() > 0 {
        Err(DeriveErrorView::EmptyTargetName { at: empty_places(data, data.len() as int) })
    } else {
        Ok(rules(enum_name, data, data.len() as int))
    }
}

/// What is generated for a declaration.
///
/// Anything but an enum is refused. The attributes of all variants are read
/// first, and what fails there fails the generation; only then are the
/// directives turned into rules, in the order in which they were read.
pub open spec fn derived(input: DeclarationView) -> Result<
    Seq<ConversionRuleView>,
    DeriveErrorView,
> {
    match input.body {
        BodyView::Enum(variants) => match enum_data(variants) {
            Ok(data) => synthesized(input.name, data),
            Err(e) => Err(e),
        },
        _ => Err(DeriveErrorView::NotAnEnum),
    }
}

/// Whether, in an enum, each sequence that generation goes through can be
/// counted in a `usize`. So it can in every declaration for which rules were
/// generated.
pub open spec fn representable(input: DeclarationView) -> bool {
    input.body matches BodyView::Enum(variants) ==> all_countable(variants)
}

/// Model of the result of [`synthesize_all`] and of generation as a whole.
pub open spec fn derive_view(result: Result<Vec<ConversionRule>, DeriveError>) -> Result<
    Seq<ConversionRuleView>,
    DeriveErrorView,
> {
    match result {
        Ok(rules) => Ok(rules_view(rules@)),
        Err(e) => Err(e@),
    }
}

/// Turns the directives of an enum into rules, in order.
///
/// Every directive is looked at, also after one has failed: where some name
/// the empty string, the places of all of them are reported, in order, and
/// no rule is returned.
pub fn synthesize_all(enum_name: &String, data: &Vec<MapEnumData>) -> (result: Result<
    Vec<ConversionRule>,
    DeriveError,
>)
    ensures
        derive_view(result) == synthesized(enum_name@, data_view(data@)),
{
    let mut generated: Vec<ConversionRule> = Vec::new();
    let mut empty: Vec<Location> = Vec::new();
    let mut k: usize = 0;
    while k < data.len()
        invariant
            k <= data.len(),
            rules_view(generated@) == rules(enum_name@, data_view(data@), k as int),
            empty@ == empty_places(data_view(data@), k as int),
        decreases data.len() - k,
    {
        assert(data_view(data@)[k as int] == data@[k as int]@);
        match synthesize(enum_name, &data[k]) {
            Ok(rule) => {
                assert(rules_view(generated@.push(rule)) =~= rules_view(generated@).push(rule@));
                generated.push(rule);
            },
            Err(at) => {
                empty.push(at);
            },
        }
        k += 1;
    }
    if empty.len() > 0 {
        Err(DeriveError::EmptyTargetName { at: empty })
    } else {
        Ok(generated)
    }
}

} // verus!
