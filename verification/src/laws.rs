//! What holds of the generation for every declaration.

use vstd::prelude::*;
use crate::classify::{payload_shape, unnamed_ident, PayloadShape};
use crate::error::{DeriveErrorView, Location};
use crate::extract::{
    all_countable, any_marker, attribute_data, attributes, collected, countable, enum_data,
    first_malformed, first_malformed_variant, has_marker, is_malformed, is_marker,
    is_target_list, variant_data, MapEnumDataView,
};
use crate::generate::{derived, empty_places, representable, rules};
use crate::synthesize::{body_for, rule_for, ConversionBody, ConversionRuleView};
use crate::syntax::{AttributeView, DeclarationView, ListItemView, VariantView};

verus! {

/// Whether a directive is what the variant at `position` holds at the place
/// that the directive names: a string literal in a list of string literals
/// that carries the marker name, together with the variant's name and inner
/// identifier.
pub open spec fn read_from(variant: VariantView, position: usize, entry: MapEnumDataView) -> bool {
    &&& entry.variant_ident == variant.name
    &&& entry.inner_ident == unnamed_ident(variant.fields)
    &&& entry.at.variant == position
    &&& entry.at.attribute < variant.attributes.len()
    &&& is_marker(variant.attributes[entry.at.attribute as int])
    &&& is_target_list(variant.attributes[entry.at.attribute as int].body)
    &&& entry.at.item < variant.attributes[entry.at.attribute as int].body.entries().len()
    &&& variant.attributes[entry.at.attribute as int].body.entries()[entry.at.item as int]
        == ListItemView::Literal(entry.target)
}

/// Every directive read from the first `n` attributes of a variant stands in
/// one of them.
proof fn lemma_variant_data_origin(variant: VariantView, position: usize, n: int)
    requires
        0 <= n <= variant.attributes.len(),
        countable(variant),
    ensures
        forall|k: int|
            0 <= k < variant_data(variant, position, n).len() ==> {
                let entry = #[trigger] variant_data(variant, position, n)[k];
                read_from(variant, position, entry) && entry.at.attribute < n
            },
    decreases n,
{
    if n > 0 {
        lemma_variant_data_origin(variant, position, n - 1);
        let before = variant_data(variant, position, n - 1);
        let added = attribute_data(variant, position, n - 1);
        assert forall|k: int| 0 <= k < variant_data(variant, position, n).len() implies {
            let entry = #[trigger] variant_data(variant, position, n)[k];
            read_from(variant, position, entry) && entry.at.attribute < n
        } by {
            if k >= before.len() {
                let item = k - before.len();
                assert(variant_data(variant, position, n)[k] == added[item]);
                assert(variant.attributes[n - 1].body.entries()[item] is Literal);
            }
        }
    }
}

/// Every directive collected from the first `n` variants stands in one of
/// them.
proof fn lemma_collected_origin(variants: Seq<VariantView>, n: int)
    requires
        0 <= n <= variants.len(),
        all_countable(variants),
    ensures
        forall|k: int|
            0 <= k < collected(variants, n).len() ==> {
                let entry = #[trigger] collected(variants, n)[k];
                &&& entry.at.variant < n
                &&& read_from(variants[entry.at.variant as int], entry.at.variant, entry)
            },
    decreases n,
{
    if n > 0 {
        lemma_collected_origin(variants, n - 1);
        let variant = variants[n - 1];
        lemma_variant_data_origin(variant, (n - 1) as usize, variant.attributes.len() as int);
    }
}

/// Every rule made from the first `n` directives is the rule of one of them.
proof fn lemma_rules_origin(enum_name: Seq<char>, data: Seq<MapEnumDataView>, n: int)
    requires
        0 <= n <= data.len(),
    ensures
        forall|j: int|
            0 <= j < rules(enum_name, data, n).len() ==> exists|k: int|
                0 <= k < n && rule_for(enum_name, #[trigger] data[k]) == Ok::<
                    ConversionRuleView,
                    Location,
                >(#[trigger] rules(enum_name, data, n)[j]),
    decreases n,
{
    if n > 0 {
        lemma_rules_origin(enum_name, data, n - 1);
        let before = rules(enum_name, data, n - 1);
        assert forall|j: int| 0 <= j < rules(enum_name, data, n).len() implies exists|k: int|
            0 <= k < n && rule_for(enum_name, #[trigger] data[k]) == Ok::<
                ConversionRuleView,
                Location,
            >(#[trigger] rules(enum_name, data, n)[j]) by {
            if j < before.len() {
                let k = choose|k: int|
                    0 <= k < n - 1 && rule_for(enum_name, #[trigger] data[k]) == Ok::<
                        ConversionRuleView,
                        Location,
                    >(before[j]);
                assert(0 <= k < n);
            } else {
                assert(rule_for(enum_name, data[n - 1]) == Ok::<ConversionRuleView, Location>(
                    rules(enum_name, data, n)[j],
                ));
            }
        }
    }
}

/// Each generated rule converts into the variant that carries its directive,
/// and what it hands to the variant follows from that variant's payload
/// alone.
///
/// For an enum `input` that yields rules, the rule at any position `j` names
/// the enum, names the variant at which its directive stands, and takes its
/// source type from the string literal there. Where the variant's first
/// unnamed field is a type named `String`, the rule wraps the textual
/// representation of the value, not the value itself; so it does where there
/// is no such field. Only where that field is a type of another name is the
/// value wrapped unchanged.
pub proof fn law_rule_follows_payload(input: DeclarationView, j: int)
    requires
        representable(input),
        input.body is Enum,
        derived(input) is Ok,
        0 <= j < derived(input)->Ok_0.len(),
    ensures
        ({
            let variants = input.body->Enum_0;
            let rule = derived(input)->Ok_0[j];
            let variant = variants[rule.origin.variant as int];
            &&& rule.origin.variant < variants.len()
            &&& rule.enum_name == input.name
            &&& rule.variant == variant.name
            &&& rule.from_type.len() > 0
            &&& read_from(
                variant,
                rule.origin.variant,
                MapEnumDataView {
                    variant_ident: variant.name,
                    target: rule.from_type,
                    inner_ident: unnamed_ident(variant.fields),
                    at: rule.origin,
                },
            )
            &&& rule.body == body_for(payload_shape(variant.fields))
            &&& payload_shape(variant.fields) == PayloadShape::StringLike ==> rule.body
                == ConversionBody::WrapText
            &&& payload_shape(variant.fields) == PayloadShape::NoInner ==> rule.body
                == ConversionBody::WrapText
            &&& payload_shape(variant.fields) == PayloadShape::Direct ==> rule.body
                == ConversionBody::Wrap
        }),
{
    let variants = input.body->Enum_0;
    let data = enum_data(variants)->Ok_0;
    lemma_collected_origin(variants, variants.len() as int);
    lemma_rules_origin(input.name, data, data.len() as int);
    let rule = derived(input)->Ok_0[j];
    let k = choose|k: int|
        0 <= k < data.len() && rule_for(input.name, #[trigger] data[k]) == Ok::<
            ConversionRuleView,
            Location,
        >(rule);
    assert(data[k] == collected(variants, variants.len() as int)[k]);
}

/// What "the first malformed attribute" means: it is malformed, and none
/// before it is; there is none exactly if no attribute is malformed.
proof fn lemma_first_malformed(attributes: Seq<AttributeView>, from: int)
    requires
        0 <= from,
    ensures
        match first_malformed(attributes, from) {
            Some(a) => {
                &&& from <= a < attributes.len()
                &&& is_malformed(attributes[a])
                &&& forall|b: int| from <= b < a ==> !is_malformed(#[trigger] attributes[b])
            },
            None => forall|b: int|
                from <= b < attributes.len() ==> !is_malformed(#[trigger] attributes[b]),
        },
    decreases attributes.len() - from,
{
    if from < attributes.len() && !is_malformed(attributes[from]) {
        lemma_first_malformed(attributes, from + 1);
    }
}

/// What "the first variant with a malformed attribute" means.
proof fn lemma_first_malformed_variant(variants: Seq<VariantView>, from: int)
    requires
        0 <= from,
    ensures
        match first_malformed_variant(variants, from) {
            Some(i) => {
                &&& from <= i < variants.len()
                &&& first_malformed(variants[i].attributes, 0) is Some
                &&& forall|j: int|
                    from <= j < i ==> first_malformed((#[trigger] variants[j]).attributes, 0)
                        is None
            },
            None => forall|j: int|
                from <= j < variants.len() ==> first_malformed(
                    (#[trigger] variants[j]).attributes,
                    0,
                ) is None,
        },
    decreases variants.len() - from,
{
    if from < variants.len() && first_malformed(variants[from].attributes, 0) is None {
        lemma_first_malformed_variant(variants, from + 1);
    }
}

/// Whether `place` is the place of one of the first `n` directives, and of
/// one that names the empty string.
pub open spec fn names_nothing_at(data: Seq<MapEnumDataView>, n: int, place: Location) -> bool {
    exists|k: int| 0 <= k < n && (#[trigger] data[k]).target.len() == 0 && data[k].at == place
}

/// What the places of the empty names are: the place of every directive that
/// names the empty string, and of no other. There is none exactly if every
/// directive gives a rule.
proof fn lemma_empty_places(enum_name: Seq<char>, data: Seq<MapEnumDataView>, n: int)
    requires
        0 <= n <= data.len(),
    ensures
        forall|k: int|
            0 <= k < n && (#[trigger] data[k]).target.len() == 0 ==> empty_places(
                data,
                n,
            ).contains(data[k].at),
        forall|p: int|
            0 <= p < empty_places(data, n).len() ==> names_nothing_at(
                data,
                n,
                #[trigger] empty_places(data, n)[p],
            ),
        empty_places(data, n).len() == 0 ==> forall|k: int|
            0 <= k < n ==> rule_for(enum_name, #[trigger] data[k]) is Ok,
    decreases n,
{
    if n > 0 {
        lemma_empty_places(enum_name, data, n - 1);
        let before = empty_places(data, n - 1);
        let all = empty_places(data, n);
        assert forall|k: int| 0 <= k < n && (#[trigger] data[k]).target.len() == 0 implies all.contains(
            data[k].at,
        ) by {
            if k < n - 1 {
                let p = choose|p: int| 0 <= p < before.len() && before[p] == data[k].at;
                assert(all[p] == data[k].at);
            } else {
                assert(all[before.len() as int] == data[k].at);
            }
        }
        assert forall|p: int| 0 <= p < all.len() implies names_nothing_at(
            data,
            n,
            #[trigger] all[p],
        ) by {
            if p < before.len() {
                assert(all[p] == before[p]);
                assert(names_nothing_at(data, n - 1, before[p]));
                let k = choose|k: int|
                    0 <= k < n - 1 && (#[trigger] data[k]).target.len() == 0 && data[k].at
                        == before[p];
                assert(0 <= k < n && data[k].target.len() == 0 && data[k].at == all[p]);
            } else {
                assert(data[n - 1].target.len() == 0 && data[n - 1].at == all[p]);
            }
        }
    }
}

/// The directive that a variant at `position` holds at entry `k` of
/// attribute `a`.
pub open spec fn entry_at(variant: VariantView, position: usize, a: int, k: int)
    -> MapEnumDataView {
    MapEnumDataView {
        variant_ident: variant.name,
        target: variant.attributes[a].body.entries()[k]->Literal_0,
        inner_ident: unnamed_ident(variant.fields),
        at: Location { variant: position, attribute: a as usize, item: k as usize },
    }
}

/// Every entry of a marked list of literals among the first `n` attributes
/// is read.
proof fn lemma_variant_data_holds(variant: VariantView, position: usize, n: int, a: int, k: int)
    requires
        0 <= a < n <= variant.attributes.len(),
        is_marker(variant.attributes[a]),
        is_target_list(variant.attributes[a].body),
        0 <= k < variant.attributes[a].body.entries().len(),
    ensures
        variant_data(variant, position, n).contains(entry_at(variant, position, a, k)),
    decreases n,
{
    let before = variant_data(variant, position, n - 1);
    let added = attribute_data(variant, position, n - 1);
    if a == n - 1 {
        assert(variant_data(variant, position, n)[before.len() + k] == added[k]);
    } else {
        lemma_variant_data_holds(variant, position, n - 1, a, k);
        let at = choose|at: int|
            0 <= at < before.len() && before[at] == entry_at(variant, position, a, k);
        assert(variant_data(variant, position, n)[at] == before[at]);
    }
}

/// Every directive that one of the first `n` variants yields is collected.
proof fn lemma_collected_holds(variants: Seq<VariantView>, n: int, v: int, entry: MapEnumDataView)
    requires
        0 <= v < n <= variants.len(),
        attributes(variants[v], v as usize) is Ok,
        attributes(variants[v], v as usize)->Ok_0.contains(entry),
    ensures
        collected(variants, n).contains(entry),
    decreases n,
{
    let before = collected(variants, n - 1);
    if v == n - 1 {
        let added = attributes(variants[v], v as usize)->Ok_0;
        let at = choose|at: int| 0 <= at < added.len() && added[at] == entry;
        assert(collected(variants, n)[before.len() + at] == added[at]);
    } else {
        lemma_collected_holds(variants, n - 1, v, entry);
        let at = choose|at: int| 0 <= at < before.len() && before[at] == entry;
        assert(collected(variants, n)[at] == before[at]);
    }
}

/// The rule of every directive among the first `n` is among the rules.
proof fn lemma_rules_hold(
    enum_name: Seq<char>,
    data: Seq<MapEnumDataView>,
    n: int,
    k: int,
    rule: ConversionRuleView,
)
    requires
        0 <= k < n <= data.len(),
        rule_for(enum_name, data[k]) == Ok::<ConversionRuleView, Location>(rule),
    ensures
        rules(enum_name, data, n).contains(rule),
    decreases n,
{
    let before = rules(enum_name, data, n - 1);
    if k == n - 1 {
        assert(rules(enum_name, data, n)[before.len() as int] == rule);
    } else {
        lemma_rules_hold(enum_name, data, n - 1, k, rule);
        let at = choose|at: int| 0 <= at < before.len() && before[at] == rule;
        assert(rules(enum_name, data, n)[at] == before[at]);
    }
}

/// Where the attributes of an enum are read without failure, the string
/// literal at entry `k` of the marked attribute `a` of variant `v` is among
/// the directives.
proof fn lemma_enum_data_holds(variants: Seq<VariantView>, v: int, a: int, k: int)
    requires
        enum_data(variants) is Ok,
        0 <= v < variants.len(),
        0 <= a < variants[v].attributes.len(),
        is_marker(variants[v].attributes[a]),
        0 <= k < variants[v].attributes[a].body.entries().len(),
    ensures
        is_target_list(variants[v].attributes[a].body),
        enum_data(variants)->Ok_0.contains(entry_at(variants[v], v as usize, a, k)),
{
    let variant = variants[v];
    lemma_first_malformed_variant(variants, 0);
    assert(first_malformed(variant.attributes, 0) is None);
    lemma_first_malformed(variant.attributes, 0);
    assert(!is_malformed(variant.attributes[a]));
    lemma_variant_data_holds(variant, v as usize, variant.attributes.len() as int, a, k);
    lemma_collected_holds(
        variants,
        variants.len() as int,
        v,
        entry_at(variant, v as usize, a, k),
    );
}

/// Every string literal in an `enum_from_variant` list yields its rule.
///
/// For an enum `input` that yields rules, let entry `k` of attribute `a` of
/// variant `v` be the string literal `target`, in a list that carries the
/// marker name. Then `target` is not empty, and among the rules is the one
/// that converts `target` into that variant, with its origin at that place.
/// Two literals of one variant so yield two rules into the same variant.
pub proof fn law_every_target_yields_rule(
    input: DeclarationView,
    v: int,
    a: int,
    k: int,
    target: Seq<char>,
)
    requires
        input.body is Enum,
        derived(input) is Ok,
        0 <= v < input.body->Enum_0.len(),
        0 <= a < input.body->Enum_0[v].attributes.len(),
        is_marker(input.body->Enum_0[v].attributes[a]),
        0 <= k < input.body->Enum_0[v].attributes[a].body.entries().len(),
        input.body->Enum_0[v].attributes[a].body.entries()[k] == ListItemView::Literal(target),
    ensures
        target.len() > 0,
        derived(input)->Ok_0.contains(
            ConversionRuleView {
                from_type: target,
                enum_name: input.name,
                variant: input.body->Enum_0[v].name,
                body: body_for(payload_shape(input.body->Enum_0[v].fields)),
                origin: Location { variant: v as usize, attribute: a as usize, item: k as usize },
            },
        ),
{
    let variants = input.body->Enum_0;
    let data = enum_data(variants)->Ok_0;
    let entry = entry_at(variants[v], v as usize, a, k);
    lemma_enum_data_holds(variants, v, a, k);
    let at = choose|at: int| 0 <= at < data.len() && data[at] == entry;
    lemma_empty_places(input.name, data, data.len() as int);
    assert(rule_for(input.name, data[at]) is Ok);
    lemma_rules_hold(input.name, data, data.len() as int, at, rule_for(input.name, entry)->Ok_0);
}

/// An empty target fails the generation; it is never passed over.
///
/// Let entry `k` of attribute `a` of variant `v` of the enum `input` be the
/// empty string literal, in an attribute that carries the marker name. Then
/// no rule is generated. Generation fails with a malformed attribute, if the
/// enum has one; else it fails with the empty target names, and the place of
/// this one is among those reported.
pub proof fn law_empty_target_fails(input: DeclarationView, v: int, a: int, k: int)
    requires
        input.body is Enum,
        0 <= v < input.body->Enum_0.len(),
        0 <= a < input.body->Enum_0[v].attributes.len(),
        is_marker(input.body->Enum_0[v].attributes[a]),
        0 <= k < input.body->Enum_0[v].attributes[a].body.entries().len(),
        input.body->Enum_0[v].attributes[a].body.entries()[k] == ListItemView::Literal(
            Seq::<char>::empty(),
        ),
    ensures
        derived(input) is Err,
        enum_data(input.body->Enum_0) is Err ==> derived(input)->Err_0 is MalformedAttribute,
        enum_data(input.body->Enum_0) is Ok ==> {
            &&& derived(input)->Err_0 is EmptyTargetName
            &&& derived(input)->Err_0->at.contains(
                Location { variant: v as usize, attribute: a as usize, item: k as usize },
            )
        },
{
    let variants = input.body->Enum_0;
    assert(has_marker(variants[v]));
    assert(any_marker(variants));
    if enum_data(variants) is Ok {
        let data = enum_data(variants)->Ok_0;
        let entry = entry_at(variants[v], v as usize, a, k);
        lemma_enum_data_holds(variants, v, a, k);
        let at = choose|at: int| 0 <= at < data.len() && data[at] == entry;
        lemma_empty_places(input.name, data, data.len() as int);
        assert(data[at].target.len() == 0);
    }
}

/// Every place that is reported as an empty target name holds one, and the
/// places come in declaration order.
///
/// Let generation for the enum `input` fail with empty target names. Then at
/// least one place is reported; at each reported place stands the empty
/// string literal, in a list of a variant's attribute that carries the marker
/// name; and a place that is reported earlier stands earlier in the
/// declaration, so that none is reported twice.
pub proof fn law_empty_places_are_empty_targets(input: DeclarationView, p: int, q: int)
    requires
        input.body is Enum,
        all_countable(input.body->Enum_0),
        derived(input) is Err,
        derived(input)->Err_0 is EmptyTargetName,
        0 <= p <= q < derived(input)->Err_0->at.len(),
    ensures
        ({
            let variants = input.body->Enum_0;
            let place = derived(input)->Err_0->at[p];
            let variant = variants[place.variant as int];
            &&& place.variant < variants.len()
            &&& read_from(
                variant,
                place.variant,
                MapEnumDataView {
                    variant_ident: variant.name,
                    target: Seq::<char>::empty(),
                    inner_ident: unnamed_ident(variant.fields),
                    at: place,
                },
            )
            &&& p < q ==> place.precedes(derived(input)->Err_0->at[q])
        }),
{
    let variants = input.body->Enum_0;
    let data = enum_data(variants)->Ok_0;
    let places = empty_places(data, data.len() as int);
    lemma_collected_origin(variants, variants.len() as int);
    lemma_collected_ordered(variants, variants.len() as int);
    lemma_empty_places(input.name, data, data.len() as int);
    lemma_empty_places_ordered(data, data.len() as int);
    assert(names_nothing_at(data, data.len() as int, places[p]));
    let k = choose|k: int|
        0 <= k < data.len() && (#[trigger] data[k]).target.len() == 0 && data[k].at == places[p];
    assert(data[k] == collected(variants, variants.len() as int)[k]);
    assert(data[k].target =~= Seq::<char>::empty());
}

/// Whether attribute `a` is the variant's only attribute that carries the
/// marker name, and is a list of one entry, the non-empty string literal
/// `target`.
pub open spec fn sole_directive(variant: VariantView, a: int, target: Seq<char>) -> bool {
    &&& 0 <= a < variant.attributes.len()
    &&& forall|b: int|
        0 <= b < variant.attributes.len() ==> (is_marker(#[trigger] variant.attributes[b]) <==> b
            == a)
    &&& variant.attributes[a].body.entries() == seq![ListItemView::Literal(target)]
    &&& variant.attributes[a].body is List
    &&& target.len() > 0
}

/// The rule that wraps the value of type `target` unchanged into the variant
/// at position `v`, for the literal that alone makes up attribute `a`.
pub open spec fn wrapping_rule(
    enum_name: Seq<char>,
    variant: VariantView,
    v: int,
    a: int,
    target: Seq<char>,
) -> ConversionRuleView {
    ConversionRuleView {
        from_type: target,
        enum_name,
        variant: variant.name,
        body: ConversionBody::Wrap,
        origin: Location { variant: v as usize, attribute: a as usize, item: 0 },
    }
}

/// What a variant with a sole directive yields from its first `n` attributes.
proof fn lemma_sole_variant_data(
    variant: VariantView,
    position: usize,
    a: int,
    target: Seq<char>,
    n: int,
)
    requires
        sole_directive(variant, a, target),
        0 <= n <= variant.attributes.len(),
    ensures
        is_target_list(variant.attributes[a].body),
        variant_data(variant, position, n) == if n <= a {
            Seq::<MapEnumDataView>::empty()
        } else {
            seq![entry_at(variant, position, a, 0)]
        },
    decreases n,
{
    assert(variant.attributes[a].body.entries()[0] is Literal);
    if n > 0 {
        lemma_sole_variant_data(variant, position, a, target, n - 1);
        let added = attribute_data(variant, position, n - 1);
        if n - 1 == a {
            assert(added =~= seq![entry_at(variant, position, a, 0)]);
        } else {
            assert(added =~= Seq::<MapEnumDataView>::empty());
        }
        assert(variant_data(variant, position, n) =~= if n <= a {
            Seq::<MapEnumDataView>::empty()
        } else {
            seq![entry_at(variant, position, a, 0)]
        });
    }
}

/// What variants with a sole directive each yield together.
proof fn lemma_sole_collected(
    variants: Seq<VariantView>,
    at: Seq<int>,
    targets: Seq<Seq<char>>,
    n: int,
)
    requires
        at.len() == variants.len(),
        targets.len() == variants.len(),
        forall|i: int|
            0 <= i < variants.len() ==> sole_directive(#[trigger] variants[i], at[i], targets[i]),
        0 <= n <= variants.len(),
    ensures
        forall|i: int|
            0 <= i < variants.len() ==> first_malformed((#[trigger] variants[i]).attributes, 0)
                is None,
        collected(variants, n) == Seq::new(
            n as nat,
            |i: int| entry_at(variants[i], i as usize, at[i], 0),
        ),
    decreases n,
{
    assert forall|i: int| 0 <= i < variants.len() implies first_malformed(
        (#[trigger] variants[i]).attributes,
        0,
    ) is None by {
        assert(sole_directive(variants[i], at[i], targets[i]));
        lemma_sole_variant_data(variants[i], 0, at[i], targets[i], 0);
        lemma_first_malformed(variants[i].attributes, 0);
    }
    if n > 0 {
        lemma_sole_collected(variants, at, targets, n - 1);
        let variant = variants[n - 1];
        assert(sole_directive(variant, at[n - 1], targets[n - 1]));
        assert(is_marker(variant.attributes[at[n - 1]]));
        assert(has_marker(variant));
        lemma_sole_variant_data(
            variant,
            (n - 1) as usize,
            at[n - 1],
            targets[n - 1],
            variant.attributes.len() as int,
        );
    }
    assert(collected(variants, n) =~= Seq::new(
        n as nat,
        |i: int| entry_at(variants[i], i as usize, at[i], 0),
    ));
}

/// The rules of directives each of which gives the rule `expected` names for
/// it, and the places of their empty names, of which there are none.
proof fn lemma_rules_of_all(
    enum_name: Seq<char>,
    data: Seq<MapEnumDataView>,
    expected: Seq<ConversionRuleView>,
    n: int,
)
    requires
        expected.len() == data.len(),
        forall|k: int|
            0 <= k < data.len() ==> rule_for(enum_name, #[trigger] data[k]) == Ok::<
                ConversionRuleView,
                Location,
            >(expected[k]),
        0 <= n <= data.len(),
    ensures
        rules(enum_name, data, n) == expected.subrange(0, n),
        empty_places(data, n).len() == 0,
    decreases n,
{
    if n > 0 {
        lemma_rules_of_all(enum_name, data, expected, n - 1);
        assert(rule_for(enum_name, data[n - 1]) is Ok);
    }
    assert(rules(enum_name, data, n) =~= expected.subrange(0, n));
}

/// Directly wrapped payloads are wrapped unchanged.
///
/// Let every variant of the enum `input` carry exactly one directive: one
/// attribute with the marker name, at position `at[i]` for variant `i`, whose
/// list is the one non-empty string literal `targets[i]`. Let the first
/// unnamed field of every variant be a type named otherwise than `String`.
/// Then, if the enum has a variant at all, generation yields exactly one rule
/// for each variant, in declaration order, and the rule for variant `i` hands
/// the value of type `targets[i]` to that variant as it is: no rule converts
/// to text. That the targets differ from each other is not needed for this.
pub proof fn law_direct_payloads_wrap_unchanged(
    input: DeclarationView,
    at: Seq<int>,
    targets: Seq<Seq<char>>,
)
    requires
        input.body is Enum,
        at.len() == input.body->Enum_0.len(),
        targets.len() == input.body->Enum_0.len(),
        forall|i: int|
            0 <= i < input.body->Enum_0.len() ==> {
                &&& sole_directive(#[trigger] input.body->Enum_0[i], at[i], targets[i])
                &&& payload_shape(input.body->Enum_0[i].fields) == PayloadShape::Direct
            },
    ensures
        input.body->Enum_0.len() > 0 ==> derived(input) == Ok::<
            Seq<ConversionRuleView>,
            DeriveErrorView,
        >(
            Seq::new(
                input.body->Enum_0.len(),
                |i: int| wrapping_rule(input.name, input.body->Enum_0[i], i, at[i], targets[i]),
            ),
        ),
        input.body->Enum_0.len() == 0 ==> derived(input) == Err::<
            Seq<ConversionRuleView>,
            DeriveErrorView,
        >(DeriveErrorView::AttributeNotFound),
{
    let variants = input.body->Enum_0;
    let expected = Seq::new(
        variants.len(),
        |i: int| wrapping_rule(input.name, variants[i], i, at[i], targets[i]),
    );
    lemma_first_malformed_variant(variants, 0);
    lemma_sole_collected(variants, at, targets, variants.len() as int);
    assert(first_malformed_variant(variants, 0) is None);
    if variants.len() > 0 {
        assert(sole_directive(variants[0], at[0], targets[0]));
        assert(is_marker(variants[0].attributes[at[0]]));
        assert(has_marker(variants[0]));
        assert(any_marker(variants));
        let data = collected(variants, variants.len() as int);
        assert forall|k: int| 0 <= k < data.len() implies rule_for(input.name, #[trigger] data[k])
            == Ok::<ConversionRuleView, Location>(expected[k]) by {
            assert(sole_directive(variants[k], at[k], targets[k]));
            assert(variants[k].attributes[at[k]].body.entries()[0] == ListItemView::Literal(
                targets[k],
            ));
        }
        lemma_rules_of_all(input.name, data, expected, data.len() as int);
        assert(expected.subrange(0, data.len() as int) =~= expected);
    } else {
        assert(!any_marker(variants));
    }
}

/// The directives read from a variant stand in the order of their places.
proof fn lemma_variant_data_ordered(variant: VariantView, position: usize, n: int)
    requires
        0 <= n <= variant.attributes.len(),
        countable(variant),
    ensures
        forall|i: int, j: int|
            0 <= i < j < variant_data(variant, position, n).len() ==> (#[trigger] variant_data(
                variant,
                position,
                n,
            )[i]).at.precedes((#[trigger] variant_data(variant, position, n)[j]).at),
    decreases n,
{
    if n > 0 {
        lemma_variant_data_ordered(variant, position, n - 1);
        lemma_variant_data_origin(variant, position, n - 1);
        let before = variant_data(variant, position, n - 1);
        let added = attribute_data(variant, position, n - 1);
        let all = variant_data(variant, position, n);
        assert forall|i: int, j: int| 0 <= i < j < all.len() implies (#[trigger] all[i]).at.precedes(
            (#[trigger] all[j]).at,
        ) by {
            if j < before.len() {
                assert(all[i] == before[i] && all[j] == before[j]);
            } else if i < before.len() {
                assert(all[i] == before[i] && all[j] == added[j - before.len()]);
            } else {
                assert(all[i] == added[i - before.len()] && all[j] == added[j - before.len()]);
            }
        }
    }
}

/// The directives collected from the variants stand in the order of their
/// places.
proof fn lemma_collected_ordered(variants: Seq<VariantView>, n: int)
    requires
        0 <= n <= variants.len(),
        all_countable(variants),
    ensures
        forall|i: int, j: int|
            0 <= i < j < collected(variants, n).len() ==> (#[trigger] collected(
                variants,
                n,
            )[i]).at.precedes((#[trigger] collected(variants, n)[j]).at),
    decreases n,
{
    if n > 0 {
        lemma_collected_ordered(variants, n - 1);
        lemma_collected_origin(variants, n - 1);
        let variant = variants[n - 1];
        let position = (n - 1) as usize;
        lemma_variant_data_ordered(variant, position, variant.attributes.len() as int);
        lemma_variant_data_origin(variant, position, variant.attributes.len() as int);
        let before = collected(variants, n - 1);
        let all = collected(variants, n);
        assert forall|i: int, j: int| 0 <= i < j < all.len() implies (#[trigger] all[i]).at.precedes(
            (#[trigger] all[j]).at,
        ) by {
            let added = attributes(variant, position)->Ok_0;
            if j < before.len() {
                assert(all[i] == before[i] && all[j] == before[j]);
            } else if i < before.len() {
                assert(all[i] == before[i] && all[j] == added[j - before.len()]);
            } else {
                assert(all[i] == added[i - before.len()] && all[j] == added[j - before.len()]);
            }
        }
    }
}

/// Rules made from ordered directives are ordered as their directives are.
proof fn lemma_rules_ordered(enum_name: Seq<char>, data: Seq<MapEnumDataView>, n: int)
    requires
        0 <= n <= data.len(),
        forall|i: int, j: int|
            0 <= i < j < data.len() ==> (#[trigger] data[i]).at.precedes((#[trigger] data[j]).at),
    ensures
        forall|i: int, j: int|
            0 <= i < j < rules(enum_name, data, n).len() ==> (#[trigger] rules(
                enum_name,
                data,
                n,
            )[i]).origin.precedes((#[trigger] rules(enum_name, data, n)[j]).origin),
    decreases n,
{
    if n > 0 {
        lemma_rules_ordered(enum_name, data, n - 1);
        lemma_rules_origin(enum_name, data, n - 1);
        let before = rules(enum_name, data, n - 1);
        let all = rules(enum_name, data, n);
        assert forall|i: int, j: int| 0 <= i < j < all.len() implies (
        #[trigger] all[i]).origin.precedes((#[trigger] all[j]).origin) by {
            if j < before.len() {
                assert(all[i] == before[i] && all[j] == before[j]);
            } else {
                assert(all[i] == before[i]);
                let k = choose|k: int|
                    0 <= k < n - 1 && rule_for(enum_name, #[trigger] data[k]) == Ok::<
                        ConversionRuleView,
                        Location,
                    >(before[i]);
                assert(data[k].at.precedes(data[n - 1].at));
            }
        }
    }
}

/// The places of empty names among ordered directives are ordered as their
/// directives are.
proof fn lemma_empty_places_ordered(data: Seq<MapEnumDataView>, n: int)
    requires
        0 <= n <= data.len(),
        forall|i: int, j: int|
            0 <= i < j < data.len() ==> (#[trigger] data[i]).at.precedes((#[trigger] data[j]).at),
    ensures
        forall|p: int, q: int|
            0 <= p < q < empty_places(data, n).len() ==> (#[trigger] empty_places(
                data,
                n,
            )[p]).precedes(#[trigger] empty_places(data, n)[q]),
    decreases n,
{
    if n > 0 {
        lemma_empty_places_ordered(data, n - 1);
        lemma_empty_places(Seq::empty(), data, n - 1);
        let before = empty_places(data, n - 1);
        let all = empty_places(data, n);
        assert forall|p: int, q: int| 0 <= p < q < all.len() implies (#[trigger] all[p]).precedes(
            #[trigger] all[q],
        ) by {
            if q < before.len() {
                assert(all[p] == before[p] && all[q] == before[q]);
            } else {
                assert(all[p] == before[p]);
                assert(names_nothing_at(data, n - 1, before[p]));
                let k = choose|k: int|
                    0 <= k < n - 1 && (#[trigger] data[k]).target.len() == 0 && data[k].at
                        == before[p];
                assert(data[k].at.precedes(data[n - 1].at));
            }
        }
    }
}

/// The rules come in declaration order.
///
/// For an enum `input` that yields rules, a rule that comes earlier stems
/// from a string literal that stands earlier: in an earlier variant, or in an
/// earlier attribute of the same variant, or earlier in the same list. No two
/// rules stem from the same literal.
pub proof fn law_rules_keep_declaration_order(input: DeclarationView, i: int, j: int)
    requires
        representable(input),
        input.body is Enum,
        derived(input) is Ok,
        0 <= i < j < derived(input)->Ok_0.len(),
    ensures
        derived(input)->Ok_0[i].origin.precedes(derived(input)->Ok_0[j].origin),
{
    let variants = input.body->Enum_0;
    let data = enum_data(variants)->Ok_0;
    lemma_collected_ordered(variants, variants.len() as int);
    lemma_rules_ordered(input.name, data, data.len() as int);
}

/// A marked attribute that is no list of one or more string literals fails
/// the generation.
///
/// Let attribute `a` of variant `v` of the enum `input` carry the marker name
/// and be anything but a parenthesized list of one or more string literals:
/// no list, an empty list, or a list with an entry that is no string literal.
/// Then generation fails with a malformed attribute: the first such attribute
/// of the first variant that has one, which stands at or before this one.
pub proof fn law_malformed_attribute_fails(input: DeclarationView, v: int, a: int)
    requires
        input.body is Enum,
        0 <= v < input.body->Enum_0.len() <= usize::MAX,
        0 <= a < input.body->Enum_0[v].attributes.len() <= usize::MAX,
        is_marker(input.body->Enum_0[v].attributes[a]),
        !is_target_list(input.body->Enum_0[v].attributes[a].body),
    ensures
        derived(input) is Err,
        derived(input)->Err_0 is MalformedAttribute,
        ({
            let at = Location {
                variant: derived(input)->Err_0->variant,
                attribute: derived(input)->Err_0->attribute,
                item: 0,
            };
            let here = Location { variant: v as usize, attribute: a as usize, item: 0 };
            at == here || at.precedes(here)
        }),
{
    let variants = input.body->Enum_0;
    lemma_first_malformed_variant(variants, 0);
    lemma_first_malformed(variants[v].attributes, 0);
    assert(is_malformed(variants[v].attributes[a]));
    let first = first_malformed_variant(variants, 0)->0;
    lemma_first_malformed(variants[first].attributes, 0);
}

} // verus!
