//! Synthesis of conversion rules and of their source text.

use vstd::prelude::*;
use crate::classify::{get_inner_ident_type, inner_ident_type, PayloadShape};
use crate::error::Location;
use crate::extract::{MapEnumData, MapEnumDataView};

verus! {

/// What a conversion hands to the variant.
#[derive(Debug, Clone, Copy, PartialEq, Eq, Structural)]
pub enum ConversionBody {
    /// The converted value itself.
    Wrap,
    /// The converted value's textual representation.
    WrapText,
}

/// A conversion from a named type into one variant of an enum.
#[derive(Debug, Clone, PartialEq, Eq)]
pub struct ConversionRule {
    /// The type that is converted.
    pub from_type: String,
    /// The enum that it is converted into.
    pub enum_name: String,
    /// The variant that takes the value.
    pub variant: String,
    /// What the variant is handed.
    pub body: ConversionBody,
    /// Where the string literal stands that asked for this conversion.
    pub origin: Location,
}

/// Mathematical model of a [`ConversionRule`].
pub struct ConversionRuleView {
    pub from_type: Seq<char>,
    pub enum_name: Seq<char>,
    pub variant: Seq<char>,
    pub body: ConversionBody,
    pub origin: Location,
}

impl View for ConversionRule {
    type V = ConversionRuleView;

    open spec fn view(&self) -> ConversionRuleView {
        ConversionRuleView {
            from_type: self.from_type@,
            enum_name: self.enum_name@,
            variant: self.variant@,
            body: self.body,
            origin: self.origin,
        }
    }
}

/// Model of a sequence of rules.
pub open spec fn rules_view(rules: Seq<ConversionRule>) -> Seq<ConversionRuleView> {
    rules.map_values(|r: ConversionRule| r@)
}

/// The body that a payload shape calls for: only a directly wrapped value is
/// handed over as it is.
pub open spec fn body_for(shape: PayloadShape) -> ConversionBody {
    match shape {
        PayloadShape::Direct => ConversionBody::Wrap,
        PayloadShape::StringLike => ConversionBody::WrapText,
        PayloadShape::NoInner => ConversionBody::WrapText,
    }
}

/// What one directive gives rise to: the place of its literal if that is
/// empty, else the rule that converts the type it names into its variant.
pub open spec fn rule_for(enum_name: Seq<char>, entry: MapEnumDataView) -> Result<
    ConversionRuleView,
    Location,
> {
    if entry.target.len() == 0 {
        Err(entry.at)
    } else {
        Ok(
            ConversionRuleView {
                from_type: entry.target,
                enum_name,
                variant: entry.variant_ident,
                body: body_for(inner_ident_type(entry.inner_ident)),
                origin: entry.at,
            },
        )
    }
}

/// Model of the result of [`synthesize`].
pub open spec fn synthesis_view(result: Result<ConversionRule, Location>) -> Result<
    ConversionRuleView,
    Location,
> {
    match result {
        Ok(rule) => Ok(rule@),
        Err(at) => Err(at),
    }
}

/// Synthesizes the conversion that one directive asks for. A directive that
/// names the empty string gives no rule: its place is returned instead.
pub fn synthesize(enum_name: &String, entry: &MapEnumData) -> (result: Result<
    ConversionRule,
    Location,
>)
    ensures
        synthesis_view(result) == rule_for(enum_name@, entry@),
{
    if entry.target.as_str().is_empty() {
        return Err(entry.at);
    }
    let body = match get_inner_ident_type(&entry.inner_ident) {
        PayloadShape::Direct => ConversionBody::Wrap,
        _ => ConversionBody::WrapText,
    };
    Ok(
        ConversionRule {
            from_type: entry.target.clone(),
            enum_name: enum_name.clone(),
            variant: entry.variant_ident.clone(),
            body,
            origin: entry.at,
        },
    )
}

/// The expression that the variant is handed.
pub open spec fn payload_text(body: ConversionBody) -> Seq<char> {
    match body {
        ConversionBody::Wrap => "err"@,
        ConversionBody::WrapText => "err.to_string()"@,
    }
}

/// The source text of a rule: for a rule from `T` into `E::V`,
/// `impl From<T> for E { fn from(err: T) -> E { E::V(..) } }`.
pub open spec fn rule_text(rule: ConversionRuleView) -> Seq<char> {
    "impl From<"@ + rule.from_type + "> for "@ + rule.enum_name + " { fn from(err: "@
        + rule.from_type + ") -> "@ + rule.enum_name + " { "@ + rule.enum_name + "::"@
        + rule.variant + "("@ + payload_text(rule.body) + ") } }"@
}

/// The source text of the first `n` rules: one rule to a line.
pub open spec fn emitted(rules: Seq<ConversionRuleView>, n: int) -> Seq<char>
    decreases n,
{
    if n <= 0 {
        Seq::empty()
    } else {
        emitted(rules, n - 1) + rule_text(rules[n - 1]) + "\n"@
    }
}

impl ConversionRule {
    /// Writes the rule as the source text of a `From` implementation. The
    /// names are written as they are: that each is an identifier is for the
    /// caller to see to.
    pub fn to_source(&self) -> (text: String)
        ensures
            text@ == rule_text(self@),
    {
        let mut text = String::from_str("impl From<");
        text.append(self.from_type.as_str());
        text.append("> for ");
        text.append(self.enum_name.as_str());
        text.append(" { fn from(err: ");
        text.append(self.from_type.as_str());
        text.append(") -> ");
        text.append(self.enum_name.as_str());
        text.append(" { ");
        text.append(self.enum_name.as_str());
        text.append("::");
        text.append(self.variant.as_str());
        text.append("(");
        match self.body {
            ConversionBody::Wrap => text.append("err"),
            ConversionBody::WrapText => text.append("err.to_string()"),
        }
        text.append(") } }");
        text
    }
}

/// Writes rules out as source text, in order, one to a line.
pub fn emit(rules: &Vec<ConversionRule>) -> (text: String)
    ensures
        text@ == emitted(rules_view(rules@), rules@.len() as int),
{
    let mut text = String::new();
    let mut i: usize = 0;
    while i < rules.len()
        invariant
            i <= rules.len(),
            text@ == emitted(rules_view(rules@), i as int),
        decreases rules.len() - i,
    {
        let line = rules[i].to_source();
        text.append(line.as_str());
        text.append("\n");
        i += 1;
    }
    text
}

} // verus!
