use enum_from_variant::error::{DeriveError, Location};
use enum_from_variant::syntax::{
    Attribute, AttributeBody, Body, Declaration, FieldType, Fields, ListItem, Variant,
};
use enum_from_variant::synthesize::{emit, ConversionBody, ConversionRule};

fn literal(value: &str) -> ListItem {
    ListItem::Literal(value.to_string())
}

fn attribute(name: &str, body: AttributeBody) -> Attribute {
    Attribute { name: name.to_string(), body }
}

fn marked(targets: &[&str]) -> Attribute {
    attribute(
        "enum_from_variant",
        AttributeBody::List(targets.iter().map(|t| literal(t)).collect()),
    )
}

fn wrapping(named: &str) -> Fields {
    Fields::Unnamed(vec![FieldType::Path(vec![named.to_string()])])
}

fn variant(name: &str, attributes: Vec<Attribute>, fields: Fields) -> Variant {
    Variant { name: name.to_string(), attributes, fields }
}

fn an_enum(name: &str, variants: Vec<Variant>) -> Declaration {
    Declaration { name: name.to_string(), body: Body::Enum(variants) }
}

fn place(variant: usize, attribute: usize, item: usize) -> Location {
    Location { variant, attribute, item }
}

fn rule(
    from_type: &str,
    enum_name: &str,
    variant: &str,
    body: ConversionBody,
    origin: (usize, usize, usize),
) -> ConversionRule {
    ConversionRule {
        from_type: from_type.to_string(),
        enum_name: enum_name.to_string(),
        variant: variant.to_string(),
        body,
        origin: place(origin.0, origin.1, origin.2),
    }
}

#[test]
fn string_variant_wraps_the_text_of_the_value() {
    let input = an_enum(
        "MainError",
        vec![variant("Network", vec![marked(&["NetworkError"])], wrapping("String"))],
    );
    let rules = enum_from_variant::derive(&input).unwrap();
    assert_eq!(
        rules,
        vec![rule("NetworkError", "MainError", "Network", ConversionBody::WrapText, (0, 0, 0))]
    );
    assert_eq!(
        emit(&rules),
        "impl From<NetworkError> for MainError { fn from(err: NetworkError) -> MainError { \
         MainError::Network(err.to_string()) } }\n"
    );
}

#[test]
fn named_variant_wraps_the_value_unchanged() {
    let input = an_enum(
        "MainError",
        vec![variant("Database", vec![marked(&["DatabaseError"])], wrapping("DatabaseError"))],
    );
    let rules = enum_from_variant::derive(&input).unwrap();
    assert_eq!(
        rules,
        vec![rule("DatabaseError", "MainError", "Database", ConversionBody::Wrap, (0, 0, 0))]
    );
    assert_eq!(
        emit(&rules),
        "impl From<DatabaseError> for MainError { fn from(err: DatabaseError) -> MainError { \
         MainError::Database(err) } }\n"
    );
}

#[test]
fn empty_target_fails_the_generation() {
    let input =
        an_enum("MainError", vec![variant("Network", vec![marked(&[""])], wrapping("String"))]);
    let error = enum_from_variant::derive(&input).unwrap_err();
    assert_eq!(error, DeriveError::EmptyTargetName { at: vec![place(0, 0, 0)] });
    assert_eq!(error.message(), "expected this to take a type name");
}

#[test]
fn every_empty_target_is_reported_at_its_place() {
    let input = an_enum(
        "E",
        vec![
            variant("A", vec![marked(&["X"])], wrapping("X")),
            variant("B", vec![marked(&["Y", "", "Z"]), marked(&["", ""])], wrapping("String")),
            variant("C", vec![], Fields::Unit),
            variant(
                "D",
                vec![attribute("doc", AttributeBody::NameValue), marked(&[""])],
                wrapping("String"),
            ),
        ],
    );
    assert_eq!(
        enum_from_variant::derive(&input),
        Err(DeriveError::EmptyTargetName {
            at: vec![place(1, 0, 1), place(1, 1, 0), place(1, 1, 1), place(3, 1, 0)]
        })
    );
}

#[test]
fn removing_the_empty_targets_changes_the_result() {
    let with_empty = an_enum("E", vec![variant("A", vec![marked(&["X", ""])], wrapping("X"))]);
    let without = an_enum("E", vec![variant("A", vec![marked(&["X"])], wrapping("X"))]);
    let failed = enum_from_variant::derive(&with_empty);
    let generated = enum_from_variant::derive(&without);
    assert_eq!(generated, Ok(vec![rule("X", "E", "A", ConversionBody::Wrap, (0, 0, 0))]));
    assert_eq!(failed, Err(DeriveError::EmptyTargetName { at: vec![place(0, 0, 1)] }));
    assert_ne!(failed, generated);
}

#[test]
fn two_targets_on_one_variant_give_two_rules() {
    let input = an_enum(
        "MainError",
        vec![variant("Io", vec![marked(&["ReadError", "WriteError"])], wrapping("String"))],
    );
    assert_eq!(
        enum_from_variant::derive(&input),
        Ok(vec![
            rule("ReadError", "MainError", "Io", ConversionBody::WrapText, (0, 0, 0)),
            rule("WriteError", "MainError", "Io", ConversionBody::WrapText, (0, 0, 1)),
        ])
    );
}

#[test]
fn two_attributes_on_one_variant_give_two_rules() {
    let input = an_enum(
        "MainError",
        vec![variant(
            "Io",
            vec![marked(&["ReadError"]), marked(&["WriteError"])],
            wrapping("IoError"),
        )],
    );
    let rules = enum_from_variant::derive(&input).unwrap();
    assert_eq!(
        rules,
        vec![
            rule("ReadError", "MainError", "Io", ConversionBody::Wrap, (0, 0, 0)),
            rule("WriteError", "MainError", "Io", ConversionBody::Wrap, (0, 1, 0)),
        ]
    );
    assert_eq!(
        emit(&rules),
        "impl From<ReadError> for MainError { fn from(err: ReadError) -> MainError { \
         MainError::Io(err) } }\n\
         impl From<WriteError> for MainError { fn from(err: WriteError) -> MainError { \
         MainError::Io(err) } }\n"
    );
}

#[test]
fn struct_is_refused() {
    let input = Declaration { name: "Point".to_string(), body: Body::Struct };
    let error = enum_from_variant::derive(&input).unwrap_err();
    assert_eq!(error, DeriveError::NotAnEnum);
    assert_eq!(error.message(), "Couldn't fetch variants");
}

#[test]
fn union_is_refused() {
    let input = Declaration { name: "Bits".to_string(), body: Body::Union };
    assert_eq!(enum_from_variant::derive(&input), Err(DeriveError::NotAnEnum));
}

#[test]
fn every_variant_with_a_direct_payload_is_wrapped_in_order() {
    let input = an_enum(
        "MainError",
        vec![
            variant("Database", vec![marked(&["DatabaseError"])], wrapping("DatabaseError")),
            variant(
                "Parse",
                vec![attribute("doc", AttributeBody::NameValue), marked(&["ParseError"])],
                Fields::Unnamed(vec![FieldType::Path(vec![
                    "parser".to_string(),
                    "ParseError".to_string(),
                ])]),
            ),
            variant("Io", vec![marked(&["IoError"])], wrapping("IoError")),
        ],
    );
    assert_eq!(
        enum_from_variant::derive(&input),
        Ok(vec![
            rule("DatabaseError", "MainError", "Database", ConversionBody::Wrap, (0, 0, 0)),
            rule("ParseError", "MainError", "Parse", ConversionBody::Wrap, (1, 1, 0)),
            rule("IoError", "MainError", "Io", ConversionBody::Wrap, (2, 0, 0)),
        ])
    );
}

#[test]
fn mixed_payloads_choose_their_bodies() {
    let input = an_enum(
        "MainError",
        vec![
            variant("Network", vec![marked(&["NetworkError"])], wrapping("String")),
            variant("Database", vec![marked(&["DatabaseError"])], wrapping("DatabaseError")),
            variant("Unit", vec![marked(&["UnitError"])], Fields::Unit),
            variant("Record", vec![marked(&["RecordError"])], Fields::Named),
            variant(
                "Borrowed",
                vec![marked(&["BorrowedError"])],
                Fields::Unnamed(vec![FieldType::Other]),
            ),
        ],
    );
    let rules = enum_from_variant::derive(&input).unwrap();
    let bodies: Vec<ConversionBody> = rules.iter().map(|r| r.body).collect();
    assert_eq!(
        bodies,
        vec![
            ConversionBody::WrapText,
            ConversionBody::Wrap,
            ConversionBody::WrapText,
            ConversionBody::WrapText,
            ConversionBody::WrapText,
        ]
    );
    let variants: Vec<&str> = rules.iter().map(|r| r.variant.as_str()).collect();
    assert_eq!(variants, vec!["Network", "Database", "Unit", "Record", "Borrowed"]);
}

#[test]
fn attribute_that_is_no_list_is_malformed() {
    for body in [AttributeBody::Word, AttributeBody::NameValue, AttributeBody::Unparsed] {
        let input = an_enum(
            "E",
            vec![
                variant("A", vec![marked(&["X"])], wrapping("X")),
                variant(
                    "B",
                    vec![
                        attribute("doc", AttributeBody::NameValue),
                        marked(&["Y"]),
                        attribute("enum_from_variant", body),
                    ],
                    wrapping("Y"),
                ),
            ],
        );
        let error = enum_from_variant::derive(&input).unwrap_err();
        assert_eq!(error, DeriveError::MalformedAttribute { variant: 1, attribute: 2 });
        assert_eq!(error.message(), "expected #[enum_from_variant(..)]");
    }
}

#[test]
fn empty_list_is_malformed() {
    let input = an_enum("E", vec![variant("A", vec![marked(&[])], wrapping("X"))]);
    assert_eq!(
        enum_from_variant::derive(&input),
        Err(DeriveError::MalformedAttribute { variant: 0, attribute: 0 })
    );
}

#[test]
fn list_with_an_entry_that_is_no_string_literal_is_malformed() {
    for items in [
        vec![ListItem::Other],
        vec![ListItem::Other, literal("X")],
        vec![literal("X"), ListItem::Other],
        vec![literal("X"), ListItem::Other, literal("Y")],
    ] {
        let input = an_enum(
            "E",
            vec![
                variant("A", vec![marked(&["X"])], wrapping("X")),
                variant(
                    "B",
                    vec![attribute("enum_from_variant", AttributeBody::List(items))],
                    wrapping("String"),
                ),
            ],
        );
        assert_eq!(
            enum_from_variant::derive(&input),
            Err(DeriveError::MalformedAttribute { variant: 1, attribute: 0 })
        );
    }
}

#[test]
fn first_malformed_attribute_in_declaration_order_is_reported() {
    let input = an_enum(
        "E",
        vec![
            variant("A", vec![marked(&["X"])], wrapping("X")),
            variant(
                "B",
                vec![marked(&["Y"]), marked(&[]), attribute("enum_from_variant", AttributeBody::Word)],
                Fields::Unit,
            ),
            variant("C", vec![attribute("enum_from_variant", AttributeBody::Word)], Fields::Unit),
        ],
    );
    assert_eq!(
        enum_from_variant::derive(&input),
        Err(DeriveError::MalformedAttribute { variant: 1, attribute: 1 })
    );
}

#[test]
fn malformed_attribute_comes_before_an_empty_target() {
    let input = an_enum(
        "E",
        vec![
            variant("A", vec![marked(&[""])], wrapping("X")),
            variant("B", vec![attribute("enum_from_variant", AttributeBody::Word)], Fields::Unit),
        ],
    );
    assert_eq!(
        enum_from_variant::derive(&input),
        Err(DeriveError::MalformedAttribute { variant: 1, attribute: 0 })
    );
}

#[test]
fn enum_without_any_attribute_fails() {
    let input = an_enum(
        "E",
        vec![
            variant("A", vec![], wrapping("X")),
            variant("B", vec![attribute("doc", AttributeBody::NameValue)], Fields::Unit),
        ],
    );
    let error = enum_from_variant::derive(&input).unwrap_err();
    assert_eq!(error, DeriveError::AttributeNotFound);
    assert_eq!(error.message(), "attribute not found");
}

#[test]
fn enum_without_variants_fails() {
    assert_eq!(
        enum_from_variant::derive(&an_enum("Never", vec![])),
        Err(DeriveError::AttributeNotFound)
    );
}

#[test]
fn variant_without_attribute_is_passed_over() {
    let input = an_enum(
        "E",
        vec![
            variant("Plain", vec![], wrapping("Plain")),
            variant("A", vec![marked(&["X"])], wrapping("X")),
            variant(
                "Other",
                vec![attribute("serde", AttributeBody::List(vec![ListItem::Other]))],
                Fields::Unit,
            ),
        ],
    );
    assert_eq!(
        enum_from_variant::derive(&input),
        Ok(vec![rule("X", "E", "A", ConversionBody::Wrap, (1, 0, 0))])
    );
}

#[test]
fn attributes_of_other_names_are_not_read() {
    let input = an_enum(
        "E",
        vec![variant(
            "A",
            vec![
                attribute("doc", AttributeBody::NameValue),
                attribute("allow", AttributeBody::List(vec![literal("NotATarget")])),
                attribute("non_exhaustive", AttributeBody::Word),
                attribute("cfg", AttributeBody::Unparsed),
                attribute("enum_from_variants", AttributeBody::List(vec![literal("")])),
                marked(&["X"]),
            ],
            wrapping("X"),
        )],
    );
    assert_eq!(
        enum_from_variant::derive(&input),
        Ok(vec![rule("X", "E", "A", ConversionBody::Wrap, (0, 5, 0))])
    );
}

#[test]
fn same_target_twice_gives_two_rules() {
    let input = an_enum(
        "E",
        vec![
            variant("A", vec![marked(&["X", "X"])], wrapping("X")),
            variant("B", vec![marked(&["X"])], wrapping("String")),
        ],
    );
    assert_eq!(
        enum_from_variant::derive(&input),
        Ok(vec![
            rule("X", "E", "A", ConversionBody::Wrap, (0, 0, 0)),
            rule("X", "E", "A", ConversionBody::Wrap, (0, 0, 1)),
            rule("X", "E", "B", ConversionBody::WrapText, (1, 0, 0)),
        ])
    );
}

#[test]
fn generation_is_repeatable() {
    let input = an_enum(
        "MainError",
        vec![
            variant("Network", vec![marked(&["NetworkError"])], wrapping("String")),
            variant("Database", vec![marked(&["DatabaseError"])], wrapping("DatabaseError")),
        ],
    );
    let first = emit(&enum_from_variant::derive(&input).unwrap());
    let second = emit(&enum_from_variant::derive(&input.clone()).unwrap());
    assert_eq!(first, second);
    assert_eq!(
        first,
        "impl From<NetworkError> for MainError { fn from(err: NetworkError) -> MainError { \
         MainError::Network(err.to_string()) } }\n\
         impl From<DatabaseError> for MainError { fn from(err: DatabaseError) -> MainError { \
         MainError::Database(err) } }\n"
    );
}

#[test]
fn no_rules_emit_no_text() {
    assert_eq!(emit(&Vec::new()), "");
}

#[test]
fn rule_writes_its_own_source() {
    let direct = rule("T", "E", "V", ConversionBody::Wrap, (0, 0, 0));
    assert_eq!(direct.to_source(), "impl From<T> for E { fn from(err: T) -> E { E::V(err) } }");
    let text = rule("T", "E", "V", ConversionBody::WrapText, (0, 0, 0));
    assert_eq!(
        text.to_source(),
        "impl From<T> for E { fn from(err: T) -> E { E::V(err.to_string()) } }"
    );
}
