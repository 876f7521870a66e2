use enum_from_variant::classify::{get_inner_ident_type, get_variant_unnamed_ident, PayloadShape};
use enum_from_variant::error::{DeriveError, Location};
use enum_from_variant::extract::{
    get_attributes, is_marked, map_enum_data_from_variant, marked_entries, AttributeError,
    MapEnumData,
};
use enum_from_variant::generate::synthesize_all;
use enum_from_variant::syntax::{Attribute, AttributeBody, FieldType, Fields, ListItem, Variant};
use enum_from_variant::synthesize::{synthesize, ConversionBody, ConversionRule};

fn path(segments: &[&str]) -> FieldType {
    FieldType::Path(segments.iter().map(|s| s.to_string()).collect())
}

fn text(value: &str) -> ListItem {
    ListItem::Literal(value.to_string())
}

fn list(name: &str, items: Vec<ListItem>) -> Attribute {
    Attribute { name: name.to_string(), body: AttributeBody::List(items) }
}

fn other(name: &str, body: AttributeBody) -> Attribute {
    Attribute { name: name.to_string(), body }
}

fn entry(variant: &str, target: &str, inner: Option<&str>, at: (usize, usize, usize)) -> MapEnumData {
    MapEnumData {
        variant_ident: variant.to_string(),
        target: target.to_string(),
        inner_ident: inner.map(|s| s.to_string()),
        at: Location { variant: at.0, attribute: at.1, item: at.2 },
    }
}

#[test]
fn inner_ident_of_payloads_without_an_unnamed_field() {
    assert_eq!(get_variant_unnamed_ident(&Fields::Unit), None);
    assert_eq!(get_variant_unnamed_ident(&Fields::Named), None);
    assert_eq!(get_variant_unnamed_ident(&Fields::Unnamed(vec![])), None);
}

#[test]
fn inner_ident_is_the_first_segment_of_the_first_field() {
    assert_eq!(
        get_variant_unnamed_ident(&Fields::Unnamed(vec![path(&["String"])])),
        Some("String".to_string())
    );
    assert_eq!(
        get_variant_unnamed_ident(&Fields::Unnamed(vec![path(&["std", "string", "String"])])),
        Some("std".to_string())
    );
    assert_eq!(
        get_variant_unnamed_ident(&Fields::Unnamed(vec![path(&["A"]), path(&["String"])])),
        Some("A".to_string())
    );
}

#[test]
fn inner_ident_of_a_type_that_is_no_path() {
    assert_eq!(get_variant_unnamed_ident(&Fields::Unnamed(vec![FieldType::Other])), None);
    assert_eq!(
        get_variant_unnamed_ident(&Fields::Unnamed(vec![FieldType::Other, path(&["A"])])),
        None
    );
    assert_eq!(get_variant_unnamed_ident(&Fields::Unnamed(vec![path(&[])])), None);
}

#[test]
fn shapes_of_inner_idents() {
    assert_eq!(get_inner_ident_type(&Some("String".to_string())), PayloadShape::StringLike);
    assert_eq!(get_inner_ident_type(&Some("DatabaseError".to_string())), PayloadShape::Direct);
    assert_eq!(get_inner_ident_type(&Some("string".to_string())), PayloadShape::Direct);
    assert_eq!(get_inner_ident_type(&Some("r#String".to_string())), PayloadShape::Direct);
    assert_eq!(get_inner_ident_type(&Some("Strings".to_string())), PayloadShape::Direct);
    assert_eq!(get_inner_ident_type(&Some(String::new())), PayloadShape::Direct);
    assert_eq!(get_inner_ident_type(&None), PayloadShape::NoInner);
}

#[test]
fn marker_name_is_matched_exactly() {
    assert!(is_marked(&list("enum_from_variant", vec![])));
    assert!(is_marked(&other("enum_from_variant", AttributeBody::Word)));
    assert!(!is_marked(&list("enum_from_variants", vec![])));
    assert!(!is_marked(&list("Enum_from_variant", vec![])));
    assert!(!is_marked(&list("", vec![])));
}

#[test]
fn attributes_of_a_variant_are_read_in_order() {
    let variant = Variant {
        name: "Io".to_string(),
        attributes: vec![
            list("enum_from_variant", vec![text("A"), text("B")]),
            list("doc", vec![text("skipped")]),
            list("enum_from_variant", vec![text("")]),
        ],
        fields: Fields::Unnamed(vec![path(&["String"])]),
    };
    assert_eq!(
        get_attributes(&variant, 7),
        Ok(vec![
            entry("Io", "A", Some("String"), (7, 0, 0)),
            entry("Io", "B", Some("String"), (7, 0, 1)),
            entry("Io", "", Some("String"), (7, 2, 0)),
        ])
    );
}

#[test]
fn variant_without_marked_attribute_is_not_found() {
    let bare = Variant { name: "A".to_string(), attributes: vec![], fields: Fields::Unit };
    assert_eq!(get_attributes(&bare, 0), Err(AttributeError::NotFound));
    let unmarked = Variant {
        name: "A".to_string(),
        attributes: vec![list("doc", vec![text("X")]), other("serde", AttributeBody::Word)],
        fields: Fields::Unit,
    };
    assert_eq!(get_attributes(&unmarked, 0), Err(AttributeError::NotFound));
}

#[test]
fn first_malformed_attribute_of_a_variant_is_reported() {
    let variant = Variant {
        name: "A".to_string(),
        attributes: vec![
            list("enum_from_variant", vec![text("X")]),
            other("enum_from_variant", AttributeBody::NameValue),
            other("enum_from_variant", AttributeBody::Word),
        ],
        fields: Fields::Unit,
    };
    assert_eq!(get_attributes(&variant, 3), Err(AttributeError::Malformed { attribute: 1 }));
}

#[test]
fn marked_list_must_hold_one_or_more_string_literals() {
    for items in [
        vec![],
        vec![ListItem::Other],
        vec![text("A"), ListItem::Other],
        vec![ListItem::Other, text("A")],
    ] {
        let variant = Variant {
            name: "V".to_string(),
            attributes: vec![list("doc", vec![]), list("enum_from_variant", items)],
            fields: Fields::Unnamed(vec![path(&["String"])]),
        };
        assert_eq!(get_attributes(&variant, 0), Err(AttributeError::Malformed { attribute: 1 }));
    }
}

#[test]
fn entries_of_all_variants_are_collected() {
    let variants = vec![
        Variant {
            name: "A".to_string(),
            attributes: vec![list("enum_from_variant", vec![text("X")])],
            fields: Fields::Unnamed(vec![path(&["X"])]),
        },
        Variant { name: "B".to_string(), attributes: vec![], fields: Fields::Unit },
        Variant {
            name: "C".to_string(),
            attributes: vec![list("enum_from_variant", vec![text("Y"), text("Z")])],
            fields: Fields::Named,
        },
    ];
    assert_eq!(
        map_enum_data_from_variant(&variants),
        Ok(vec![
            entry("A", "X", Some("X"), (0, 0, 0)),
            entry("C", "Y", None, (2, 0, 0)),
            entry("C", "Z", None, (2, 0, 1)),
        ])
    );
}

#[test]
fn collecting_fails_as_the_variants_do() {
    assert_eq!(map_enum_data_from_variant(&vec![]), Err(DeriveError::AttributeNotFound));
    let variants = vec![
        Variant { name: "A".to_string(), attributes: vec![], fields: Fields::Unit },
        Variant {
            name: "B".to_string(),
            attributes: vec![list("doc", vec![]), other("enum_from_variant", AttributeBody::Unparsed)],
            fields: Fields::Unit,
        },
    ];
    assert_eq!(
        map_enum_data_from_variant(&variants),
        Err(DeriveError::MalformedAttribute { variant: 1, attribute: 1 })
    );
}

#[test]
fn parsed_list_gives_its_entries() {
    let name = "V".to_string();
    let inner = Some("String".to_string());
    let body = AttributeBody::List(vec![text("A"), text(""), text("B")]);
    assert_eq!(
        marked_entries(&name, &inner, &body, 3, 5),
        Ok(vec![
            entry("V", "A", Some("String"), (3, 5, 0)),
            entry("V", "", Some("String"), (3, 5, 1)),
            entry("V", "B", Some("String"), (3, 5, 2)),
        ])
    );
}

#[test]
fn parsed_attribute_of_another_form_is_malformed() {
    let name = "V".to_string();
    for body in [
        AttributeBody::Word,
        AttributeBody::NameValue,
        AttributeBody::Unparsed,
        AttributeBody::List(vec![]),
        AttributeBody::List(vec![ListItem::Other]),
        AttributeBody::List(vec![text("A"), text("B"), ListItem::Other]),
    ] {
        assert_eq!(
            marked_entries(&name, &None, &body, 1, 2),
            Err(AttributeError::Malformed { attribute: 2 })
        );
    }
}

#[test]
fn one_directive_gives_one_rule_or_its_place() {
    let name = "E".to_string();
    assert_eq!(
        synthesize(&name, &entry("V", "T", Some("T"), (1, 2, 3))),
        Ok(ConversionRule {
            from_type: "T".to_string(),
            enum_name: "E".to_string(),
            variant: "V".to_string(),
            body: ConversionBody::Wrap,
            origin: Location { variant: 1, attribute: 2, item: 3 },
        })
    );
    assert_eq!(
        synthesize(&name, &entry("V", "T", Some("String"), (0, 0, 0))).unwrap().body,
        ConversionBody::WrapText
    );
    assert_eq!(
        synthesize(&name, &entry("V", "T", None, (0, 0, 0))).unwrap().body,
        ConversionBody::WrapText
    );
    assert_eq!(
        synthesize(&name, &entry("V", "", Some("T"), (4, 5, 6))),
        Err(Location { variant: 4, attribute: 5, item: 6 })
    );
}

#[test]
fn all_failing_directives_are_reported() {
    let name = "E".to_string();
    let data = vec![
        entry("A", "X", Some("X"), (0, 0, 0)),
        entry("A", "", Some("X"), (0, 0, 1)),
        entry("B", "", None, (1, 0, 0)),
        entry("B", "Y", None, (1, 0, 1)),
    ];
    assert_eq!(
        synthesize_all(&name, &data),
        Err(DeriveError::EmptyTargetName {
            at: vec![
                Location { variant: 0, attribute: 0, item: 1 },
                Location { variant: 1, attribute: 0, item: 0 },
            ]
        })
    );
    assert_eq!(synthesize_all(&name, &Vec::new()), Ok(vec![]));
}
