//! The parser's AST nodes: their tags, names and members.

use flowjs_rs::ast::{
    check_parse_errors, EnumBody, EnumBooleanInit, EnumMember, EnumNumberInit, EnumStringInit, Error, Identifier,
    ParseError, PropertyKey, TypeAnnotation, TypeIdentifier,
};

fn ident(name: &str) -> Identifier {
    Identifier { name: name.to_owned() }
}

#[test]
fn annotation_tags_name_their_node() {
    assert_eq!(TypeAnnotation::StringTypeAnnotation.type_tag(), "StringTypeAnnotation");
    assert_eq!(TypeAnnotation::NumberLiteralTypeAnnotation { value_bits: 200.0f64.to_bits() }.type_tag(), "NumberLiteralTypeAnnotation");
    assert_eq!(
        TypeAnnotation::NullableTypeAnnotation { type_annotation: Box::new(TypeAnnotation::StringTypeAnnotation) }.type_tag(),
        "NullableTypeAnnotation"
    );
    assert_eq!(TypeAnnotation::UnionTypeAnnotation { types: vec![] }.type_tag(), "UnionTypeAnnotation");
    assert_eq!(TypeAnnotation::IndexedAccessType {
        object_type: Box::new(TypeAnnotation::AnyTypeAnnotation),
        index_type: Box::new(TypeAnnotation::StringLiteralTypeAnnotation { value: "k".to_owned() }),
    }
    .type_tag(), "IndexedAccessType");
    assert_eq!(TypeAnnotation::Other.type_tag(), "Other");
}

#[test]
fn enum_bodies_list_their_members() {
    let body = EnumBody::EnumNumberBody {
        members: vec![
            EnumMember::EnumNumberMember { id: ident("Ok"), init: EnumNumberInit { value_bits: 200.0f64.to_bits() } },
            EnumMember::EnumNumberMember { id: ident("NotFound"), init: EnumNumberInit { value_bits: 404.0f64.to_bits() } },
        ],
        explicit_type: true,
        has_unknown_members: false,
    };
    assert_eq!(body.type_tag(), "EnumNumberBody");
    let members = body.members();
    assert_eq!(members.len(), 2);
    assert_eq!(members[1].name(), Some("NotFound"));
    match &members[0] {
        EnumMember::EnumNumberMember { init, .. } => assert_eq!(f64::from_bits(init.value_bits), 200.0),
        _ => panic!("expected a number member"),
    }
    assert!(EnumBody::Other.members().is_empty());
    assert_eq!(EnumBody::Other.type_tag(), "Other");
    let strings = EnumBody::EnumStringBody {
        members: vec![EnumMember::EnumStringMember { id: ident("Active"), init: EnumStringInit { value: "active".to_owned() } }],
        explicit_type: true,
        has_unknown_members: false,
    };
    assert_eq!(strings.members()[0].name(), Some("Active"));
    let bools = EnumMember::EnumBooleanMember { id: ident("Yes"), init: EnumBooleanInit { value: true } };
    assert_eq!(bools.name(), Some("Yes"));
    assert_eq!(EnumMember::EnumDefaultedMember { id: ident("Up") }.name(), Some("Up"));
    assert_eq!(EnumMember::Other.name(), None);
}

#[test]
fn property_keys_give_their_text() {
    let plain = PropertyKey::Identifier { name: "firstName".to_owned() };
    assert_eq!(plain.name(), Some("firstName"));
    assert!(!plain.is_quoted());
    let quoted = PropertyKey::Literal { value: Some("first-name".to_owned()) };
    assert_eq!(quoted.name(), Some("first-name"));
    assert!(quoted.is_quoted());
    assert_eq!(PropertyKey::Literal { value: None }.name(), None);
    assert_eq!(PropertyKey::Other.name(), None);
}

#[test]
fn qualified_identifiers_are_dotted() {
    let node = TypeIdentifier::QualifiedTypeIdentifier {
        qualification: Box::new(TypeIdentifier::Identifier { name: "React".to_owned() }),
        id: ident("Node"),
    };
    assert_eq!(node.full_name(), "React.Node");
    assert_eq!(node.name(), Some("Node"));
    assert_eq!(TypeIdentifier::Other.full_name(), "?");
    assert_eq!(TypeIdentifier::Other.name(), None);
}

#[test]
fn parse_errors_are_reported_in_order() {
    let none: Vec<ParseError> = vec![];
    assert!(check_parse_errors(&none).is_ok());
    let errors = vec![
        ParseError { message: "Unexpected token".to_owned(), loc: None },
        ParseError { message: "Missing `;`".to_owned(), loc: None },
    ];
    match check_parse_errors(&errors) {
        Err(e) => {
            assert!(matches!(&e, Error::Parse(ms) if ms.len() == 2));
            assert_eq!(e.message(), "parse errors: Unexpected token; Missing `;`");
        },
        Ok(()) => panic!("errors are reported"),
    }
    assert_eq!(Error::Runtime("boom".to_owned()).message(), "runtime error: boom");
    assert_eq!(Error::Deserialize("bad json".to_owned()).message(), "AST deserialization error: bad json");
}

#[test]
fn parse_script_passes_the_source_as_a_json_string() {
    let script = flowjs_rs::parser::parse_script("export type Foo = string;").unwrap_or_else(|_| panic!("script"));
    assert_eq!(
        script,
        "(function() {var ast = exports.parse(\"export type Foo = string;\", { types: true });return JSON.stringify(ast);})()"
    );
    let escaped = flowjs_rs::parser::parse_script("a\"b\\c\nd\u{1}").unwrap_or_else(|_| panic!("script"));
    assert!(escaped.contains("exports.parse(\"a\\\"b\\\\c\\nd\\u0001\", { types: true })"), "{escaped}");
}
