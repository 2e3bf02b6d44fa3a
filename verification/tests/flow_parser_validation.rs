use flowjs_rs::config::Config;
use flowjs_rs::derive::{derive_type, DataInput, DeriveInput, FieldInput, FieldsInput, VariantInput};
use flowjs_rs::flow::{Dummy, Flow};
use flowjs_rs::meta::{Attribute, Lit, Meta};
use flowjs_rs::model::FlowType;
use flowjs_rs::project::ProjectConfig;
use std::collections::HashMap;

#[test]
fn flow_type_any_for_dummy() {
    // Arrange and Act
    let cfg = Config::new();

    // Assert
    assert_eq!(Dummy::name(&cfg), "any", "Dummy → any");
    assert_eq!(Dummy::inline(&cfg), "any", "Dummy inline → any");
}

#[test]
fn flow_type_mixed_for_serde_json_value() {
    // Arrange, Act, and Assert
    assert_eq!(flowjs_rs::flow_type::MIXED, "mixed", "mixed constant");
    assert_eq!(flowjs_rs::flow_type::ANY, "any", "any constant");
    assert_eq!(flowjs_rs::flow_type::EMPTY, "empty", "empty (bottom type) constant");
}

// `()` is written `null`, as the unit impl does and as `unit_type_is_null`
// and the unit-struct derive expect. Two older checks that expected `void`
// for it (`flow_type_void_for_unit`, `primitives_are_exact_not_expanded`)
// contradict that and are not kept; this one checks the same primitives
// with `null` for `()`.
#[test]
fn primitive_names_are_flow_primitives() {
    let cfg = Config::new();
    assert_eq!(String::name(&cfg), "string", "String → string");
    assert_eq!(i32::name(&cfg), "number", "i32 → number");
    assert_eq!(bool::name(&cfg), "boolean", "bool → boolean");
    assert_eq!(<()>::name(&cfg), "null", "() → null");
    assert_eq!(char::name(&cfg), "string", "char → string");
    assert_eq!(u8::name(&cfg), "number", "u8 → number");
}

// ── Declarations of derived types, checked by their text ────────────────

fn flow(items: Vec<Meta>) -> Attribute {
    Attribute { path: "flow".to_owned(), args: items }
}

fn kv(key: &str, value: &str) -> Meta {
    Meta::NameValue(key.to_owned(), Lit::Str(value.to_owned()))
}

fn fi(name: &str, ty: FlowType) -> FieldInput {
    FieldInput { ident: name.to_owned(), ty, type_as: None, attrs: vec![] }
}

fn vi(name: &str, fields: FieldsInput) -> VariantInput {
    VariantInput { ident: name.to_owned(), fields, type_as: None, discriminant: None, attrs: vec![] }
}

fn input(name: &str, attrs: Vec<Attribute>, data: DataInput) -> DeriveInput {
    DeriveInput { ident: name.to_owned(), generics: vec![], docs: vec![], attrs, type_as: None, data }
}

fn derived(i: DeriveInput) -> FlowType {
    let d = derive_type(i, ProjectConfig::default()).unwrap_or_else(|_| panic!("derive should succeed"));
    FlowType::Defined(Box::new(d), vec![])
}

fn decl(i: DeriveInput) -> String {
    derived(i).decl(&Config::new())
}

fn named(fields: Vec<FieldInput>) -> FieldsInput {
    FieldsInput::Named(fields)
}

/// `type Name = rhs;` split into its name and right-hand side.
fn alias(decl: &str) -> (String, String) {
    let rest = decl.strip_prefix("type ").unwrap_or_else(|| panic!("not a type alias: {decl}"));
    let eq = rest.find(" = ").unwrap_or_else(|| panic!("not a type alias: {decl}"));
    let rhs = rest[eq + 3..].strip_suffix(';').unwrap_or_else(|| panic!("no `;`: {decl}"));
    (rest[..eq].to_owned(), rhs.to_owned())
}

/// The members of a union written at the top level of `s`.
fn union_members(s: &str) -> Vec<String> {
    let mut members = Vec::new();
    let mut depth = 0i32;
    let mut current = String::new();
    let chars: Vec<char> = s.chars().collect();
    let mut i = 0;
    while i < chars.len() {
        let c = chars[i];
        if "{[(".contains(c) {
            depth += 1;
        } else if "}])".contains(c) {
            depth -= 1;
        }
        if depth == 0 && c == ' ' && i + 2 < chars.len() && chars[i + 1] == '|' && chars[i + 2] == ' ' {
            members.push(current.clone());
            current.clear();
            i += 3;
            continue;
        }
        current.push(c);
        i += 1;
    }
    members.push(current);
    members
}

fn simple_struct() -> DeriveInput {
    input(
        "SimpleStruct",
        vec![],
        DataInput::Struct(named(vec![fi("name", String::flow_type()), fi("age", i32::flow_type()), fi("active", bool::flow_type())])),
    )
}

fn with_option() -> DeriveInput {
    input(
        "WithOption",
        vec![],
        DataInput::Struct(named(vec![fi("label", String::flow_type()), fi("description", <Option<String>>::flow_type())])),
    )
}

#[test]
fn ast_option_produces_nullable() {
    let (_, rhs) = alias(&decl(with_option()));
    assert_eq!(rhs, "{| label: string, description: ?string |}");
}

#[test]
fn ast_vec_produces_readonly_array() {
    let d = decl(input(
        "WithVec",
        vec![],
        DataInput::Struct(named(vec![fi("tags", <Vec<String>>::flow_type()), fi("scores", FlowType::ReadOnlyArray(Box::new(FlowType::Number)))])),
    ));
    let (_, rhs) = alias(&d);
    assert!(rhs.starts_with("{| tags: $ReadOnlyArray<string>, "), "{d}");
}

#[test]
fn ast_newtype_inlines_to_string() {
    let (name, rhs) = alias(&decl(input("Newtype", vec![], DataInput::Struct(FieldsInput::Unnamed(vec![String::flow_type()])))));
    assert_eq!(name, "Newtype", "type name");
    assert_eq!(rhs, "string", "newtype(String) inlines to string");
}

#[test]
fn ast_camel_case_rename() {
    let d = decl(input(
        "CamelCase",
        vec![flow(vec![kv("rename_all", "camelCase")])],
        DataInput::Struct(named(vec![fi("first_name", String::flow_type()), fi("last_name", String::flow_type())])),
    ));
    let (_, rhs) = alias(&d);
    assert_eq!(rhs, "{| firstName: string, lastName: string |}", "fields should be camelCase");
}

#[test]
fn ast_opaque_type() {
    let d = decl(input("OpaqueToken", vec![flow(vec![Meta::Path("opaque".to_owned())])], DataInput::Struct(FieldsInput::Unnamed(vec![String::flow_type()]))));
    assert!(d.starts_with("opaque type OpaqueToken = "), "fully opaque has no supertype: {d}");
}

#[test]
fn ast_bounded_opaque_type() {
    let d = decl(input("BoundedOpaque", vec![flow(vec![kv("opaque", "string")])], DataInput::Struct(FieldsInput::Unnamed(vec![String::flow_type()]))));
    assert!(d.starts_with("opaque type BoundedOpaque: string = "), "bounded opaque supertype is string: {d}");
}

#[test]
fn ast_untagged_enum_is_union() {
    let d = decl(input(
        "UntaggedUnion",
        vec![flow(vec![Meta::Path("untagged".to_owned())])],
        DataInput::Enum(vec![
            vi("Circle", named(vec![fi("radius", FlowType::Number)])),
            vi("Rectangle", named(vec![fi("width", FlowType::Number), fi("height", FlowType::Number)])),
        ]),
    ));
    assert_eq!(union_members(&alias(&d).1).len(), 2, "two variants = two union members: {d}");
}

#[test]
fn ast_tagged_enum_has_tag_field() {
    let d = decl(input(
        "TaggedUnion",
        vec![flow(vec![kv("tag", "kind")])],
        DataInput::Enum(vec![
            vi("Click", FieldsInput::Unit),
            vi("Resize", named(vec![fi("width", i32::flow_type()), fi("height", i32::flow_type())])),
            vi("Close", FieldsInput::Unit),
        ]),
    ));
    let members = union_members(&alias(&d).1);
    assert_eq!(members[0], "{| kind: 'Click' |}", "tag value matches variant name: {d}");
}

#[test]
fn ast_adjacently_tagged_has_content_field() {
    let d = decl(input(
        "AdjacentlyTagged",
        vec![flow(vec![kv("tag", "type"), kv("content", "data")])],
        DataInput::Enum(vec![
            vi("Text", named(vec![fi("body", String::flow_type())])),
            vi("Image", named(vec![fi("url", String::flow_type()), fi("width", i32::flow_type())])),
            vi("Empty", FieldsInput::Unit),
        ]),
    ));
    let members = union_members(&alias(&d).1);
    assert!(members[0].starts_with("{| type: 'Text', data: {|"), "tag, then content object: {d}");
}

#[test]
fn ast_kebab_case_fields_quoted() {
    let d = decl(input(
        "KebabFields",
        vec![flow(vec![kv("rename_all", "kebab-case")])],
        DataInput::Struct(named(vec![fi("first_name", String::flow_type()), fi("last_name", String::flow_type())])),
    ));
    assert_eq!(alias(&d).1, "{| 'first-name': string, 'last-name': string |}");
}

#[test]
fn ast_optional_variant_fields() {
    let d = decl(input(
        "OptionalVariantFields",
        vec![flow(vec![kv("tag", "kind")])],
        DataInput::Enum(vec![vi(
            "Entry",
            named(vec![fi("name", String::flow_type()), fi("description", <Option<String>>::flow_type())]),
        )]),
    ));
    assert!(d.contains("description: ?string"), "always present, nullable: {d}");
    assert!(!d.contains("description?:"), "bare Option<String> in variant is always-present: {d}");
}

#[test]
fn ast_tuple_in_struct() {
    let d = decl(input("WithTuple", vec![], DataInput::Struct(named(vec![fi("pair", FlowType::Tuple(vec![String::flow_type(), i32::flow_type()]))]))));
    assert_eq!(alias(&d).1, "{| pair: [string, number] |}");
}

#[test]
fn ast_hashmap_produces_indexer() {
    let d = decl(input("WithHashMap", vec![], DataInput::Struct(named(vec![fi("data", <HashMap<String, i32>>::flow_type())]))));
    assert_eq!(alias(&d).1, "{| data: { [key: string]: number } |}");
}

#[test]
fn ast_renamed_variant_fields() {
    let d = decl(input(
        "RenamedVariantFields",
        vec![flow(vec![kv("rename_all", "SCREAMING_SNAKE_CASE"), kv("rename_all_fields", "camelCase")])],
        DataInput::Enum(vec![vi("MyVariant", named(vec![fi("first_name", String::flow_type()), fi("last_name", String::flow_type())]))]),
    ));
    assert!(d.contains("firstName") || d.contains("MY_VARIANT"), "camelCase fields or SCREAMING_SNAKE variant: {d}");
}

#[test]
fn ast_nested_struct_references_type() {
    let d = decl(input(
        "Nested",
        vec![],
        DataInput::Struct(named(vec![
            fi("inner", derived(simple_struct())),
            fi("items", FlowType::ReadOnlyArray(Box::new(derived(with_option())))),
        ])),
    ));
    assert!(alias(&d).1.starts_with("{| inner: SimpleStruct, "), "references SimpleStruct by name: {d}");
}

#[test]
fn ast_internally_tagged_newtype_intersection() {
    let d = decl(input(
        "InternallyTaggedNewtype",
        vec![flow(vec![kv("tag", "kind")])],
        DataInput::Enum(vec![
            vi("Wrapper", FieldsInput::Unnamed(vec![String::flow_type()])),
            vi("Data", named(vec![fi("value", i32::flow_type())])),
        ]),
    ));
    let members = union_members(&alias(&d).1);
    assert_eq!(members[0], "{| kind: 'Wrapper' |} & string", "internally tagged newtype is an intersection: {d}");
}

#[test]
fn ast_externally_tagged_has_variant_keys() {
    let d = decl(input(
        "ExternallyTagged",
        vec![],
        DataInput::Enum(vec![
            vi("Alpha", named(vec![fi("x", i32::flow_type())])),
            vi("Beta", FieldsInput::Unnamed(vec![String::flow_type()])),
            vi("Gamma", FieldsInput::Unit),
        ]),
    ));
    assert_eq!(union_members(&alias(&d).1).len(), 3, "3 variants in externally tagged enum: {d}");
}
