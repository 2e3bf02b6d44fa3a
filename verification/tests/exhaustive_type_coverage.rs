use flowjs_rs::attr::{ContainerAttr, FieldAttr, FlowEnumRepr, VariantAttr};
use flowjs_rs::config::Config;
use flowjs_rs::derive::{derive_type, DataInput, DeriveInput, FieldInput, FieldsInput, VariantInput};
use flowjs_rs::meta::{Attribute, Lit, Meta};
use flowjs_rs::export::export_to_string;
use flowjs_rs::project::ProjectConfig;
use flowjs_rs::flow::{Dummy, Flow};
use flowjs_rs::model::{Data, Discriminant, FieldDef, Fields, FlowType, GenericParam, TypeDef, VariantDef};
use std::collections::{HashMap, HashSet, VecDeque};

fn cfg() -> Config {
    Config::new()
}

fn field(name: &str, ty: FlowType) -> FieldDef {
    FieldDef { ident: name.to_owned(), ty, type_as: None, attr: FieldAttr::empty() }
}

fn def(name: &str, data: Data) -> TypeDef {
    TypeDef {
        ident: name.to_owned(),
        generics: vec![],
        docs: vec![],
        attr: ContainerAttr::empty(),
        type_as: None,
        data,
        opaque_newtypes: false,
    }
}

fn unit(name: &str) -> VariantDef {
    VariantDef { ident: name.to_owned(), fields: Fields::Unit, type_as: None, discriminant: None, attr: VariantAttr::empty() }
}

fn flow_enum(name: &str, repr: FlowEnumRepr, variants: Vec<VariantDef>) -> FlowType {
    let mut d = def(name, Data::Enum(variants));
    d.attr.flow_enum = Some(repr);
    FlowType::Defined(Box::new(d), vec![])
}

#[test]
fn unit_type_is_null() {
    let c = cfg();
    assert_eq!(<() as Flow>::name(&c), "null");
}

#[test]
fn infallible_is_empty() {
    let c = cfg();
    assert_eq!(FlowType::Never.name(&c), "empty");
}

#[test]
fn flow_enum_inline_is_name_reference() {
    let c = cfg();
    let symbol = flow_enum("SymbolEnum", FlowEnumRepr::Symbol, vec![unit("A"), unit("B")]);
    let string = flow_enum("StringEnum", FlowEnumRepr::String, vec![unit("A"), unit("B")]);
    let number = flow_enum("NumberEnum", FlowEnumRepr::Number, vec![unit("A"), unit("B")]);
    let boolean = flow_enum("BoolEnum", FlowEnumRepr::Boolean, vec![unit("Yes"), unit("No")]);
    assert_eq!(symbol.inline(&c), "SymbolEnum");
    assert_eq!(string.inline(&c), "StringEnum");
    assert_eq!(number.inline(&c), "NumberEnum");
    assert_eq!(boolean.inline(&c), "BoolEnum");
}

#[test]
fn all_primitives_render() {
    let c = cfg();
    let all = def(
        "AllPrimitives",
        Data::Struct(Fields::Named(vec![
            field("f_bool", bool::flow_type()),
            field("f_i8", i8::flow_type()),
            field("f_i64", i64::flow_type()),
            field("f_u128", u128::flow_type()),
            field("f_usize", usize::flow_type()),
            field("f_char", char::flow_type()),
            field("f_string", String::flow_type()),
        ])),
    );
    assert_eq!(
        FlowType::Defined(Box::new(all), vec![]).inline(&c),
        "{| f_bool: boolean, f_i8: number, f_i64: bigint, f_u128: bigint, f_usize: number, f_char: string, f_string: string |}"
    );
}

#[test]
fn large_int_follows_config() {
    let c = cfg().with_large_int("number".to_owned());
    assert_eq!(i64::name(&c), "number");
    assert_eq!(u64::inline(&c), "number");
}

#[test]
fn collections_and_maps() {
    let c = cfg();
    assert_eq!(<Vec<i32>>::name(&c), "$ReadOnlyArray<number>");
    assert_eq!(<HashSet<String>>::name(&c), "$ReadOnlyArray<string>");
    assert_eq!(<VecDeque<bool>>::name(&c), "$ReadOnlyArray<boolean>");
    assert_eq!(<HashMap<String, i32>>::name(&c), "{ [key: string]: number }");
    assert_eq!(<HashMap<String, i32>>::flow_type().inline_flattened(&c), "({ [key: string]: number })");
    assert_eq!(<Option<Option<i32>>>::name(&c), "??number");
    assert_eq!(<Result<String, i32>>::name(&c), "{| Ok: string |} | {| Err: number |}");
    assert_eq!(<Box<String>>::name(&c), "string");
}

#[test]
fn tuples_and_arrays() {
    let c = cfg();
    let pair = FlowType::Tuple(vec![FlowType::Text, FlowType::Number]);
    assert_eq!(pair.name(&c), "[string, number]");
    assert_eq!(<[i32; 3]>::name(&c), "[number, number, number]");
    assert_eq!(<[u8; 128]>::name(&c), "$ReadOnlyArray<number>");
    let c4 = cfg().with_array_tuple_limit(2);
    assert_eq!(<[i32; 3]>::name(&c4), "$ReadOnlyArray<number>");
}

#[test]
fn special_types() {
    let c = cfg();
    assert_eq!(FlowType::Void.name(&c), "void");
    assert_eq!(FlowType::Duration.name(&c), "{| +secs: number, +nanos: number |}");
    assert_eq!(FlowType::Range(Box::new(FlowType::Number)).name(&c), "{ +start: number, +end: number }");
    assert_eq!(FlowType::Json.name(&c), "JsonValue");
    assert_eq!(FlowType::Json.inline(&c), "mixed");
    assert_eq!(FlowType::Json.decl(&c), "type JsonValue = mixed;");
    assert_eq!(FlowType::Json.output_path(), Some("JsonValue".to_owned()));
    assert_eq!(FlowType::Function(vec![], Box::new(FlowType::Null)).name(&c), "() => null");
}

#[test]
fn identifiers() {
    let c = cfg();
    assert_eq!(<Vec<i32>>::flow_type().ident(&c), "$ReadOnlyArray");
    assert_eq!(<HashMap<String, i32>>::flow_type().try_ident(&c), None);
    assert_eq!(bool::flow_type().ident(&c), "boolean");
}

#[test]
fn primitives_have_no_declaration_or_flattened_form() {
    let c = cfg();
    assert_eq!(bool::flow_type().try_decl(&c), None);
    assert_eq!(bool::flow_type().try_render(flowjs_rs::model::Mode::Flat, &c), None);
}

#[test]
fn doc_comments_produce_jsdoc() {
    let c = cfg();
    let documented = DeriveInput {
        ident: "Documented".to_owned(),
        generics: vec![],
        docs: vec![" This is a documented type.".to_owned(), " It has multiple lines.".to_owned()],
        attrs: vec![],
        type_as: None,
        data: DataInput::Struct(FieldsInput::Named(vec![FieldInput {
            ident: "field".to_owned(),
            ty: String::flow_type(),
            type_as: None,
            attrs: vec![],
        }])),
    };
    let d = derive_type(documented, ProjectConfig::default()).unwrap_or_else(|_| panic!("derive should succeed"));
    let content = export_to_string(&FlowType::Defined(Box::new(d), vec![]), &c).unwrap_or_else(|_| panic!("export"));
    assert!(content.contains("/**"), "should have JSDoc open: {content}");
    assert!(content.contains(" * This is a documented type."), "should have doc line: {content}");
    assert!(content.contains(" */"), "should have JSDoc close: {content}");
    assert_eq!(
        content,
        "// @flow\n/**\n * This is a documented type.\n * It has multiple lines.\n */\nexport type Documented = {| field: string |};\n"
    );
}

// ── Derived declarations, checked by their text ─────────────────────────

fn flow_attr(items: Vec<Meta>) -> Attribute {
    Attribute { path: "flow".to_owned(), args: items }
}

fn serde_attr(items: Vec<Meta>) -> Attribute {
    Attribute { path: "serde".to_owned(), args: items }
}

fn kv(key: &str, value: &str) -> Meta {
    Meta::NameValue(key.to_owned(), Lit::Str(value.to_owned()))
}

fn key(k: &str) -> Meta {
    Meta::Path(k.to_owned())
}

fn fi(name: &str, ty: FlowType) -> FieldInput {
    FieldInput { ident: name.to_owned(), ty, type_as: None, attrs: vec![] }
}

fn fi_with(name: &str, ty: FlowType, attrs: Vec<Attribute>) -> FieldInput {
    FieldInput { ident: name.to_owned(), ty, type_as: None, attrs }
}

fn vi(name: &str, fields: FieldsInput) -> VariantInput {
    VariantInput { ident: name.to_owned(), fields, type_as: None, discriminant: None, attrs: vec![] }
}

fn vi_with(name: &str, fields: FieldsInput, attrs: Vec<Attribute>) -> VariantInput {
    VariantInput { ident: name.to_owned(), fields, type_as: None, discriminant: None, attrs }
}

fn struct_input(name: &str, attrs: Vec<Attribute>, fields: Vec<FieldInput>) -> DeriveInput {
    DeriveInput {
        ident: name.to_owned(),
        generics: vec![],
        docs: vec![],
        attrs,
        type_as: None,
        data: DataInput::Struct(FieldsInput::Named(fields)),
    }
}

fn enum_input(name: &str, attrs: Vec<Attribute>, variants: Vec<VariantInput>) -> DeriveInput {
    DeriveInput { ident: name.to_owned(), generics: vec![], docs: vec![], attrs, type_as: None, data: DataInput::Enum(variants) }
}

fn derive_flow(i: DeriveInput) -> FlowType {
    let d = derive_type(i, ProjectConfig::default()).unwrap_or_else(|_| panic!("derive should succeed"));
    FlowType::Defined(Box::new(d), vec![])
}

fn decl_of(i: DeriveInput) -> String {
    derive_flow(i).decl(&cfg())
}

/// The right-hand side of `type Name = rhs;`.
fn alias_rhs(decl: &str) -> String {
    let start = decl.find(" = ").unwrap_or_else(|| panic!("not a type alias: {decl}")) + 3;
    assert!(decl.ends_with(';'), "alias should end with `;`: {decl}");
    decl[start..decl.len() - 1].to_owned()
}

/// The members of a union written at the top level of `s`.
fn union_members(s: &str) -> Vec<String> {
    let mut members = Vec::new();
    let mut depth = 0i32;
    let mut current = String::new();
    let chars: Vec<char> = s.chars().collect();
    let mut i = 0;
    while i < chars.len() {
        let c = chars[i];
        if c == '{' || c == '[' || c == '(' || c == '<' {
            depth += 1;
        } else if c == '}' || c == ']' || c == ')' || c == '>' {
            depth -= 1;
        }
        if depth == 0 && c == ' ' && i + 2 < chars.len() && chars[i + 1] == '|' && chars[i + 2] == ' ' {
            members.push(current.clone());
            current.clear();
            i += 3;
            continue;
        }
        current.push(c);
        i += 1;
    }
    members.push(current);
    members
}

fn assert_field(decl: &str, field: &str, ty: &str) {
    let core = format!("{field}: {ty}");
    let found = [format!("{{| {core}, "), format!("{{| {core} |}}"), format!(", {core}, "), format!(", {core} |}}")]
        .iter()
        .any(|p| decl.contains(p.as_str()));
    assert!(found, "field `{field}` should be `{ty}`: {decl}");
}

fn all_primitives() -> DeriveInput {
    struct_input(
        "AllPrimitives",
        vec![],
        vec![
            fi("f_bool", bool::flow_type()),
            fi("f_i8", i8::flow_type()),
            fi("f_i16", i16::flow_type()),
            fi("f_i32", i32::flow_type()),
            fi("f_i64", i64::flow_type()),
            fi("f_i128", i128::flow_type()),
            fi("f_u8", u8::flow_type()),
            fi("f_u16", u16::flow_type()),
            fi("f_u32", u32::flow_type()),
            fi("f_u64", u64::flow_type()),
            fi("f_u128", u128::flow_type()),
            fi("f_f32", FlowType::Number),
            fi("f_f64", FlowType::Number),
            fi("f_usize", usize::flow_type()),
            fi("f_isize", isize::flow_type()),
            fi("f_char", char::flow_type()),
            fi("f_string", String::flow_type()),
        ],
    )
}

#[test]
fn primitives_parse_and_match() {
    let decl = decl_of(all_primitives());
    for f in ["f_bool"] {
        assert_field(&decl, f, "boolean");
    }
    for f in ["f_i8", "f_i16", "f_i32", "f_u8", "f_u16", "f_u32", "f_f32", "f_f64", "f_usize", "f_isize"] {
        assert_field(&decl, f, "number");
    }
    for f in ["f_i64", "f_i128", "f_u64", "f_u128"] {
        assert_field(&decl, f, "bigint");
    }
    for f in ["f_char", "f_string"] {
        assert_field(&decl, f, "string");
    }
}

#[test]
fn unit_struct_is_null() {
    let unit = DeriveInput {
        ident: "UnitStruct".to_owned(),
        generics: vec![],
        docs: vec![],
        attrs: vec![],
        type_as: None,
        data: DataInput::Struct(FieldsInput::Unit),
    };
    assert_eq!(alias_rhs(&decl_of(unit)), "null");
}

#[test]
fn phantom_data_is_void() {
    let decl = decl_of(struct_input("WithPhantom", vec![], vec![fi("marker", FlowType::Void)]));
    assert_field(&decl, "marker", "void");
}

#[test]
fn option_is_nullable_not_optional() {
    let decl = decl_of(struct_input(
        "WithOptions",
        vec![],
        vec![
            fi("required", String::flow_type()),
            fi("nullable", <Option<String>>::flow_type()),
            fi("nested_nullable", <Option<Option<i32>>>::flow_type()),
        ],
    ));
    assert_field(&decl, "nullable", "?string");
    assert!(!decl.contains("nullable?:"), "an Option field is present, not optional: {decl}");
}

#[test]
fn all_collections_are_readonly_array() {
    let decl = decl_of(struct_input(
        "AllCollections",
        vec![],
        vec![
            fi("vec", <Vec<i32>>::flow_type()),
            fi("hash_set", <HashSet<String>>::flow_type()),
            fi("btree_set", FlowType::ReadOnlyArray(Box::new(i32::flow_type()))),
            fi("vec_deque", <VecDeque<bool>>::flow_type()),
            fi("linked_list", FlowType::ReadOnlyArray(Box::new(FlowType::Number))),
        ],
    ));
    assert_field(&decl, "vec", "$ReadOnlyArray<number>");
    assert_field(&decl, "hash_set", "$ReadOnlyArray<string>");
    assert_field(&decl, "btree_set", "$ReadOnlyArray<number>");
    assert_field(&decl, "vec_deque", "$ReadOnlyArray<boolean>");
    assert_field(&decl, "linked_list", "$ReadOnlyArray<number>");
}

#[test]
fn maps_are_objects_with_indexers() {
    let decl = decl_of(struct_input(
        "AllMaps",
        vec![],
        vec![
            fi("hash_map", <HashMap<String, i32>>::flow_type()),
            fi("btree_map", FlowType::Dictionary(Box::new(String::flow_type()), Box::new(bool::flow_type()))),
        ],
    ));
    assert_field(&decl, "hash_map", "{ [key: string]: number }");
    assert_field(&decl, "btree_map", "{ [key: string]: boolean }");
}

#[test]
fn tuples_are_tuple_type_annotation() {
    let decl = decl_of(struct_input(
        "WithTuples",
        vec![],
        vec![
            fi("pair", FlowType::Tuple(vec![String::flow_type(), i32::flow_type()])),
            fi("triple", FlowType::Tuple(vec![bool::flow_type(), FlowType::Number, String::flow_type()])),
            fi("single", FlowType::Tuple(vec![i32::flow_type()])),
        ],
    ));
    assert_field(&decl, "pair", "[string, number]");
    assert_field(&decl, "triple", "[boolean, number, string]");
}

#[test]
fn small_array_is_tuple() {
    let decl = decl_of(struct_input("WithArrays", vec![], vec![fi("small", <[i32; 3]>::flow_type())]));
    assert_field(&decl, "small", "[number, number, number]");
}

#[test]
fn wrappers_are_transparent() {
    let wrap = |t: FlowType| FlowType::Transparent(Box::new(t));
    let decl = decl_of(struct_input(
        "AllWrappers",
        vec![],
        vec![
            fi("boxed", <Box<String>>::flow_type()),
            fi("arc", <std::sync::Arc<i32>>::flow_type()),
            fi("rc", <std::rc::Rc<bool>>::flow_type()),
            fi("cell", wrap(FlowType::Number)),
            fi("ref_cell", wrap(String::flow_type())),
            fi("mutex", wrap(i32::flow_type())),
            fi("rw_lock", wrap(bool::flow_type())),
            fi("wrapping", wrap(u32::flow_type())),
            fi("saturating", wrap(i64::flow_type())),
        ],
    ));
    assert_field(&decl, "boxed", "string");
    assert_field(&decl, "arc", "number");
    assert_field(&decl, "rc", "boolean");
    assert_field(&decl, "cell", "number");
    assert_field(&decl, "ref_cell", "string");
    assert_field(&decl, "mutex", "number");
    assert_field(&decl, "rw_lock", "boolean");
    assert_field(&decl, "wrapping", "number");
    assert_field(&decl, "saturating", "bigint");
}

#[test]
fn nonzero_types_are_number() {
    let small = ["nz_u8", "nz_u16", "nz_u32", "nz_usize", "nz_i8", "nz_i16", "nz_i32", "nz_isize"];
    let large = ["nz_u64", "nz_u128", "nz_i64", "nz_i128"];
    let mut fields: Vec<FieldInput> = small.iter().map(|f| fi(f, FlowType::Number)).collect();
    fields.extend(large.iter().map(|f| fi(f, FlowType::LargeInt)));
    let decl = decl_of(struct_input("AllNonZero", vec![], fields));
    for f in small {
        assert_field(&decl, f, "number");
    }
    for f in large {
        assert_field(&decl, f, "bigint");
    }
}

#[test]
fn string_like_types_are_string() {
    let names = ["path", "system_time", "ip", "ipv4", "ipv6", "sock", "sock4", "sock6"];
    let decl = decl_of(struct_input("StringLikes", vec![], names.iter().map(|f| fi(f, FlowType::Text)).collect()));
    for f in names {
        assert_field(&decl, f, "string");
    }
}

#[test]
fn range_and_duration_are_objects() {
    let decl = decl_of(struct_input(
        "StructuralTypes",
        vec![],
        vec![
            fi("range", FlowType::Range(Box::new(i32::flow_type()))),
            fi("range_incl", FlowType::Range(Box::new(FlowType::Number))),
            fi("duration", FlowType::Duration),
        ],
    ));
    assert_field(&decl, "range", "{ +start: number, +end: number }");
    assert_field(&decl, "duration", "{| +secs: number, +nanos: number |}");
}

#[test]
fn result_is_union_of_ok_err() {
    let decl = decl_of(struct_input("WithResult", vec![], vec![fi("result", <Result<String, i32>>::flow_type())]));
    assert_field(&decl, "result", "{| Ok: string |} | {| Err: number |}");
}

#[test]
fn fn_pointers_are_function_type_annotation() {
    let f = |args: Vec<FlowType>, ret: FlowType| FlowType::Function(args, Box::new(ret));
    let decl = decl_of(struct_input(
        "WithFunctions",
        vec![],
        vec![
            fi("no_args", f(vec![], String::flow_type())),
            fi("one_arg", f(vec![i32::flow_type()], bool::flow_type())),
            fi("two_args", f(vec![String::flow_type(), FlowType::Number], <()>::flow_type())),
            fi("three_args", f(vec![bool::flow_type(), i32::flow_type(), String::flow_type()], FlowType::Number)),
        ],
    ));
    assert_field(&decl, "no_args", "() => string");
    assert_field(&decl, "one_arg", "(arg0: number) => boolean");
    assert_field(&decl, "two_args", "(arg0: string, arg1: number) => null");
    assert_field(&decl, "three_args", "(arg0: boolean, arg1: number, arg2: string) => number");
}

#[test]
fn exhaustive_type_coverage_newtype_inlines_inner() {
    let newtype = DeriveInput {
        ident: "Newtype".to_owned(),
        generics: vec![],
        docs: vec![],
        attrs: vec![],
        type_as: None,
        data: DataInput::Struct(FieldsInput::Unnamed(vec![String::flow_type()])),
    };
    let decl = decl_of(newtype);
    assert!(decl.starts_with("type Newtype = "), "{decl}");
    assert_eq!(alias_rhs(&decl), "string");
}

#[test]
fn tuple_struct_is_tuple() {
    let tuple = DeriveInput {
        ident: "TupleStruct".to_owned(),
        generics: vec![],
        docs: vec![],
        attrs: vec![],
        type_as: None,
        data: DataInput::Struct(FieldsInput::Unnamed(vec![i32::flow_type(), bool::flow_type(), String::flow_type()])),
    };
    assert_eq!(alias_rhs(&decl_of(tuple)), "[number, boolean, string]");
}

#[test]
fn exhaustive_type_coverage_renamed_struct() {
    let decl = decl_of(struct_input("Renamed", vec![flow_attr(vec![kv("rename", "CustomName")])], vec![fi("x", i32::flow_type())]));
    assert!(decl.starts_with("type CustomName = "), "{decl}");
}

#[test]
fn camel_case_field_names() {
    let decl = decl_of(struct_input(
        "CamelFields",
        vec![flow_attr(vec![kv("rename_all", "camelCase")])],
        vec![fi("first_name", String::flow_type()), fi("last_name", String::flow_type())],
    ));
    assert_eq!(alias_rhs(&decl), "{| firstName: string, lastName: string |}");
}

#[test]
fn kebab_case_fields_are_quoted() {
    let decl = decl_of(struct_input(
        "KebabFields",
        vec![flow_attr(vec![kv("rename_all", "kebab-case")])],
        vec![fi("field_one", String::flow_type()), fi("field_two", i32::flow_type())],
    ));
    assert_field(&decl, "'field-one'", "string");
    assert_field(&decl, "'field-two'", "number");
}

#[test]
fn default_fields_have_no_variance_annotation() {
    let decl = decl_of(all_primitives());
    assert!(!decl.contains('+') && !decl.contains('-'), "no field should carry a variance: {decl}");
}

#[test]
fn opaque_fully() {
    let token = DeriveInput {
        ident: "OpaqueToken".to_owned(),
        generics: vec![],
        docs: vec![],
        attrs: vec![flow_attr(vec![key("opaque")])],
        type_as: None,
        data: DataInput::Struct(FieldsInput::Unnamed(vec![String::flow_type()])),
    };
    assert_eq!(decl_of(token), "opaque type OpaqueToken = string;");
}

#[test]
fn opaque_bounded() {
    let bounded = DeriveInput {
        ident: "BoundedOpaque".to_owned(),
        generics: vec![],
        docs: vec![],
        attrs: vec![flow_attr(vec![kv("opaque", "string")])],
        type_as: None,
        data: DataInput::Struct(FieldsInput::Unnamed(vec![String::flow_type()])),
    };
    assert_eq!(decl_of(bounded), "opaque type BoundedOpaque: string = string;");
}

fn named_fields(fields: Vec<FieldInput>) -> FieldsInput {
    FieldsInput::Named(fields)
}

#[test]
fn untagged_enum_is_union() {
    let decl = decl_of(enum_input(
        "Untagged",
        vec![flow_attr(vec![key("untagged")])],
        vec![
            vi("Circle", named_fields(vec![fi("radius", FlowType::Number)])),
            vi("Rect", named_fields(vec![fi("w", FlowType::Number), fi("h", FlowType::Number)])),
        ],
    ));
    assert_eq!(union_members(&alias_rhs(&decl)).len(), 2, "{decl}");
}

#[test]
fn internally_tagged_has_discriminant() {
    let decl = decl_of(enum_input(
        "InternallyTagged",
        vec![flow_attr(vec![kv("tag", "kind")])],
        vec![
            vi("Click", FieldsInput::Unit),
            vi("Move", named_fields(vec![fi("x", i32::flow_type()), fi("y", i32::flow_type())])),
        ],
    ));
    let members = union_members(&alias_rhs(&decl));
    assert_eq!(members[0], "{| kind: 'Click' |}", "{decl}");
}

#[test]
fn adjacently_tagged_has_tag_and_content() {
    let decl = decl_of(enum_input(
        "AdjacentlyTagged",
        vec![flow_attr(vec![kv("tag", "t"), kv("content", "v")])],
        vec![vi("Str", FieldsInput::Unnamed(vec![String::flow_type()])), vi("Num", FieldsInput::Unnamed(vec![i32::flow_type()]))],
    ));
    let members = union_members(&alias_rhs(&decl));
    assert_eq!(members[0], "{| t: 'Str', v: string |}", "{decl}");
}

#[test]
fn externally_tagged_has_variant_keys() {
    let decl = decl_of(enum_input(
        "ExternallyTagged",
        vec![],
        vec![
            vi("Alpha", named_fields(vec![fi("x", i32::flow_type())])),
            vi("Beta", FieldsInput::Unnamed(vec![String::flow_type()])),
            vi("Gamma", FieldsInput::Unit),
        ],
    ));
    assert_eq!(union_members(&alias_rhs(&decl)).len(), 3, "{decl}");
}

fn units(names: &[&str]) -> Vec<VariantInput> {
    names.iter().map(|n| vi(n, FieldsInput::Unit)).collect()
}

fn with_disc(name: &str, negative: bool, magnitude: u128) -> VariantInput {
    let mut v = vi(name, FieldsInput::Unit);
    v.discriminant = Some(Discriminant::Int { negative, magnitude });
    v
}

fn symbol_enum() -> DeriveInput {
    enum_input("SymbolEnum", vec![flow_attr(vec![key("flow_enum")])], units(&["Up", "Down", "Left", "Right"]))
}

fn string_enum() -> DeriveInput {
    enum_input(
        "StringEnum",
        vec![flow_attr(vec![kv("flow_enum", "string"), kv("rename_all", "lowercase")])],
        units(&["Active", "Paused", "Stopped"]),
    )
}

fn number_enum() -> DeriveInput {
    enum_input(
        "NumberEnum",
        vec![flow_attr(vec![kv("flow_enum", "number")])],
        vec![with_disc("Ok", false, 200), with_disc("NotFound", false, 404), with_disc("Internal", false, 500)],
    )
}

fn bool_enum() -> DeriveInput {
    enum_input("BoolEnum", vec![flow_attr(vec![kv("flow_enum", "boolean")])], units(&["Yes", "No"]))
}

#[test]
fn symbol_enum_parses() {
    assert_eq!(decl_of(symbol_enum()), "enum SymbolEnum {\n  Up,\n  Down,\n  Left,\n  Right,\n}");
}

#[test]
fn string_enum_has_values() {
    let decl = decl_of(string_enum());
    assert!(decl.starts_with("enum StringEnum of string {"), "{decl}");
    assert_eq!(decl.matches(" = ").count(), 3, "{decl}");
    assert!(decl.contains("\n  Active = 'active',"), "{decl}");
}

#[test]
fn number_enum_has_discriminants() {
    let decl = decl_of(number_enum());
    assert!(decl.starts_with("enum NumberEnum of number {"), "{decl}");
    assert_eq!(decl.matches(" = ").count(), 3, "{decl}");
    assert!(decl.contains("\n  Ok = 200,\n  NotFound = 404,"), "{decl}");
}

#[test]
fn number_enum_auto_increments() {
    let decl = decl_of(enum_input("AutoNumberEnum", vec![flow_attr(vec![kv("flow_enum", "number")])], units(&["A", "B", "C"])));
    assert!(decl.contains("\n  A = 0,\n  B = 1,\n  C = 2,"), "{decl}");
}

#[test]
fn boolean_enum_has_true_false() {
    let decl = decl_of(bool_enum());
    assert_eq!(decl, "enum BoolEnum of boolean {\n  Yes = true,\n  No = false,\n}");
}

#[test]
fn generic_type_has_params() {
    let mut wrapper = struct_input(
        "Wrapper",
        vec![],
        vec![fi("value", FlowType::Param("T".to_owned())), fi("label", String::flow_type())],
    );
    wrapper.generics = vec![GenericParam { ident: "T".to_owned(), concrete: None }];
    let d = derive_type(wrapper, ProjectConfig::default()).unwrap_or_else(|_| panic!("derive"));
    let decl = FlowType::Defined(Box::new(d), vec![Dummy::flow_type()]).decl(&cfg());
    assert!(decl.contains("Wrapper<T>"), "should have generic param: {decl}");
    assert!(decl.contains("value: T"), "should use param: {decl}");
}

fn base() -> FlowType {
    derive_flow(struct_input("Base", vec![], vec![fi("id", i32::flow_type())]))
}

#[test]
fn flatten_produces_intersection() {
    let decl = decl_of(struct_input(
        "Extended",
        vec![],
        vec![fi("name", String::flow_type()), fi_with("base", base(), vec![flow_attr(vec![key("flatten")])])],
    ));
    assert_eq!(alias_rhs(&decl), "{| name: string |} & {| id: number |}");
}

#[test]
fn serde_skip_serializing_if_makes_optional() {
    let decl = decl_of(struct_input(
        "SerdeOptional",
        vec![],
        vec![
            fi("required", String::flow_type()),
            fi_with("omittable", <Option<String>>::flow_type(), vec![serde_attr(vec![kv("skip_serializing_if", "Option::is_none")])]),
            fi_with("explicit_opt", String::flow_type(), vec![flow_attr(vec![key("optional")])]),
        ],
    ));
    assert_field(&decl, "required", "string");
    assert!(decl.contains("| omittable?: ") || decl.contains(", omittable?: "), "{decl}");
    assert!(decl.contains(", explicit_opt?: "), "{decl}");
}

#[test]
fn flow_enum_fields_are_generic_type_refs() {
    let decl = decl_of(struct_input(
        "UsesEnums",
        vec![],
        vec![
            fi("direction", derive_flow(symbol_enum())),
            fi("status", derive_flow(string_enum())),
            fi("code", derive_flow(number_enum())),
            fi("flag", derive_flow(bool_enum())),
        ],
    ));
    assert_field(&decl, "direction", "SymbolEnum");
    assert_field(&decl, "status", "StringEnum");
    assert_field(&decl, "code", "NumberEnum");
    assert_field(&decl, "flag", "BoolEnum");
}

#[test]
fn cow_is_transparent() {
    let decl = decl_of(struct_input("WithCow", vec![], vec![fi("borrowed", FlowType::Transparent(Box::new(<str>::flow_type())))]));
    assert_field(&decl, "borrowed", "string");
}

fn shapes() -> Vec<VariantInput> {
    vec![
        vi("Unit", FieldsInput::Unit),
        vi("Named", named_fields(vec![fi("x", i32::flow_type())])),
        vi("Newtype", FieldsInput::Unnamed(vec![String::flow_type()])),
        vi("Tuple", FieldsInput::Unnamed(vec![i32::flow_type(), bool::flow_type()])),
    ]
}

#[test]
fn ext_tagged_all_variant_shapes() {
    let decl = decl_of(enum_input("ExtTaggedFull", vec![], shapes()));
    assert_eq!(union_members(&alias_rhs(&decl)).len(), 4, "{decl}");
}

#[test]
fn int_tagged_all_variant_shapes() {
    let mut three = shapes();
    three.pop();
    let decl = decl_of(enum_input("IntTaggedFull", vec![flow_attr(vec![kv("tag", "t")])], three));
    assert_eq!(union_members(&alias_rhs(&decl)).len(), 3, "{decl}");
}

#[test]
fn adj_tagged_all_variant_shapes() {
    let decl = decl_of(enum_input("AdjTaggedFull", vec![flow_attr(vec![kv("tag", "t"), kv("content", "c")])], shapes()));
    assert_eq!(union_members(&alias_rhs(&decl)).len(), 4, "{decl}");
}

#[test]
fn untagged_all_variant_shapes() {
    let decl = decl_of(enum_input("UntaggedFull", vec![flow_attr(vec![key("untagged")])], shapes()));
    assert_eq!(union_members(&alias_rhs(&decl)).len(), 4, "{decl}");
}

#[test]
fn container_type_override() {
    let over = DeriveInput {
        ident: "TypeOverrideContainer".to_owned(),
        generics: vec![],
        docs: vec![],
        attrs: vec![flow_attr(vec![kv("type", "$ReadOnlyArray<string>")])],
        type_as: None,
        data: DataInput::Struct(FieldsInput::Unnamed(vec![<Vec<u8>>::flow_type()])),
    };
    assert_eq!(alias_rhs(&decl_of(over)), "$ReadOnlyArray<string>");
}

#[test]
fn container_as_override() {
    let mut over = struct_input(
        "AsOverrideContainer",
        vec![flow_attr(vec![kv("as", "Vec<String>")])],
        vec![fi("_data", <Vec<u8>>::flow_type())],
    );
    over.type_as = Some(<Vec<String>>::flow_type());
    assert!(alias_rhs(&decl_of(over)).starts_with("$ReadOnlyArray<"));
}

#[test]
fn field_skip_omits_field() {
    let decl = decl_of(struct_input(
        "FieldSkip",
        vec![],
        vec![fi("visible", String::flow_type()), fi_with("hidden", i32::flow_type(), vec![flow_attr(vec![key("skip")])])],
    ));
    assert_eq!(alias_rhs(&decl), "{| visible: string |}");
}

#[test]
fn field_type_override() {
    let decl = decl_of(struct_input(
        "FieldTypeOverride",
        vec![],
        vec![fi_with("data", <Vec<u8>>::flow_type(), vec![flow_attr(vec![kv("type", "mixed")])])],
    ));
    assert_field(&decl, "data", "mixed");
}

#[test]
fn field_as_override() {
    let mut data = fi_with("data", <Vec<u8>>::flow_type(), vec![flow_attr(vec![kv("as", "String")])]);
    data.type_as = Some(String::flow_type());
    let decl = decl_of(struct_input("FieldAsOverride", vec![], vec![data]));
    assert_field(&decl, "data", "string");
}

#[test]
fn field_inline_expands_type() {
    let decl = decl_of(struct_input("FieldInline", vec![], vec![fi_with("inner", base(), vec![flow_attr(vec![key("inline")])])]));
    assert!(decl.contains("{| inner: {| "), "inlined field should be an object: {decl}");
}

#[test]
fn field_rename() {
    let decl = decl_of(struct_input(
        "FieldRename",
        vec![],
        vec![fi_with("original", String::flow_type(), vec![flow_attr(vec![kv("rename", "customName")])])],
    ));
    assert_eq!(alias_rhs(&decl), "{| customName: string |}");
}

#[test]
fn all_rename_inflections_parse() {
    for (inflection, field, expected) in [
        ("UPPERCASE", "my_field", "MY_FIELD"),
        ("snake_case", "myField", "my_field"),
        ("PascalCase", "my_field", "MyField"),
        ("SCREAMING_SNAKE_CASE", "my_field", "MY_FIELD"),
        ("SCREAMING-KEBAB-CASE", "my_field", "'MY-FIELD'"),
    ] {
        let decl = decl_of(struct_input(
            "Fields",
            vec![flow_attr(vec![kv("rename_all", inflection)])],
            vec![fi(field, String::flow_type())],
        ));
        assert_field(&decl, expected, "string");
    }
}

#[test]
fn multi_generic_params() {
    let mut multi = struct_input(
        "MultiGeneric",
        vec![],
        vec![fi("first", FlowType::Param("A".to_owned())), fi("second", FlowType::Param("B".to_owned()))],
    );
    multi.generics = vec![
        GenericParam { ident: "A".to_owned(), concrete: None },
        GenericParam { ident: "B".to_owned(), concrete: None },
    ];
    let d = derive_type(multi, ProjectConfig::default()).unwrap_or_else(|_| panic!("derive"));
    let decl = FlowType::Defined(Box::new(d), vec![Dummy::flow_type(), Dummy::flow_type()]).decl(&cfg());
    assert!(decl.contains("MultiGeneric<A, B>"), "should have 2 generic params: {decl}");
}

#[test]
fn single_field_struct_parses() {
    let decl = decl_of(struct_input("SingleFieldStruct", vec![], vec![fi("only", String::flow_type())]));
    assert_field(&decl, "only", "string");
}

#[test]
fn empty_enum_is_empty() {
    assert_eq!(alias_rhs(&decl_of(enum_input("EmptyEnum", vec![], vec![]))), "empty");
}

#[test]
fn negative_discriminant_enum() {
    let decl = decl_of(enum_input(
        "NegativeDisc",
        vec![flow_attr(vec![kv("flow_enum", "number")])],
        vec![with_disc("Neg", true, 1), with_disc("Zero", false, 0), with_disc("Pos", false, 1)],
    ));
    assert!(decl.contains("\n  Neg = -1,"), "{decl}");
    assert!(decl.contains("\n  Zero = 0,"), "{decl}");
    assert!(decl.contains("\n  Pos = 1,"), "{decl}");
}

#[test]
fn large_array_is_readonly_array() {
    let decl = decl_of(struct_input("WithLargeArray", vec![], vec![fi("data", <[u8; 128]>::flow_type())]));
    assert_field(&decl, "data", "$ReadOnlyArray<number>");
}

#[test]
fn variant_skip_omits_variant() {
    let decl = decl_of(enum_input(
        "WithSkippedVariant",
        vec![flow_attr(vec![kv("tag", "kind")])],
        vec![
            vi("Kept", FieldsInput::Unit),
            vi_with("Removed", FieldsInput::Unit, vec![flow_attr(vec![key("skip")])]),
            vi("AlsoKept", FieldsInput::Unit),
        ],
    ));
    assert_eq!(union_members(&alias_rhs(&decl)).len(), 2, "{decl}");
}

#[test]
fn variant_rename() {
    let decl = decl_of(enum_input(
        "WithRenamedVariant",
        vec![],
        vec![vi_with("Original", named_fields(vec![fi("x", i32::flow_type())]), vec![flow_attr(vec![kv("rename", "custom_name")])])],
    ));
    assert!(decl.contains("custom_name"), "should use renamed variant: {decl}");
}

#[test]
fn default_fields_have_no_variance() {
    let decl = decl_of(struct_input(
        "VarianceFields",
        vec![],
        vec![fi("normal", String::flow_type()), fi_with("readonly_field", i32::flow_type(), vec![flow_attr(vec![key("readonly")])])],
    ));
    assert_field(&decl, "normal", "string");
    assert_field(&decl, "+readonly_field", "number");
}

#[test]
fn per_variant_untagged() {
    let decl = decl_of(enum_input(
        "MixedTagging",
        vec![flow_attr(vec![kv("tag", "kind")])],
        vec![
            vi("Tagged", named_fields(vec![fi("x", i32::flow_type())])),
            vi_with("Untagged", named_fields(vec![fi("y", String::flow_type())]), vec![flow_attr(vec![key("untagged")])]),
        ],
    ));
    assert!(decl.contains("kind: 'Tagged'"), "tagged variant: {decl}");
    assert!(!decl.contains("kind: 'Untagged'"), "untagged variant should not have tag: {decl}");
}

#[test]
fn per_variant_rename_all_fields() {
    let decl = decl_of(enum_input(
        "PerVariantRenameAll",
        vec![flow_attr(vec![kv("tag", "t")])],
        vec![
            vi_with(
                "CamelVariant",
                named_fields(vec![fi("field_name", String::flow_type()), fi("other_field", i32::flow_type())]),
                vec![flow_attr(vec![kv("rename_all", "camelCase")])],
            ),
            vi("PlainVariant", named_fields(vec![fi("field_name", String::flow_type())])),
        ],
    ));
    assert!(decl.contains("fieldName"), "camelCase applied: {decl}");
    assert!(decl.contains("field_name"), "plain kept: {decl}");
}

#[test]
fn per_variant_type_override() {
    let decl = decl_of(enum_input(
        "WithVariantTypeOverride",
        vec![flow_attr(vec![kv("tag", "kind")])],
        vec![
            vi("Normal", named_fields(vec![fi("x", i32::flow_type())])),
            vi_with("Overridden", FieldsInput::Unit, vec![flow_attr(vec![kv("type", "string")])]),
        ],
    ));
    assert!(decl.contains("string"), "overridden variant: {decl}");
}
