//! What the derive reads of a type's attributes, and what it refuses.

use flowjs_rs::config::Config;
use flowjs_rs::derive::{
    derive_type, try_derive_type, DataInput, DeriveFailure, DeriveInput, FieldInput, FieldsInput, VariantInput,
};
use flowjs_rs::inflection::Inflection;
use flowjs_rs::meta::{AttrError, Attribute, Lit, Meta};
use flowjs_rs::model::{Data, DeriveError, Discriminant, Fields, FlowType, GenericParam, TypeDef};
use flowjs_rs::project::ProjectConfig;

fn attr(path: &str, items: Vec<Meta>) -> Attribute {
    Attribute { path: path.to_owned(), args: items }
}

fn kv(key: &str, value: &str) -> Meta {
    Meta::NameValue(key.to_owned(), Lit::Str(value.to_owned()))
}

fn path(key: &str) -> Meta {
    Meta::Path(key.to_owned())
}

fn input(name: &str, attrs: Vec<Attribute>, data: DataInput) -> DeriveInput {
    DeriveInput { ident: name.to_owned(), generics: vec![], docs: vec![], attrs, type_as: None, data }
}

fn fin(name: &str, ty: FlowType, attrs: Vec<Attribute>) -> FieldInput {
    FieldInput { ident: name.to_owned(), ty, type_as: None, attrs }
}

fn vin(name: &str, fields: FieldsInput, attrs: Vec<Attribute>) -> VariantInput {
    VariantInput { ident: name.to_owned(), fields, type_as: None, discriminant: None, attrs }
}

fn units(names: &[&str]) -> DataInput {
    DataInput::Enum(names.iter().map(|n| vin(n, FieldsInput::Unit, vec![])).collect())
}

fn derive(i: DeriveInput) -> Result<TypeDef, DeriveFailure> {
    derive_type(i, ProjectConfig::default())
}

fn derived(i: DeriveInput) -> TypeDef {
    derive(i).unwrap_or_else(|_| panic!("derive should succeed"))
}

fn derive_error(r: Result<TypeDef, DeriveFailure>) -> DeriveError {
    match r {
        Err(DeriveFailure::Derive(e)) => e,
        _ => panic!("expected a derive error"),
    }
}

fn attr_error(r: Result<TypeDef, DeriveFailure>) -> AttrError {
    match r {
        Err(DeriveFailure::Attr(e)) => e,
        _ => panic!("expected an attribute error"),
    }
}

#[test]
fn container_attributes_are_read() {
    let d = derived(input(
        "Thing",
        vec![attr("flow", vec![kv("rename", "Renamed"), kv("rename_all", "camelCase"), path("export")])],
        DataInput::Struct(FieldsInput::Unit),
    ));
    assert_eq!(d.attr.rename, Some("Renamed".to_owned()));
    assert_eq!(d.attr.rename_all, Some(Inflection::Camel));
    assert!(d.attr.export);
    assert_eq!(d.ident, "Thing");
}

#[test]
fn other_attributes_are_ignored() {
    let d = derived(input("Plain", vec![attr("derive", vec![path("Debug")])], DataInput::Struct(FieldsInput::Unit)));
    assert_eq!(d.attr.rename, None);
    assert!(!d.attr.export);
}

#[test]
fn flow_rename_wins_over_serde_rename() {
    let flow_first = derived(input(
        "A",
        vec![attr("flow", vec![kv("rename", "FlowName")]), attr("serde", vec![kv("rename", "SerdeName")])],
        DataInput::Struct(FieldsInput::Unit),
    ));
    assert_eq!(flow_first.attr.rename, Some("FlowName".to_owned()));
    let serde_only = derived(input("B", vec![attr("serde", vec![kv("rename", "SerdeName")])], DataInput::Struct(FieldsInput::Unit)));
    assert_eq!(serde_only.attr.rename, Some("SerdeName".to_owned()));
}

#[test]
fn field_attributes_are_read_in_order() {
    let d = derived(input(
        "S",
        vec![],
        DataInput::Struct(FieldsInput::Named(vec![
            fin("a", FlowType::Number, vec![attr("flow", vec![kv("rename", "x")])]),
            fin("b", FlowType::Text, vec![attr("flow", vec![path("skip")])]),
        ])),
    ));
    match d.data {
        Data::Struct(Fields::Named(fs)) => {
            assert_eq!(fs.len(), 2);
            assert_eq!(fs[0].ident, "a");
            assert_eq!(fs[0].attr.rename, Some("x".to_owned()));
            assert!(!fs[0].attr.skip);
            assert!(fs[1].attr.skip);
        },
        _ => panic!("expected named fields"),
    }
    let cfg = Config::new();
    let t = FlowType::Defined(Box::new(derived(input(
        "S",
        vec![],
        DataInput::Struct(FieldsInput::Named(vec![
            fin("a", FlowType::Number, vec![attr("flow", vec![kv("rename", "x")])]),
            fin("b", FlowType::Text, vec![attr("flow", vec![path("skip")])]),
        ])),
    ))), vec![]);
    assert_eq!(t.decl(&cfg), "type S = {| x: number |};");
}

#[test]
fn unknown_attributes_are_refused() {
    let c = attr_error(derive(input("C", vec![attr("flow", vec![path("bogus")])], DataInput::Struct(FieldsInput::Unit))));
    assert!(matches!(&c, AttrError::UnknownContainerAttr(k) if k == "bogus"));
    assert_eq!(c.message(), "unknown #[flow(...)] attribute: `bogus`");
    let f = attr_error(derive(input(
        "F",
        vec![],
        DataInput::Struct(FieldsInput::Named(vec![fin("a", FlowType::Number, vec![attr("flow", vec![path("nope")])])])),
    )));
    assert!(matches!(&f, AttrError::UnknownFieldAttr(k) if k == "nope"));
    assert_eq!(f.message(), "unknown #[flow(...)] field attribute: `nope`");
    let v = attr_error(derive(input(
        "V",
        vec![],
        DataInput::Enum(vec![vin("A", FieldsInput::Unit, vec![attr("flow", vec![path("nah")])])]),
    )));
    assert!(matches!(&v, AttrError::UnknownVariantAttr(k) if k == "nah"));
    assert_eq!(v.message(), "unknown #[flow(...)] variant attribute: `nah`");
}

#[test]
fn invalid_values_are_refused() {
    // The derive stops on an unknown `rename_all` value; `try_derive_type`
    // reports it as an error.
    let r = attr_error(try_derive_type(
        input("R", vec![attr("flow", vec![kv("rename_all", "sideways")])], DataInput::Struct(FieldsInput::Unit)),
        ProjectConfig::default(),
    ));
    assert!(matches!(&r, AttrError::InvalidRenameAll(k) if k == "sideways"));
    let e = attr_error(derive(input("E", vec![attr("flow", vec![kv("flow_enum", "float")])], units(&["A"]))));
    assert!(matches!(&e, AttrError::UnknownFlowEnum(k) if k == "float"));
    assert_eq!(
        e.message(),
        "unknown flow_enum representation: `float`. Expected \"string\", \"symbol\", \"number\", or \"boolean\""
    );
    let o = attr_error(derive(input("O", vec![attr("flow", vec![kv("optional_fields", "maybe")])], DataInput::Struct(FieldsInput::Unit))));
    assert!(matches!(&o, AttrError::UnknownOptional(k) if k == "maybe"));
    assert_eq!(o.message(), "unknown optional value: `maybe`. Expected \"nullable\"");
    let b = attr_error(derive(input(
        "B",
        vec![attr("flow", vec![Meta::NameValue("optional_fields".to_owned(), Lit::Other)])],
        DataInput::Struct(FieldsInput::Unit),
    )));
    assert!(matches!(b, AttrError::OptionalNotStrOrBool));
    assert_eq!(b.message(), "expected string or bool for `optional`");
}

#[test]
fn unions_are_refused() {
    assert!(matches!(derive_error(derive(input("U", vec![], DataInput::Union))), DeriveError::Union));
}

#[test]
fn flow_enum_combinations_are_refused() {
    let fe = || attr("flow", vec![path("flow_enum")]);
    let mut generic = input("G", vec![fe()], units(&["A"]));
    generic.generics = vec![GenericParam { ident: "T".to_owned(), concrete: None }];
    assert!(matches!(derive_error(derive(generic)), DeriveError::FlowEnumGenerics));
    let tag = input("T", vec![fe(), attr("flow", vec![kv("tag", "k")])], units(&["A"]));
    assert!(matches!(derive_error(derive(tag)), DeriveError::FlowEnumTag));
    let content = input("C", vec![fe(), attr("flow", vec![kv("content", "c")])], units(&["A"]));
    assert!(matches!(derive_error(derive(content)), DeriveError::FlowEnumContent));
    let untagged = input("U", vec![fe(), attr("flow", vec![path("untagged")])], units(&["A"]));
    assert!(matches!(derive_error(derive(untagged)), DeriveError::FlowEnumUntagged));
    let opaque = input("O", vec![fe(), attr("flow", vec![path("opaque")])], units(&["A"]));
    assert!(matches!(derive_error(derive(opaque)), DeriveError::FlowEnumOpaque));
    let fields = input("F", vec![fe()], DataInput::Enum(vec![vin("A", FieldsInput::Unnamed(vec![FlowType::Number]), vec![])]));
    assert!(matches!(derive_error(derive(fields)), DeriveError::FlowEnumFields));
}

#[test]
fn boolean_flow_enum_needs_two_counted_members() {
    let b = || attr("flow", vec![kv("flow_enum", "boolean")]);
    assert!(matches!(derive_error(derive(input("Three", vec![b()], units(&["A", "B", "C"])))), DeriveError::FlowEnumBooleanCount));
    let skipped = input(
        "Skipped",
        vec![b()],
        DataInput::Enum(vec![
            vin("A", FieldsInput::Unit, vec![]),
            vin("B", FieldsInput::Unit, vec![]),
            vin("C", FieldsInput::Unit, vec![attr("flow", vec![path("skip")])]),
        ]),
    );
    let d = derived(skipped);
    let cfg = Config::new();
    assert_eq!(
        FlowType::Defined(Box::new(d), vec![]).decl(&cfg),
        "enum Skipped of boolean {\n  A = true,\n  B = false,\n}"
    );
}

#[test]
fn number_discriminants_are_checked() {
    let n = || attr("flow", vec![kv("flow_enum", "number")]);
    let with = |d: Discriminant| {
        let mut v = vin("A", FieldsInput::Unit, vec![]);
        v.discriminant = Some(d);
        input("N", vec![n()], DataInput::Enum(vec![v]))
    };
    assert!(matches!(derive_error(derive(with(Discriminant::Other))), DeriveError::NonLiteralDiscriminant));
    assert!(matches!(
        derive_error(derive(with(Discriminant::Int { negative: false, magnitude: 1u128 << 70 }))),
        DeriveError::InvalidDiscriminant
    ));
    assert!(matches!(
        derive_error(derive(with(Discriminant::Int { negative: false, magnitude: i64::MAX as u128 }))),
        DeriveError::DiscriminantOverflow
    ));
    assert!(derive(with(Discriminant::Int { negative: true, magnitude: 5 })).is_ok());
}

#[test]
fn overridden_types_read_no_field_attributes() {
    let d = derived(input(
        "Over",
        vec![attr("flow", vec![kv("type", "string")])],
        DataInput::Struct(FieldsInput::Named(vec![fin("a", FlowType::Number, vec![attr("flow", vec![path("bogus")])])])),
    ));
    assert_eq!(d.attr.type_override, Some("string".to_owned()));
    let cfg = Config::new();
    assert_eq!(FlowType::Defined(Box::new(d), vec![]).decl(&cfg), "type Over = string;");
}

#[test]
fn skipped_variants_read_no_field_attributes() {
    let d = derived(input(
        "E",
        vec![],
        DataInput::Enum(vec![
            vin(
                "A",
                FieldsInput::Named(vec![fin("x", FlowType::Number, vec![attr("flow", vec![path("bogus")])])]),
                vec![attr("flow", vec![path("skip")])],
            ),
            vin("B", FieldsInput::Unit, vec![]),
        ]),
    ));
    let cfg = Config::new();
    assert_eq!(FlowType::Defined(Box::new(d), vec![]).decl(&cfg), "type E = 'B';");
}

#[test]
fn project_setting_is_carried() {
    let d = derive_type(
        input("Id", vec![], DataInput::Struct(FieldsInput::Unnamed(vec![FlowType::Text]))),
        ProjectConfig { opaque_newtypes: true },
    )
    .unwrap_or_else(|_| panic!("derive should succeed"));
    assert!(d.opaque_newtypes);
    let cfg = Config::new();
    assert_eq!(FlowType::Defined(Box::new(d), vec![]).decl(&cfg), "opaque type Id: string = string;");
}

#[test]
fn failures_report_their_messages() {
    let union = derive(input("U", vec![], DataInput::Union));
    match union {
        Err(f) => assert_eq!(f.message(), "Flow cannot be derived for unions"),
        Ok(_) => panic!("unions are refused"),
    }
    let tag = derive(input("T", vec![attr("flow", vec![path("flow_enum"), kv("tag", "k")])], units(&["A"])));
    match tag {
        Err(f) => assert_eq!(f.message(), "#[flow(flow_enum)] cannot be combined with #[flow(tag = \"...\")]"),
        Ok(_) => panic!("flow_enum with tag is refused"),
    }
    assert_eq!(
        DeriveError::FlowEnumBooleanCount.message(),
        "#[flow(flow_enum = \"boolean\")] requires exactly 2 non-skipped variants"
    );
    let bad = derive(input("B", vec![attr("flow", vec![path("bogus")])], DataInput::Struct(FieldsInput::Unit)));
    match bad {
        Err(f) => assert_eq!(f.message(), "unknown #[flow(...)] attribute: `bogus`"),
        Ok(_) => panic!("unknown attributes are refused"),
    }
}

#[test]
fn values_that_are_not_literals_are_refused() {
    let unit = || DataInput::Struct(FieldsInput::Unit);
    let e = attr_error(derive(input(
        "R",
        vec![attr("flow", vec![Meta::NameValue("rename".to_owned(), Lit::Expr)])],
        unit(),
    )));
    assert!(matches!(e, AttrError::ExpectedLiteral));
    assert_eq!(e.message(), "expected literal");
    let o = attr_error(derive(input(
        "O",
        vec![attr("flow", vec![Meta::NameValue("opaque".to_owned(), Lit::Expr)])],
        unit(),
    )));
    assert!(matches!(o, AttrError::ExpectedLiteral));
    // Another literal is read as no value.
    let t = derived(input("T", vec![attr("flow", vec![Meta::NameValue("rename".to_owned(), Lit::Other)])], unit()));
    assert!(t.attr.rename.is_none());
}

#[test]
fn paths_types_and_bounds_must_parse() {
    let unit = || DataInput::Struct(FieldsInput::Unit);
    let p = attr_error(derive(input("P", vec![attr("flow", vec![kv("crate", "not a path")])], unit())));
    assert!(matches!(&p, AttrError::InvalidPath(v) if v == "not a path"));
    assert!(!p.message().is_empty());
    let t = attr_error(derive(input("T", vec![attr("flow", vec![kv("as", "Vec<")])], unit())));
    assert!(matches!(&t, AttrError::InvalidType(v) if v == "Vec<"));
    assert!(!t.message().is_empty());
    let b = attr_error(derive(input("B", vec![attr("flow", vec![kv("bound", "T Clone")])], unit())));
    assert!(matches!(&b, AttrError::InvalidBound(v) if v == "T Clone"));
    assert!(!b.message().is_empty());
    let ok = derived(input(
        "K",
        vec![attr("flow", vec![kv("crate", "::my_crate"), kv("bound", "T: Clone"), kv("as", "Vec<u8>")])],
        unit(),
    ));
    assert_eq!(ok.attr.crate_rename.as_deref(), Some("::my_crate"));
    assert_eq!(ok.attr.type_as.as_deref(), Some("Vec<u8>"));
}
