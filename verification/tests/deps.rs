//! The dependencies of derived types, and the export graph built from them.

use flowjs_rs::config::Config;
use flowjs_rs::deps::export_graph;
use flowjs_rs::derive::{derive_type, DataInput, DeriveInput, FieldInput, FieldsInput, VariantInput};
use flowjs_rs::export::{export_plan, Dependency, ExportError, ExportNode};
use flowjs_rs::flow::Flow;
use flowjs_rs::meta::{Attribute, Lit, Meta};
use flowjs_rs::model::{FlowType, GenericParam};
use flowjs_rs::project::ProjectConfig;

fn flow(items: Vec<Meta>) -> Attribute {
    Attribute { path: "flow".to_owned(), args: items }
}

fn kv(key: &str, value: &str) -> Meta {
    Meta::NameValue(key.to_owned(), Lit::Str(value.to_owned()))
}

fn key(k: &str) -> Meta {
    Meta::Path(k.to_owned())
}

fn fi(name: &str, ty: FlowType, attrs: Vec<Attribute>) -> FieldInput {
    FieldInput { ident: name.to_owned(), ty, type_as: None, attrs }
}

fn derived(name: &str, attrs: Vec<Attribute>, data: DataInput) -> FlowType {
    let input = DeriveInput { ident: name.to_owned(), generics: vec![], docs: vec![], attrs, type_as: None, data };
    let d = derive_type(input, ProjectConfig::default()).unwrap_or_else(|_| panic!("derive should succeed"));
    FlowType::Defined(Box::new(d), vec![])
}

fn named(fields: Vec<FieldInput>) -> DataInput {
    DataInput::Struct(FieldsInput::Named(fields))
}

fn base() -> FlowType {
    derived("Base", vec![], named(vec![fi("id", i32::flow_type(), vec![])]))
}

fn simple() -> FlowType {
    derived("SimpleStruct", vec![], named(vec![fi("name", String::flow_type(), vec![])]))
}

fn with_option() -> FlowType {
    derived("WithOption", vec![], named(vec![fi("bio", <Option<String>>::flow_type(), vec![])]))
}

fn nested() -> FlowType {
    derived(
        "Nested",
        vec![],
        named(vec![
            fi("inner", simple(), vec![]),
            fi("items", FlowType::ReadOnlyArray(Box::new(with_option())), vec![]),
        ]),
    )
}

fn names(ds: &[Dependency]) -> Vec<String> {
    ds.iter().map(|d| d.flow_name.clone()).collect()
}

#[test]
fn field_types_and_their_arguments_are_dependencies() {
    let cfg = Config::new();
    let ds = nested().dependencies(&cfg);
    assert_eq!(names(&ds), vec!["SimpleStruct", "WithOption"]);
    assert_eq!(ds[0].output_path, "SimpleStruct");
}

#[test]
fn primitives_and_std_types_are_not_dependencies() {
    let cfg = Config::new();
    assert!(simple().dependencies(&cfg).is_empty());
    assert!(<Vec<String>>::flow_type().dependencies(&cfg).is_empty());
}

#[test]
fn inlined_and_flattened_fields_bring_their_own_dependencies() {
    let cfg = Config::new();
    let inline = derived("FieldInline", vec![], named(vec![fi("inner", base(), vec![flow(vec![key("inline")])])]));
    assert!(inline.dependencies(&cfg).is_empty());
    let flat = derived("Extended", vec![], named(vec![fi("base", base(), vec![flow(vec![key("flatten")])])]));
    assert!(flat.dependencies(&cfg).is_empty());
    let outer = derived("Outer", vec![], named(vec![fi("inner", nested(), vec![flow(vec![key("inline")])])]));
    assert_eq!(names(&outer.dependencies(&cfg)), vec!["SimpleStruct", "WithOption"]);
}

#[test]
fn skipped_and_overridden_fields_bring_nothing() {
    let cfg = Config::new();
    let t = derived(
        "S",
        vec![],
        named(vec![
            fi("a", base(), vec![flow(vec![key("skip")])]),
            fi("b", base(), vec![flow(vec![kv("type", "string")])]),
        ]),
    );
    assert!(t.dependencies(&cfg).is_empty());
    let over = derived("O", vec![flow(vec![kv("type", "string")])], named(vec![fi("a", base(), vec![])]));
    assert!(over.dependencies(&cfg).is_empty());
}

#[test]
fn option_and_wrapper_arguments_are_dependencies() {
    let cfg = Config::new();
    let t = derived(
        "W",
        vec![],
        named(vec![
            fi("maybe", FlowType::Nullable(Box::new(base())), vec![]),
            fi("boxed", FlowType::Transparent(Box::new(simple())), vec![]),
        ]),
    );
    assert_eq!(names(&t.dependencies(&cfg)), vec!["Base", "SimpleStruct"]);
}

#[test]
fn generic_arguments_stand_for_their_parameters() {
    let cfg = Config::new();
    let input = DeriveInput {
        ident: "Wrapper".to_owned(),
        generics: vec![GenericParam { ident: "T".to_owned(), concrete: None }],
        docs: vec![],
        attrs: vec![],
        type_as: None,
        data: named(vec![fi("value", FlowType::Param("T".to_owned()), vec![])]),
    };
    let d = derive_type(input, ProjectConfig::default()).unwrap_or_else(|_| panic!("derive"));
    let t = FlowType::Defined(Box::new(d), vec![base()]);
    assert_eq!(names(&t.dependencies(&cfg)), vec!["Base"]);
}

#[test]
fn enum_variants_bring_their_types() {
    let cfg = Config::new();
    let t = derived(
        "E",
        vec![],
        DataInput::Enum(vec![
            VariantInput {
                ident: "A".to_owned(),
                fields: FieldsInput::Unnamed(vec![base()]),
                type_as: None,
                discriminant: None,
                attrs: vec![],
            },
            VariantInput {
                ident: "B".to_owned(),
                fields: FieldsInput::Named(vec![fi("s", simple(), vec![])]),
                type_as: None,
                discriminant: None,
                attrs: vec![flow(vec![key("skip")])],
            },
        ]),
    );
    assert_eq!(names(&t.dependencies(&cfg)), vec!["Base"]);
}

#[test]
fn export_graph_links_types_by_their_files() {
    let cfg = Config::new();
    let types = vec![nested(), simple(), with_option(), <String>::flow_type()];
    let nodes = export_graph(&types, &cfg);
    assert_eq!(nodes.len(), 4);
    assert_eq!(nodes[0].deps, vec![1, 2]);
    assert_eq!(nodes[0].rust_name, "Nested");
    assert_eq!(nodes[0].output_path, Some("Nested".to_owned()));
    assert!(nodes[1].deps.is_empty());
    assert_eq!(nodes[3].output_path, None);
    let alone = vec![nested()];
    assert!(export_graph(&alone, &cfg)[0].deps.is_empty(), "dependencies outside the set are left out");
}

#[test]
fn export_plan_holds_every_dependency_once_and_the_type_last() {
    let node = |name: &str, path: Option<&str>, deps: Vec<usize>| ExportNode {
        rust_name: name.to_owned(),
        output_path: path.map(|p| p.to_owned()),
        deps,
    };
    // A -> B -> C, A -> C, C -> A (a cycle), B -> D (not exportable) -> E.
    let nodes = vec![
        node("A", Some("A"), vec![1, 2]),
        node("B", Some("B"), vec![2, 3]),
        node("C", Some("C"), vec![0]),
        node("D", None, vec![4]),
        node("E", Some("E"), vec![]),
    ];
    let (plan, r) = export_plan(&nodes, 0);
    assert!(r.is_ok(), "A is exportable");
    assert_eq!(plan, vec![2, 1, 0]);
    let (plan_b, rb) = export_plan(&nodes, 1);
    assert!(rb.is_ok(), "B is exportable");
    assert_eq!(plan_b, vec![0, 2, 1]);
    // D cannot be exported: its exportable dependency E is still planned,
    // and the refusal comes with the plan.
    let (plan_d, rd) = export_plan(&nodes, 3);
    assert_eq!(plan_d, vec![4]);
    match rd {
        Err(ExportError::CannotBeExported(n)) => assert_eq!(n, "D"),
        _ => panic!("D cannot be exported"),
    }
    let cfg = Config::new();
    let types = vec![nested(), simple(), with_option()];
    let graph = export_graph(&types, &cfg);
    let (plan_n, rn) = export_plan(&graph, 0);
    assert!(rn.is_ok(), "exportable");
    assert_eq!(plan_n, vec![1, 2, 0]);
}

#[test]
fn exported_files_import_their_dependencies() {
    let cfg = Config::new();
    let content = flowjs_rs::export::export_to_string(&nested(), &cfg).unwrap_or_else(|_| panic!("exportable"));
    assert_eq!(
        content,
        "// @flow\nimport type { SimpleStruct } from './SimpleStruct';\nimport type { WithOption } from './WithOption';\n\nexport type Nested = {| inner: SimpleStruct, items: $ReadOnlyArray<WithOption> |};\n"
    );
    let plain = flowjs_rs::export::export_to_string(&simple(), &cfg).unwrap_or_else(|_| panic!("exportable"));
    assert_eq!(plain, "// @flow\nexport type SimpleStruct = {| name: string |};\n");
}

#[test]
fn imports_are_relative_to_the_exported_file_and_listed_once() {
    let cfg = Config::new();
    let post = derived("Post", vec![flow(vec![kv("export_to", "models/")])], named(vec![fi("id", i32::flow_type(), vec![])]));
    let user = derived(
        "User",
        vec![flow(vec![kv("export_to", "api/")])],
        named(vec![
            fi("first", derived("Post", vec![flow(vec![kv("export_to", "models/")])], named(vec![fi("id", i32::flow_type(), vec![])])), vec![]),
            fi("second", post, vec![]),
        ]),
    );
    let content = flowjs_rs::export::export_to_string(&user, &cfg).unwrap_or_else(|_| panic!("exportable"));
    assert!(content.starts_with("// @flow\nimport type { Post } from '../models/Post';\n\nexport type User"), "{content}");
}
