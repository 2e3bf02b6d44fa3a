# flowjs-rs

Flow type declarations generated from a model of Rust types, verified with
Verus.

A Rust type that has a Flow representation is described by a `FlowType`
value: the built-in shapes (primitives, collections, wrappers, maps,
tuples, functions, ...) and derived structs and enums (`TypeDef`, the type
as written with its `#[flow(...)]` and `#[serde(...)]` attributes). The
library states in spec functions what each type's Flow name, inline form,
flattened form and declaration are, and proves that the executable
rendering produces exactly that text.

Exact object types are written on one line:

```flow
export type User = {| user_id: number, first_name: string, last_name: string |};
```

## Layout

- `src/` — the verified library:
  - `model.rs`, `render.rs`, `decl.rs`: the model and the rendering of
    names, inline forms, declarations, Flow enums and opaque types;
  - `derive.rs`, `attr.rs`, `serde_attr.rs`, `meta.rs`: reading the
    attributes of a derived type and what the derive refuses;
  - `deps.rs`, `export.rs`, `paths.rs`: dependencies, import statements,
    file content, export order and relative import paths;
  - `inflection.rs`, `utils.rs`, `strings.rs`: renaming rules, quoting and
    string helpers;
  - `config.rs`, `project.rs`: the generator's settings and the project
    settings found in `Cargo.toml` metadata (parsed with `toml`);
  - `flow.rs`, `flow_type.rs`, `std_types.rs`: the `Flow` trait for std
    types, the Flow built-in type names, and the standard types a field's
    path names;
  - `ast.rs`, `provision.rs`: the parser's error and identifier types, and
    where the parser is fetched from;
  - `laws.rs`: properties that relate several functions.
- `app/` — the unverified edge: environment and manifest reading, turning
  `syn` derive input into the library's model, and writing files.
- `tests/` — tests of the library on concrete values.
