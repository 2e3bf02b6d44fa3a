//! The generator's settings.

use flowjs_rs::config::Config;
use flowjs_rs::export::ExportConfig;
use flowjs_rs::flow::{Dummy, Flow};

#[test]
fn defaults_match_the_documented_values() {
    let c = Config::default();
    assert_eq!(c.out_dir(), "./bindings");
    assert_eq!(c.array_tuple_limit(), 64);
    assert_eq!(c.file_extension(), "js.flow");
    assert_eq!(c.large_int(), "bigint");
    let e = ExportConfig::default();
    assert_eq!(e.export_dir, "./bindings");
    assert_eq!(e.file_extension, "js.flow");
    assert_eq!(e.array_tuple_limit, 64);
    assert_eq!(e.large_int_type, "bigint");
}

#[test]
fn setters_change_one_setting() {
    let c = Config::new()
        .with_out_dir("out".to_owned())
        .with_file_extension("mjs.flow".to_owned())
        .with_large_int("number".to_owned())
        .with_array_tuple_limit(8);
    assert_eq!(c.out_dir(), "out");
    assert_eq!(c.file_extension(), "mjs.flow");
    assert_eq!(c.large_int(), "number");
    assert_eq!(c.array_tuple_limit(), 8);
}

#[test]
fn output_paths_get_the_extension_unless_they_have_one() {
    let c = Config::new();
    assert_eq!(c.resolve_output_path("User"), "User.js.flow");
    assert_eq!(c.resolve_output_path("models/User"), "models/User.js.flow");
    assert_eq!(c.resolve_output_path("custom/file.flow"), "custom/file.flow");
    let e = ExportConfig::default();
    assert_eq!(e.resolve_path("User"), "User.js.flow");
    assert_eq!(e.export_path("models/User"), "./bindings/models/User.js.flow");
}

#[test]
fn trait_methods_follow_the_model() {
    let cfg = Config::new();
    assert_eq!(<Vec<i32>>::ident(&cfg), "$ReadOnlyArray");
    assert_eq!(<std::collections::HashMap<String, i32>>::inline_flattened(&cfg), "({ [key: string]: number })");
    assert_eq!(<Vec<String>>::output_path(), None);
    assert_eq!(<Option<bool>>::docs(), None);
    assert!(!<String>::is_enum());
    assert!(Dummy::dependencies(&cfg).is_empty());
    assert!(<Vec<i32>>::export_to_string(&cfg).is_err());
}
