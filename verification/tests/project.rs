//! Project settings found in manifest metadata.

use flowjs_rs::project::{
    load_config, manifest_config_of_text, parse_config_table, project_config, read_bool, read_config_from,
    read_string, ProjectConfig, TomlValue,
};

fn table(entries: Vec<(&str, TomlValue)>) -> TomlValue {
    TomlValue::Table(entries.into_iter().map(|(k, v)| (k.to_owned(), v)).collect())
}

fn manifest(section: &str, settings: TomlValue) -> TomlValue {
    table(vec![(section, table(vec![("metadata", table(vec![("flowjs-rs", settings)]))]))])
}

#[test]
fn metadata_values_are_read_by_key() {
    let meta = table(vec![
        ("opaque_newtypes", TomlValue::Boolean(true)),
        ("file_extension", TomlValue::String("mjs.flow".to_owned())),
    ]);
    assert_eq!(read_bool(Some(&meta), "opaque_newtypes"), Some(true));
    assert_eq!(read_bool(Some(&meta), "file_extension"), None);
    assert_eq!(read_bool(None, "opaque_newtypes"), None);
    assert_eq!(read_string(Some(&meta), "file_extension"), Some("mjs.flow".to_owned()));
    assert_eq!(read_string(Some(&meta), "missing"), None);
    assert_eq!(meta.get("opaque_newtypes").and_then(|v| v.as_bool()), Some(true));
}

#[test]
fn a_table_gives_its_settings() {
    let on = parse_config_table(&table(vec![("opaque_newtypes", TomlValue::Boolean(true))])).unwrap_or_default();
    assert!(on.opaque_newtypes);
    let other = parse_config_table(&table(vec![("opaque_newtypes", TomlValue::String("yes".to_owned()))])).unwrap_or_default();
    assert!(!other.opaque_newtypes);
}

#[test]
fn package_settings_come_before_workspace_settings() {
    let package = "[package]\nname = \"x\"\n\n[package.metadata.flowjs-rs]\nopaque_newtypes = false\n";
    let workspace = "[workspace]\nmembers = [\"x\"]\n\n[workspace.metadata.flowjs-rs]\nopaque_newtypes = true\n".to_owned();
    let found = load_config(Some(package), &vec![workspace.clone()]);
    assert_eq!(found.map(|c| c.opaque_newtypes), Some(false));
    let plain = "[package]\nname = \"x\"\n";
    let found = load_config(Some(plain), &vec![plain.to_owned(), workspace.clone()]);
    assert_eq!(found.map(|c| c.opaque_newtypes), Some(true));
    // A manifest that is not valid TOML is passed over.
    let found = load_config(Some("[package"), &vec!["= broken".to_owned(), workspace]);
    assert_eq!(found.map(|c| c.opaque_newtypes), Some(true));
    assert!(load_config(None, &vec![]).is_none());
    assert!(!project_config(None).opaque_newtypes);
    assert!(project_config(Some(ProjectConfig { opaque_newtypes: true })).opaque_newtypes);
}

#[test]
fn manifest_text_is_parsed_with_toml() {
    let text = "[package]\nname = \"n\"\nversion = \"0.1.0\"\n\n[package.metadata.flowjs-rs]\nopaque_newtypes = true\n";
    assert_eq!(manifest_config_of_text(text, "package").map(|c| c.opaque_newtypes), Some(true));
    assert!(manifest_config_of_text(text, "workspace").is_none());
    // Inline tables and dotted keys are TOML too.
    let inline = "package = { metadata = { flowjs-rs = { opaque_newtypes = false } } }\n";
    assert_eq!(manifest_config_of_text(inline, "package").map(|c| c.opaque_newtypes), Some(false));
    let dotted = "workspace.metadata.flowjs-rs.opaque_newtypes = true\n";
    assert_eq!(manifest_config_of_text(dotted, "workspace").map(|c| c.opaque_newtypes), Some(true));
    // A metadata table without the setting gives the default.
    let other = "[package.metadata.flowjs-rs]\nopaque_newtypes = \"yes\"\n";
    assert_eq!(manifest_config_of_text(other, "package").map(|c| c.opaque_newtypes), Some(false));
    assert!(manifest_config_of_text("[package", "package").is_none());
}

#[test]
fn a_manifest_section_is_looked_up_by_path() {
    let package = manifest("package", table(vec![("opaque_newtypes", TomlValue::Boolean(true))]));
    assert_eq!(read_config_from(&package, "package").map(|c| c.opaque_newtypes), Some(true));
    assert!(read_config_from(&package, "workspace").is_none());
}
