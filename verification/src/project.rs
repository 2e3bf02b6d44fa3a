//! Project-level configuration read from `Cargo.toml` metadata.
//!
//! ```toml
//! [package.metadata.flowjs-rs]
//! opaque_newtypes = true
//! ```
//!
//! Workspace-level config (`[workspace.metadata.flowjs-rs]`) is also
//! supported; package-level config overrides workspace-level.
//!
//! The caller reads the manifests' text; this module parses it with `toml`
//! and looks the settings up in the parsed document.

use vstd::prelude::*;
use crate::strings::str_equal;

verus! {

/// A TOML value, as read from a manifest.
pub enum TomlValue {
    String(String),
    Integer(i64),
    /// A floating-point value (its value is not read here).
    Float,
    Boolean(bool),
    Datetime(String),
    Array(Vec<TomlValue>),
    /// A table: its keys, each once, with their values.
    Table(Vec<(String, TomlValue)>),
}

/// `toml::Value`, carried as an opaque value.
#[verifier::external_type_specification]
#[verifier::external_body]
pub struct ExTomlValue(toml::Value);

/// The document that `toml` parses out of a manifest's text, as a plain
/// `TomlValue`; `None` when the text is not a valid TOML document.
pub uninterp spec fn toml_text_doc(text: Seq<char>) -> Option<TomlValue>;

/// Copies a parsed `toml::Value` into the library's `TomlValue`, one variant
/// for one (a float's value is not kept, a datetime is kept as its text).
#[verifier::external_body]
fn toml_plain(v: &toml::Value) -> TomlValue {
    match v {
        toml::Value::String(s) => TomlValue::String(s.clone()),
        toml::Value::Integer(i) => TomlValue::Integer(*i),
        toml::Value::Float(_) => TomlValue::Float,
        toml::Value::Boolean(b) => TomlValue::Boolean(*b),
        toml::Value::Datetime(d) => TomlValue::Datetime(d.to_string()),
        toml::Value::Array(a) => TomlValue::Array(a.iter().map(toml_plain).collect()),
        toml::Value::Table(t) => TomlValue::Table(t.iter().map(|(k, x)| (k.clone(), toml_plain(x))).collect()),
    }
}

/// Parses a manifest's text with `toml` (`str::parse::<toml::Value>`, which
/// is `toml::from_str`).
///
/// Trusted: the result is named `toml_text_doc`: the parsed document,
/// copied into a `TomlValue`, or `None` when `toml` refuses the text. What
/// `toml` accepts and how it builds the document is not stated here.
#[verifier::external_body]
pub(crate) fn parse_manifest_text(text: &str) -> (r: Option<TomlValue>)
    ensures
        r == toml_text_doc(text@),
{
    match text.parse::<toml::Value>() {
        Ok(v) => Some(toml_plain(&v)),
        Err(_) => None,
    }
}

/// The value under `key` in a table (the first entry with that key); `None`
/// for a key that is absent and for a value that is not a table.
pub open spec fn table_get(v: TomlValue, key: Seq<char>) -> Option<TomlValue> {
    match v {
        TomlValue::Table(entries) => if exists|i: int| 0 <= i < entries@.len() && entries@[i].0@ == key {
            let i = choose|i: int|
                0 <= i < entries@.len() && entries@[i].0@ == key && (forall|j: int|
                    0 <= j < i ==> entries@[j].0@ != key);
            Some(entries@[i].1)
        } else {
            None
        },
        _ => None,
    }
}

/// The value found by following `keys` from `v`.
pub open spec fn lookup_path(v: TomlValue, keys: Seq<Seq<char>>) -> Option<TomlValue>
    decreases keys.len(),
{
    if keys.len() == 0 {
        Some(v)
    } else {
        match table_get(v, keys[0]) {
            Some(next) => lookup_path(next, keys.drop_first()),
            None => None,
        }
    }
}

impl TomlValue {
    /// Index into a TOML table by key.
    pub fn get(&self, key: &str) -> (r: Option<&TomlValue>)
        ensures
            match r {
                Some(x) => table_get(*self, key@) == Some(*x),
                None => table_get(*self, key@) is None,
            },
    {
        match self {
            TomlValue::Table(entries) => {
                let n = entries.len();
                let mut i: usize = 0;
                while i < n
                    invariant
                        n == entries@.len(),
                        *self == TomlValue::Table(*entries),
                        i <= n,
                        forall|j: int| 0 <= j < i ==> entries@[j].0@ != key@,
                    decreases n - i,
                {
                    if str_equal(entries[i].0.as_str(), key) {
                        proof {
                            assert(0 <= i < entries@.len() && entries@[i as int].0@ == key@ && (forall|j: int|
                                0 <= j < i ==> entries@[j].0@ != key@));
                            let k = choose|k: int|
                                0 <= k < entries@.len() && entries@[k].0@ == key@ && (forall|j: int|
                                    0 <= j < k ==> entries@[j].0@ != key@);
                            assert(k == i) by {
                                if k < i {
                                    assert(entries@[k].0@ != key@);
                                }
                                if k > i {
                                    assert(entries@[i as int].0@ != key@);
                                }
                            }
                        }
                        return Some(&entries[i].1);
                    }
                    i = i + 1;
                }
                None
            },
            _ => None,
        }
    }

    /// The boolean this value holds, if it is one.
    pub fn as_bool(&self) -> (r: Option<bool>)
        ensures
            r == (match *self {
                TomlValue::Boolean(b) => Some(b),
                _ => None,
            }),
    {
        match self {
            TomlValue::Boolean(b) => Some(*b),
            _ => None,
        }
    }

    /// The string this value holds, if it is one.
    pub fn as_str(&self) -> (r: Option<&str>)
        ensures
            match r {
                Some(s) => *self matches TomlValue::String(t) && t@ == s@,
                None => !(*self is String),
            },
    {
        match self {
            TomlValue::String(s) => Some(s.as_str()),
            _ => None,
        }
    }
}

/// Follow a path of keys through nested tables.
pub fn read_table<'a>(doc: &'a TomlValue, keys: &Vec<&str>) -> (r: Option<&'a TomlValue>)
    ensures
        match r {
            Some(x) => lookup_path(*doc, keys@.map_values(|k: &str| k@)) == Some(*x),
            None => lookup_path(*doc, keys@.map_values(|k: &str| k@)) is None,
        },
{
    let ghost ks = keys@.map_values(|k: &str| k@);
    let mut current = doc;
    let n = keys.len();
    let mut i: usize = 0;
    proof {
        assert(ks.subrange(0, n as int) =~= ks);
    }
    while i < n
        invariant
            n == keys@.len(),
            ks == keys@.map_values(|k: &str| k@),
            i <= n,
            lookup_path(*doc, ks) == lookup_path(*current, ks.subrange(i as int, n as int)),
        decreases n - i,
    {
        proof {
            assert(ks.subrange(i as int, n as int).drop_first() =~= ks.subrange(i + 1, n as int));
            assert(ks.subrange(i as int, n as int)[0] == keys@[i as int]@);
        }
        match current.get(keys[i]) {
            Some(next) => {
                current = next;
            },
            None => {
                return None;
            },
        }
        i = i + 1;
    }
    proof {
        assert(ks.subrange(n as int, n as int) =~= Seq::<Seq<char>>::empty());
    }
    Some(current)
}

/// Helper: read a boolean value from metadata.
pub fn read_bool(metadata: Option<&TomlValue>, key: &str) -> (r: Option<bool>)
    ensures
        r == (match metadata {
            Some(m) => match table_get(*m, key@) {
                Some(TomlValue::Boolean(b)) => Some(b),
                _ => None,
            },
            None => None,
        }),
{
    match metadata {
        Some(m) => match m.get(key) {
            Some(v) => v.as_bool(),
            None => None,
        },
        None => None,
    }
}

/// Helper: read a string value from metadata.
pub fn read_string(metadata: Option<&TomlValue>, key: &str) -> (r: Option<String>)
    ensures
        match r {
            Some(s) => metadata matches Some(m) && table_get(*m, key@) matches Some(TomlValue::String(t))
                && t@ == s@,
            None => !(metadata matches Some(m) && table_get(*m, key@) matches Some(TomlValue::String(_))),
        },
{
    match metadata {
        Some(m) => match m.get(key) {
            Some(v) => match v.as_str() {
                Some(s) => Some(s.to_owned()),
                None => None,
            },
            None => None,
        },
        None => None,
    }
}

/// Project configuration parsed from Cargo.toml metadata.
#[derive(Debug, Clone, Copy, PartialEq, Eq, Structural)]
pub struct ProjectConfig {
    /// Newtypes automatically become opaque types.
    pub opaque_newtypes: bool,
}

impl Default for ProjectConfig {
    fn default() -> (r: Self)
        ensures
            !r.opaque_newtypes,
    {
        ProjectConfig { opaque_newtypes: false }
    }
}

/// The configuration a metadata table gives: `opaque_newtypes` when it is a
/// boolean there, the default otherwise.
pub open spec fn config_of_table(table: TomlValue) -> ProjectConfig {
    match table_get(table, "opaque_newtypes"@) {
        Some(TomlValue::Boolean(b)) => ProjectConfig { opaque_newtypes: b },
        _ => ProjectConfig { opaque_newtypes: false },
    }
}

/// Read the project configuration out of a `[*.metadata.flowjs-rs]` table.
pub fn parse_config_table(table: &TomlValue) -> (r: Option<ProjectConfig>)
    ensures
        r == Some(config_of_table(*table)),
{
    let mut cfg = ProjectConfig::default();
    match table.get("opaque_newtypes") {
        Some(v) => match v.as_bool() {
            Some(b) => {
                cfg.opaque_newtypes = b;
            },
            None => {},
        },
        None => {},
    }
    Some(cfg)
}

/// The configuration of a manifest's metadata section: the `flowjs-rs`
/// table under `section.metadata` (`section` is `package` or `workspace`).
pub open spec fn manifest_config(doc: TomlValue, section: Seq<char>) -> Option<ProjectConfig> {
    match lookup_path(doc, seq![section, "metadata"@, "flowjs-rs"@]) {
        Some(t) => Some(config_of_table(t)),
        None => None,
    }
}

/// The configuration found in a manifest's `[<section>.metadata.flowjs-rs]`.
pub fn read_config_from(doc: &TomlValue, section: &str) -> (r: Option<ProjectConfig>)
    ensures
        r == manifest_config(*doc, section@),
{
    let mut keys: Vec<&str> = Vec::new();
    keys.push(section);
    keys.push("metadata");
    keys.push("flowjs-rs");
    proof {
        assert(keys@.map_values(|k: &str| k@) =~= seq![section@, "metadata"@, "flowjs-rs"@]);
    }
    match read_table(doc, &keys) {
        Some(t) => parse_config_table(t),
        None => None,
    }
}

/// The configuration of a manifest's text: its `[<section>.metadata.flowjs-rs]`
/// table, when the text parses and has one.
pub open spec fn text_config(text: Seq<char>, section: Seq<char>) -> Option<ProjectConfig> {
    match toml_text_doc(text) {
        Some(doc) => manifest_config(doc, section),
        None => None,
    }
}

/// The configuration found in the `[<section>.metadata.flowjs-rs]` table of
/// a manifest's text; `None` when the text does not parse or has no such table.
pub fn manifest_config_of_text(text: &str, section: &str) -> (r: Option<ProjectConfig>)
    ensures
        r == text_config(text@, section@),
{
    match parse_manifest_text(text) {
        Some(doc) => read_config_from(&doc, section),
        None => None,
    }
}

/// The first configuration found: the package's own manifest first, then
/// the manifests of the enclosing directories, nearest first, read as
/// workspace manifests.
pub open spec fn first_config(package: Option<Seq<char>>, ancestors: Seq<Seq<char>>) -> Option<ProjectConfig>
    decreases ancestors.len(),
{
    match package {
        Some(p) if text_config(p, "package"@) is Some => text_config(p, "package"@),
        _ => if ancestors.len() == 0 {
            None
        } else if text_config(ancestors[0], "workspace"@) is Some {
            text_config(ancestors[0], "workspace"@)
        } else {
            first_config(None, ancestors.drop_first())
        },
    }
}

/// Load the project configuration from the text of the package manifest
/// (when it could be read) and of the manifests found in the enclosing
/// directories, nearest first.
pub fn load_config(package: Option<&str>, ancestors: &Vec<String>) -> (r: Option<ProjectConfig>)
    ensures
        r == first_config(
            match package {
                Some(p) => Some(p@),
                None => None,
            },
            ancestors@.map_values(|a: String| a@),
        ),
{
    let ghost texts = ancestors@.map_values(|a: String| a@);
    if let Some(p) = package {
        let c = manifest_config_of_text(p, "package");
        if c.is_some() {
            return c;
        }
    }
    let n = ancestors.len();
    let mut i: usize = 0;
    proof {
        assert(texts.subrange(0, n as int) =~= texts);
        if let Some(p) = package {
            assert(first_config(Some(p@), texts) == first_config(None, texts));
        }
    }
    while i < n
        invariant
            n == ancestors@.len(),
            texts == ancestors@.map_values(|a: String| a@),
            i <= n,
            first_config(
                match package {
                    Some(p) => Some(p@),
                    None => None,
                },
                texts,
            ) == first_config(None, texts.subrange(i as int, n as int)),
        decreases n - i,
    {
        proof {
            assert(texts.subrange(i as int, n as int).drop_first() =~= texts.subrange(i + 1, n as int));
            assert(texts.subrange(i as int, n as int)[0] == ancestors@[i as int]@);
        }
        let c = manifest_config_of_text(ancestors[i].as_str(), "workspace");
        if c.is_some() {
            return c;
        }
        i = i + 1;
    }
    None
}

/// The project configuration: the one found, or the default.
pub fn project_config(found: Option<ProjectConfig>) -> (r: ProjectConfig)
    ensures
        r == (match found {
            Some(c) => c,
            None => ProjectConfig { opaque_newtypes: false },
        }),
{
    match found {
        Some(c) => c,
        None => ProjectConfig::default(),
    }
}

} // verus!
