//! `#[serde(...)]` attributes as read for serde compatibility.

use flowjs_rs::inflection::Inflection;
use flowjs_rs::meta::{Attribute, Lit, Meta};
use flowjs_rs::serde_attr::{SerdeContainer, SerdeField, SerdeVariant, Tagged};

fn serde(items: Vec<Meta>) -> Attribute {
    Attribute { path: "serde".to_owned(), args: items }
}

fn kv(key: &str, value: &str) -> Meta {
    Meta::NameValue(key.to_owned(), Lit::Str(value.to_owned()))
}

fn key(k: &str) -> Meta {
    Meta::Path(k.to_owned())
}

#[test]
fn container_tagging_follows_tag_content_and_untagged() {
    let c = SerdeContainer::from_attrs(&vec![serde(vec![kv("tag", "t"), kv("content", "c")])]).unwrap_or_default();
    assert_eq!(c.tagged(), Tagged::Adjacently { tag: "t".to_owned(), content: "c".to_owned() });
    let c = SerdeContainer::from_attrs(&vec![serde(vec![kv("tag", "kind")])]).unwrap_or_default();
    assert_eq!(c.tagged(), Tagged::Internally { tag: "kind".to_owned() });
    let c = SerdeContainer::from_attrs(&vec![serde(vec![key("untagged"), kv("tag", "kind")])]).unwrap_or_default();
    assert_eq!(c.tagged(), Tagged::Untagged);
    assert_eq!(SerdeContainer::default().tagged(), Tagged::Externally);
}

#[test]
fn container_renames_are_read() {
    let c = SerdeContainer::from_attrs(&vec![serde(vec![kv("rename", "Other"), kv("rename_all", "camelCase")])]).unwrap_or_default();
    assert_eq!(c.rename, Some("Other".to_owned()));
    assert_eq!(c.rename_all, Some(Inflection::Camel));
    let flow_only = SerdeContainer::from_attrs(&vec![Attribute { path: "flow".to_owned(), args: vec![kv("rename", "X")] }])
        .unwrap_or_default();
    assert_eq!(flow_only.rename, None);
}

#[test]
fn fields_may_be_omitted_when_skipped_in_serialization() {
    let f = SerdeField::from_attrs(&vec![serde(vec![kv("skip_serializing_if", "Option::is_none")])]).unwrap_or_default();
    assert!(f.maybe_omitted());
    let f = SerdeField::from_attrs(&vec![serde(vec![key("skip_serializing")])]).unwrap_or_default();
    assert!(f.maybe_omitted());
    let f = SerdeField::from_attrs(&vec![serde(vec![key("default"), key("flatten")])]).unwrap_or_default();
    assert!(!f.maybe_omitted());
    assert!(f.has_default);
    assert!(f.flatten);
    assert!(!SerdeField::default().maybe_omitted());
}

#[test]
fn variants_read_skip_untagged_and_renames() {
    let v = SerdeVariant::from_attrs(&vec![serde(vec![key("skip"), key("untagged"), kv("rename", "v2")])]).unwrap_or_default();
    assert!(v.skip);
    assert!(v.untagged);
    assert_eq!(v.rename, Some("v2".to_owned()));
}
