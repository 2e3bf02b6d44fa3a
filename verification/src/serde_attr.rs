//! `#[serde(...)]` attributes of a container, field or variant, as read by
//! derive macros that must produce types matching serde's serialization.

use vstd::prelude::*;
use crate::inflection::{Inflection, parse_inflection};
use crate::meta::{
    Attribute, AttrError, AttrState, Meta, meta_key, str_value, flag, skipped, fold_attrs, key_is,
    str_value_exec, flag_exec, skipped_exec, read_attrs,
};

verus! {

/// Serde tagging model for enums.
#[derive(Debug, PartialEq, Eq)]
pub enum Tagged {
    /// Default: `{ "VariantName": data }`
    Externally,
    /// `#[serde(tag = "type")]`: `{ "type": "VariantName", ...data }`
    Internally { tag: String },
    /// `#[serde(tag = "t", content = "c")]`: `{ "t": "VariantName", "c": data }`
    Adjacently { tag: String, content: String },
    /// `#[serde(untagged)]`: just `data`
    Untagged,
}

/// Serde attributes parsed from a container (struct or enum).
#[derive(Debug)]
pub struct SerdeContainer {
    pub rename: Option<String>,
    pub rename_all: Option<Inflection>,
    pub rename_all_fields: Option<Inflection>,
    pub tag: Option<String>,
    pub content: Option<String>,
    pub untagged: bool,
    pub transparent: bool,
}

impl SerdeContainer {
    /// Resolve the tagging model from the parsed attributes.
    pub fn tagged(&self) -> (r: Tagged)
        ensures
            self.untagged ==> r == Tagged::Untagged,
            !self.untagged && self.tag is Some && self.content is Some ==> r == (Tagged::Adjacently {
                tag: self.tag.unwrap(),
                content: self.content.unwrap(),
            }),
            !self.untagged && self.tag is Some && self.content is None ==> r == (Tagged::Internally {
                tag: self.tag.unwrap(),
            }),
            !self.untagged && self.tag is None ==> r == Tagged::Externally,
    {
        if self.untagged {
            Tagged::Untagged
        } else {
            match (&self.tag, &self.content) {
                (Some(tag), Some(content)) => Tagged::Adjacently { tag: tag.clone(), content: content.clone() },
                (Some(tag), None) => Tagged::Internally { tag: tag.clone() },
                _ => Tagged::Externally,
            }
        }
    }
}

/// Serde attributes parsed from a field.
#[derive(Debug)]
pub struct SerdeField {
    pub rename: Option<String>,
    pub skip: bool,
    pub skip_serializing: bool,
    pub skip_serializing_if: bool,
    pub skip_deserializing: bool,
    pub flatten: bool,
    pub has_default: bool,
    pub with: bool,
}

impl SerdeField {
    /// Whether this field may be omitted from serialized output.
    pub fn maybe_omitted(&self) -> (r: bool)
        ensures
            r == (self.skip_serializing || self.skip_serializing_if),
    {
        self.skip_serializing || self.skip_serializing_if
    }
}

/// Serde attributes parsed from an enum variant.
#[derive(Debug)]
pub struct SerdeVariant {
    pub rename: Option<String>,
    pub rename_all: Option<Inflection>,
    pub skip: bool,
    pub untagged: bool,
}


impl Default for SerdeContainer {
    fn default() -> (r: Self)
        ensures
            r == serde_container_default(),
    {
        SerdeContainer {
            rename: None,
            rename_all: None,
            rename_all_fields: None,
            tag: None,
            content: None,
            untagged: false,
            transparent: false,
        }
    }
}

/// A container without serde attributes.
pub open spec fn serde_container_default() -> SerdeContainer {
    SerdeContainer {
        rename: None,
        rename_all: None,
        rename_all_fields: None,
        tag: None,
        content: None,
        untagged: false,
        transparent: false,
    }
}

/// The effect of one `#[serde(...)]` item on a container (other attributes
/// have none).
pub open spec fn serde_container_step(c: SerdeContainer, m: Meta, flow: bool) -> Result<SerdeContainer, AttrError> {
    let k = meta_key(m);
    if flow {
        Ok(c)
    } else if k == "rename"@ {
        match str_value(m) {
            Ok(Some(s)) => Ok(SerdeContainer { rename: Some(s), ..c }),
            Ok(None) => Ok(c),
            Err(e) => Err(e),
        }
    } else if k == "rename_all"@ {
        match str_value(m) {
            Ok(Some(s)) => Ok(SerdeContainer { rename_all: parse_inflection(s@), ..c }),
            Ok(None) => Ok(c),
            Err(e) => Err(e),
        }
    } else if k == "rename_all_fields"@ {
        match str_value(m) {
            Ok(Some(s)) => Ok(SerdeContainer { rename_all_fields: parse_inflection(s@), ..c }),
            Ok(None) => Ok(c),
            Err(e) => Err(e),
        }
    } else if k == "tag"@ {
        match str_value(m) {
            Ok(Some(s)) => Ok(SerdeContainer { tag: Some(s), ..c }),
            Ok(None) => Ok(c),
            Err(e) => Err(e),
        }
    } else if k == "content"@ {
        match str_value(m) {
            Ok(Some(s)) => Ok(SerdeContainer { content: Some(s), ..c }),
            Ok(None) => Ok(c),
            Err(e) => Err(e),
        }
    } else if k == "untagged"@ {
        match flag(m) {
            Ok(_) => Ok(SerdeContainer { untagged: true, ..c }),
            Err(e) => Err(e),
        }
    } else if k == "transparent"@ {
        match flag(m) {
            Ok(_) => Ok(SerdeContainer { transparent: true, ..c }),
            Err(e) => Err(e),
        }
    } else {
        match skipped(m) {
            Ok(_) => Ok(c),
            Err(e) => Err(e),
        }
    }
}

impl View for SerdeContainer {
    type V = SerdeContainer;

    open spec fn view(&self) -> SerdeContainer {
        *self
    }
}

impl AttrState for SerdeContainer {
    open spec fn step_spec(v: SerdeContainer, m: Meta, flow: bool) -> Result<SerdeContainer, AttrError> {
        serde_container_step(v, m, flow)
    }

    fn step(&mut self, m: &Meta, flow: bool) -> (r: Result<(), AttrError>) {
        if flow {
            return Ok(());
        }
        if key_is(m, "rename") {
            if let Some(s) = str_value_exec(m)? {
                self.rename = Some(s);
            }
        } else if key_is(m, "rename_all") {
            if let Some(s) = str_value_exec(m)? {
                self.rename_all = Inflection::parse(s.as_str());
            }
        } else if key_is(m, "rename_all_fields") {
            if let Some(s) = str_value_exec(m)? {
                self.rename_all_fields = Inflection::parse(s.as_str());
            }
        } else if key_is(m, "tag") {
            if let Some(s) = str_value_exec(m)? {
                self.tag = Some(s);
            }
        } else if key_is(m, "content") {
            if let Some(s) = str_value_exec(m)? {
                self.content = Some(s);
            }
        } else if key_is(m, "untagged") {
            flag_exec(m)?;
            self.untagged = true;
        } else if key_is(m, "transparent") {
            flag_exec(m)?;
            self.transparent = true;
        } else {
            skipped_exec(m)?;
        }
        Ok(())
    }
}

impl SerdeContainer {
    /// Parse serde container attributes from a list of attributes.
    pub fn from_attrs(attrs: &Vec<Attribute>) -> (r: Result<SerdeContainer, AttrError>)
        ensures
            match r {
                Ok(c) => fold_attrs::<SerdeContainer>(serde_container_default(), attrs@, attrs@.len() as int) == Ok::<SerdeContainer, AttrError>(c),
                Err(e) => fold_attrs::<SerdeContainer>(serde_container_default(), attrs@, attrs@.len() as int) == Err::<SerdeContainer, AttrError>(e),
            },
    {
        read_attrs(SerdeContainer::default(), attrs)
    }
}

impl Default for SerdeField {
    fn default() -> (r: Self)
        ensures
            r == serde_field_default(),
    {
        SerdeField {
            rename: None,
            skip: false,
            skip_serializing: false,
            skip_serializing_if: false,
            skip_deserializing: false,
            flatten: false,
            has_default: false,
            with: false,
        }
    }
}

/// A field without serde attributes.
pub open spec fn serde_field_default() -> SerdeField {
    SerdeField {
        rename: None,
        skip: false,
        skip_serializing: false,
        skip_serializing_if: false,
        skip_deserializing: false,
        flatten: false,
        has_default: false,
        with: false,
    }
}

/// The effect of one `#[serde(...)]` item on a field.
pub open spec fn serde_field_step(f: SerdeField, m: Meta, flow: bool) -> Result<SerdeField, AttrError> {
    let k = meta_key(m);
    if flow {
        Ok(f)
    } else if k == "rename"@ {
        match str_value(m) {
            Ok(Some(s)) => Ok(SerdeField { rename: Some(s), ..f }),
            Ok(None) => Ok(f),
            Err(e) => Err(e),
        }
    } else if k == "skip"@ {
        match flag(m) {
            Ok(_) => Ok(SerdeField { skip: true, ..f }),
            Err(e) => Err(e),
        }
    } else if k == "skip_serializing"@ {
        match flag(m) {
            Ok(_) => Ok(SerdeField { skip_serializing: true, ..f }),
            Err(e) => Err(e),
        }
    } else if k == "skip_serializing_if"@ {
        match skipped(m) {
            Ok(_) => Ok(SerdeField { skip_serializing_if: true, ..f }),
            Err(e) => Err(e),
        }
    } else if k == "skip_deserializing"@ {
        match flag(m) {
            Ok(_) => Ok(SerdeField { skip_deserializing: true, ..f }),
            Err(e) => Err(e),
        }
    } else if k == "default"@ {
        match skipped(m) {
            Ok(_) => Ok(SerdeField { has_default: true, ..f }),
            Err(e) => Err(e),
        }
    } else if k == "flatten"@ {
        match flag(m) {
            Ok(_) => Ok(SerdeField { flatten: true, ..f }),
            Err(e) => Err(e),
        }
    } else if k == "with"@ || k == "serialize_with"@ {
        match skipped(m) {
            Ok(_) => Ok(SerdeField { with: true, ..f }),
            Err(e) => Err(e),
        }
    } else {
        match skipped(m) {
            Ok(_) => Ok(f),
            Err(e) => Err(e),
        }
    }
}

impl View for SerdeField {
    type V = SerdeField;

    open spec fn view(&self) -> SerdeField {
        *self
    }
}

impl AttrState for SerdeField {
    open spec fn step_spec(v: SerdeField, m: Meta, flow: bool) -> Result<SerdeField, AttrError> {
        serde_field_step(v, m, flow)
    }

    fn step(&mut self, m: &Meta, flow: bool) -> (r: Result<(), AttrError>) {
        if flow {
            return Ok(());
        }
        if key_is(m, "rename") {
            if let Some(s) = str_value_exec(m)? {
                self.rename = Some(s);
            }
        } else if key_is(m, "skip") {
            flag_exec(m)?;
            self.skip = true;
        } else if key_is(m, "skip_serializing") {
            flag_exec(m)?;
            self.skip_serializing = true;
        } else if key_is(m, "skip_serializing_if") {
            skipped_exec(m)?;
            self.skip_serializing_if = true;
        } else if key_is(m, "skip_deserializing") {
            flag_exec(m)?;
            self.skip_deserializing = true;
        } else if key_is(m, "default") {
            skipped_exec(m)?;
            self.has_default = true;
        } else if key_is(m, "flatten") {
            flag_exec(m)?;
            self.flatten = true;
        } else if key_is(m, "with") || key_is(m, "serialize_with") {
            skipped_exec(m)?;
            self.with = true;
        } else {
            skipped_exec(m)?;
        }
        Ok(())
    }
}

impl SerdeField {
    /// Parse serde field attributes.
    pub fn from_attrs(attrs: &Vec<Attribute>) -> (r: Result<SerdeField, AttrError>)
        ensures
            match r {
                Ok(f) => fold_attrs::<SerdeField>(serde_field_default(), attrs@, attrs@.len() as int) == Ok::<SerdeField, AttrError>(f),
                Err(e) => fold_attrs::<SerdeField>(serde_field_default(), attrs@, attrs@.len() as int) == Err::<SerdeField, AttrError>(e),
            },
    {
        read_attrs(SerdeField::default(), attrs)
    }
}

impl Default for SerdeVariant {
    fn default() -> (r: Self)
        ensures
            r == serde_variant_default(),
    {
        SerdeVariant { rename: None, rename_all: None, skip: false, untagged: false }
    }
}

/// A variant without serde attributes.
pub open spec fn serde_variant_default() -> SerdeVariant {
    SerdeVariant { rename: None, rename_all: None, skip: false, untagged: false }
}

/// The effect of one `#[serde(...)]` item on a variant.
pub open spec fn serde_variant_step(v: SerdeVariant, m: Meta, flow: bool) -> Result<SerdeVariant, AttrError> {
    let k = meta_key(m);
    if flow {
        Ok(v)
    } else if k == "rename"@ {
        match str_value(m) {
            Ok(Some(s)) => Ok(SerdeVariant { rename: Some(s), ..v }),
            Ok(None) => Ok(v),
            Err(e) => Err(e),
        }
    } else if k == "rename_all"@ {
        match str_value(m) {
            Ok(Some(s)) => Ok(SerdeVariant { rename_all: parse_inflection(s@), ..v }),
            Ok(None) => Ok(v),
            Err(e) => Err(e),
        }
    } else if k == "skip"@ {
        match flag(m) {
            Ok(_) => Ok(SerdeVariant { skip: true, ..v }),
            Err(e) => Err(e),
        }
    } else if k == "untagged"@ {
        match flag(m) {
            Ok(_) => Ok(SerdeVariant { untagged: true, ..v }),
            Err(e) => Err(e),
        }
    } else {
        match skipped(m) {
            Ok(_) => Ok(v),
            Err(e) => Err(e),
        }
    }
}

impl View for SerdeVariant {
    type V = SerdeVariant;

    open spec fn view(&self) -> SerdeVariant {
        *self
    }
}

impl AttrState for SerdeVariant {
    open spec fn step_spec(v: SerdeVariant, m: Meta, flow: bool) -> Result<SerdeVariant, AttrError> {
        serde_variant_step(v, m, flow)
    }

    fn step(&mut self, m: &Meta, flow: bool) -> (r: Result<(), AttrError>) {
        if flow {
            return Ok(());
        }
        if key_is(m, "rename") {
            if let Some(s) = str_value_exec(m)? {
                self.rename = Some(s);
            }
        } else if key_is(m, "rename_all") {
            if let Some(s) = str_value_exec(m)? {
                self.rename_all = Inflection::parse(s.as_str());
            }
        } else if key_is(m, "skip") {
            flag_exec(m)?;
            self.skip = true;
        } else if key_is(m, "untagged") {
            flag_exec(m)?;
            self.untagged = true;
        } else {
            skipped_exec(m)?;
        }
        Ok(())
    }
}

impl SerdeVariant {
    /// Parse serde variant attributes.
    pub fn from_attrs(attrs: &Vec<Attribute>) -> (r: Result<SerdeVariant, AttrError>)
        ensures
            match r {
                Ok(v) => fold_attrs::<SerdeVariant>(serde_variant_default(), attrs@, attrs@.len() as int) == Ok::<SerdeVariant, AttrError>(v),
                Err(e) => fold_attrs::<SerdeVariant>(serde_variant_default(), attrs@, attrs@.len() as int) == Err::<SerdeVariant, AttrError>(e),
            },
    {
        read_attrs(SerdeVariant::default(), attrs)
    }
}

} // verus!
