//! The `#[flow(...)]` (and serde-compatible `#[serde(...)]`) attributes of a
//! derived type, its fields and its variants, as plain values.
//!
//! API-compatible with ts-rs: every `#[ts(...)]` attribute has a `#[flow(...)]`
//! equivalent with identical semantics. Flow-specific additions (opaque,
//! flow_enum) extend the surface.

use vstd::prelude::*;
use crate::inflection::{Inflection, inflect, parse_inflection};
use crate::meta::{
    Attribute, AttrError, AttrState, ListItem, Lit, Meta, meta_key, key_string, str_value, flag, skipped,
    fold_attrs, key_is, key_of, str_value_exec, flag_exec, skipped_exec, read_attrs, path_value, type_value,
    bound_value, path_value_exec, type_value_exec, bound_value_exec,
};

verus! {

// ── Optional system ─────────────────────────────────────────────────────

/// Controls how `Option<T>` fields are represented in Flow.
#[derive(Clone, Copy, Debug, PartialEq, Eq, Structural)]
pub enum Optional {
    /// `Option<T>` → `field?: T` (or `field?: T | null` if nullable)
    Optional { nullable: bool },
    /// Explicitly NOT optional — standard behavior.
    NotOptional,
    /// Inherit from parent (container-level `optional_fields`).
    Inherit,
}

/// Whether a field-level setting, resolved against the container's, makes the
/// field optional.
pub open spec fn resolves_optional(field: Optional, container: Optional) -> bool {
    match field {
        Optional::Optional { .. } => true,
        Optional::NotOptional => false,
        Optional::Inherit => container is Optional,
    }
}

/// Whether a field-level setting, resolved against the container's, is nullable.
pub open spec fn resolves_nullable(field: Optional, container: Optional) -> bool {
    match field {
        Optional::Optional { nullable } => nullable,
        Optional::Inherit => match container {
            Optional::Optional { nullable } => nullable,
            _ => false,
        },
        Optional::NotOptional => false,
    }
}

impl Optional {
    /// Resolve field-level optional against container-level optional_fields.
    pub fn resolve(&self, container: &Self) -> (r: bool)
        ensures
            r == resolves_optional(*self, *container),
    {
        match self {
            Optional::Optional { .. } => true,
            Optional::NotOptional => false,
            Optional::Inherit => match container {
                Optional::Optional { .. } => true,
                _ => false,
            },
        }
    }

    /// Whether the resolved setting also allows `null`.
    pub fn is_nullable(&self, container: &Self) -> (r: bool)
        ensures
            r == resolves_nullable(*self, *container),
    {
        match self {
            Optional::Optional { nullable } => *nullable,
            Optional::Inherit => match container {
                Optional::Optional { nullable } => *nullable,
                _ => false,
            },
            Optional::NotOptional => false,
        }
    }
}

// ── Flow enum representation ────────────────────────────────────────────

/// Flow enum representation type.
#[derive(Clone, Copy, Debug, PartialEq, Eq, Structural)]
pub enum FlowEnumRepr {
    Symbol,
    String,
    Number,
    Boolean,
}

// ── Container attributes ────────────────────────────────────────────────

/// Container-level attributes (`#[flow(...)]` on struct/enum).
pub struct ContainerAttr {
    pub rename: Option<String>,
    pub rename_all: Option<Inflection>,
    pub rename_all_fields: Option<Inflection>,
    pub export: bool,
    /// `#[flow(export_to = "..")]`, as written.
    pub export_to: Option<String>,
    pub tag: Option<String>,
    pub content: Option<String>,
    pub untagged: bool,
    /// `#[flow(crate = "..")]`, the path as written.
    pub crate_rename: Option<String>,
    /// Extra where-clause predicates, as written.
    pub bound: Option<Vec<String>>,
    /// `Some(None)` = fully opaque, `Some(Some("string"))` = bounded opaque.
    pub opaque: Option<Option<String>>,
    /// Flow enum declaration. Also set by `repr(enum)` / `repr(enum = name)`.
    pub flow_enum: Option<FlowEnumRepr>,
    /// `#[flow(type = "...")]` — raw Flow type override for the whole container.
    pub type_override: Option<String>,
    /// `#[flow(as = "...")]` — the Rust type, as written, whose Flow representation is used.
    pub type_as: Option<String>,
    /// `#[flow(concrete(T = i32, ...))]` — generic parameter and concrete type, as written.
    pub concrete: Vec<(String, String)>,
    /// `#[flow(optional_fields)]` — make all `Option<T>` fields optional.
    pub optional_fields: Optional,
}

/// The inflection applied to `raw` when one is set.
pub open spec fn renamed(inflection: Option<Inflection>, raw: Seq<char>) -> Seq<char> {
    match inflection {
        Some(i) => inflect(i, raw),
        None => raw,
    }
}

/// The inflection used for fields of enum variants: `rename_all_fields`,
/// falling back to `rename_all`.
pub open spec fn variant_field_inflection(c: ContainerAttr) -> Option<Inflection> {
    match c.rename_all_fields {
        Some(i) => Some(i),
        None => c.rename_all,
    }
}

/// Applies an optional inflection to a name.
pub fn apply_renaming(inflection: &Option<Inflection>, raw: &str) -> (r: String)
    ensures
        r@ == renamed(*inflection, raw@),
{
    match inflection {
        Some(i) => i.apply(raw),
        None => raw.to_owned(),
    }
}

impl ContainerAttr {
    /// Attributes of a container that carries none.
    pub fn empty() -> (r: ContainerAttr)
        ensures
            r.rename.is_none(),
            r.rename_all.is_none(),
            r.rename_all_fields.is_none(),
            !r.export,
            r.export_to.is_none(),
            r.tag.is_none(),
            r.content.is_none(),
            !r.untagged,
            r.crate_rename.is_none(),
            r.bound.is_none(),
            r.opaque.is_none(),
            r.flow_enum.is_none(),
            r.type_override.is_none(),
            r.type_as.is_none(),
            r.concrete@.len() == 0,
            r.optional_fields == Optional::Inherit,
    {
        ContainerAttr {
            rename: None,
            rename_all: None,
            rename_all_fields: None,
            export: false,
            export_to: None,
            tag: None,
            content: None,
            untagged: false,
            crate_rename: None,
            bound: None,
            opaque: None,
            flow_enum: None,
            type_override: None,
            type_as: None,
            concrete: Vec::new(),
            optional_fields: Optional::Inherit,
        }
    }

    /// Apply `rename_all` inflection to a field name.
    pub fn rename_field(&self, raw: &str) -> (r: String)
        ensures
            r@ == renamed(self.rename_all, raw@),
    {
        apply_renaming(&self.rename_all, raw)
    }

    /// Apply `rename_all` inflection to a variant name.
    pub fn rename_variant(&self, raw: &str) -> (r: String)
        ensures
            r@ == renamed(self.rename_all, raw@),
    {
        apply_renaming(&self.rename_all, raw)
    }

    /// Apply `rename_all_fields` inflection to a field inside an enum variant.
    /// Falls back to `rename_all` if `rename_all_fields` is not set.
    pub fn rename_variant_field(&self, raw: &str) -> (r: String)
        ensures
            r@ == renamed(variant_field_inflection(*self), raw@),
    {
        match &self.rename_all_fields {
            Some(i) => i.apply(raw),
            None => self.rename_field(raw),
        }
    }
}

// ── Field attributes ────────────────────────────────────────────────────

/// Field-level attributes (`#[flow(...)]` on struct fields).
pub struct FieldAttr {
    pub rename: Option<String>,
    pub type_override: Option<String>,
    /// `#[flow(as = "...")]` — the Rust type, as written.
    pub type_as: Option<String>,
    pub skip: bool,
    pub optional: Optional,
    pub inline: bool,
    pub flatten: bool,
    /// Add the `+` (covariant/readonly) prefix on this field.
    /// Default: false (matches ts-rs behavior — fields are mutable by default).
    pub readonly: bool,
    /// serde: `skip_serializing_if` or `skip_serializing` seen
    pub maybe_omitted: bool,
    /// serde: `default` seen
    pub has_default: bool,
}

/// Whether a field with these attributes is key-optional (`field?:`).
pub open spec fn field_is_optional(f: FieldAttr, container_optional: Optional) -> bool {
    match f.optional {
        Optional::Optional { .. } => true,
        Optional::NotOptional => false,
        Optional::Inherit => (container_optional is Optional) || f.maybe_omitted,
    }
}

impl FieldAttr {
    /// Attributes of a field that carries none.
    pub fn empty() -> (r: FieldAttr)
        ensures
            r.rename.is_none(),
            r.type_override.is_none(),
            r.type_as.is_none(),
            !r.skip,
            r.optional == Optional::Inherit,
            !r.inline,
            !r.flatten,
            !r.readonly,
            !r.maybe_omitted,
            !r.has_default,
    {
        FieldAttr {
            rename: None,
            type_override: None,
            type_as: None,
            skip: false,
            optional: Optional::Inherit,
            inline: false,
            flatten: false,
            readonly: false,
            maybe_omitted: false,
            has_default: false,
        }
    }

    /// Whether this field should be key-optional (`field?:`).
    pub fn is_optional(&self, container_optional: &Optional) -> (r: bool)
        ensures
            r == field_is_optional(*self, *container_optional),
    {
        match &self.optional {
            Optional::Optional { .. } => true,
            Optional::NotOptional => false,
            Optional::Inherit => {
                // Inherit from container, or fall back to serde heuristic
                if let Optional::Optional { .. } = container_optional {
                    true
                } else {
                    self.is_serde_optional()
                }
            },
        }
    }

    /// Whether this field can be absent in serialized output based on serde attributes.
    pub fn is_serde_optional(&self) -> (r: bool)
        ensures
            r == self.maybe_omitted,
    {
        self.maybe_omitted
    }
}

// ── Variant attributes ──────────────────────────────────────────────────

/// Variant-level attributes (`#[flow(...)]` on enum variants).
pub struct VariantAttr {
    pub rename: Option<String>,
    pub skip: bool,
    /// `#[flow(type = "...")]` — override variant type.
    pub type_override: Option<String>,
    /// `#[flow(as = "...")]` — the Rust type, as written, to delegate to.
    pub type_as: Option<String>,
    /// `#[flow(rename_all = "...")]` — per-variant field renaming.
    pub rename_all: Option<Inflection>,
    /// `#[flow(inline)]` — inline variant type definition.
    pub inline: bool,
    /// `#[flow(untagged)]` — make this specific variant untagged.
    pub untagged: bool,
    /// `#[flow(optional_fields)]` — per-variant optional field behavior.
    pub optional_fields: Optional,
}

impl VariantAttr {
    /// Attributes of a variant that carries none.
    pub fn empty() -> (r: VariantAttr)
        ensures
            r.rename.is_none(),
            !r.skip,
            r.type_override.is_none(),
            r.type_as.is_none(),
            r.rename_all.is_none(),
            !r.inline,
            !r.untagged,
            r.optional_fields == Optional::Inherit,
    {
        VariantAttr {
            rename: None,
            skip: false,
            type_override: None,
            type_as: None,
            rename_all: None,
            inline: false,
            untagged: false,
            optional_fields: Optional::Inherit,
        }
    }
}


// ── Reading attributes ──────────────────────────────────────────────────

/// How `optional` (and `optional_fields`) is read: alone it means optional,
/// `= "nullable"` optional and nullable, `= true` / `= false` optional or not.
pub open spec fn optional_from(m: Meta) -> Result<Optional, AttrError> {
    match m {
        Meta::Path(_) => Ok(Optional::Optional { nullable: false }),
        Meta::NameValue(_, Lit::Str(s)) => if s@ == "nullable"@ {
            Ok(Optional::Optional { nullable: true })
        } else {
            Err(AttrError::UnknownOptional(s))
        },
        Meta::NameValue(_, Lit::Bool(b)) => Ok(
            if b {
                Optional::Optional { nullable: false }
            } else {
                Optional::NotOptional
            },
        ),
        Meta::NameValue(_, Lit::Other) => Err(AttrError::OptionalNotStrOrBool),
        Meta::NameValue(_, Lit::Expr) => Err(AttrError::ExpectedLiteral),
        Meta::List(k, _) => Err(AttrError::UnexpectedValue(k)),
    }
}

impl Optional {
    /// Parse from `#[flow(optional)]`, `#[flow(optional = "nullable")]`, `#[flow(optional = false)]`.
    pub fn parse_from_meta(m: &Meta) -> (r: Result<Optional, AttrError>)
        ensures
            r == optional_from(*m),
    {
        match m {
            Meta::Path(_) => Ok(Optional::Optional { nullable: false }),
            Meta::NameValue(_, Lit::Str(s)) => {
                if crate::strings::str_equal(s.as_str(), "nullable") {
                    Ok(Optional::Optional { nullable: true })
                } else {
                    Err(AttrError::UnknownOptional(s.clone()))
                }
            },
            Meta::NameValue(_, Lit::Bool(b)) => Ok(
                if *b {
                    Optional::Optional { nullable: false }
                } else {
                    Optional::NotOptional
                },
            ),
            Meta::NameValue(_, Lit::Other) => Err(AttrError::OptionalNotStrOrBool),
            Meta::NameValue(_, Lit::Expr) => Err(AttrError::ExpectedLiteral),
        Meta::NameValue(_, Lit::Expr) => Err(AttrError::ExpectedLiteral),
            Meta::List(k, _) => Err(AttrError::UnexpectedValue(k.clone())),
        }
    }
}

/// The inflection named by a `rename_all` value; an unknown name is an error.
pub open spec fn rename_all_from(s: String) -> Result<Inflection, AttrError> {
    match parse_inflection(s@) {
        Some(i) => Ok(i),
        None => Err(AttrError::InvalidRenameAll(s)),
    }
}

fn rename_all_exec(s: &String) -> (r: Result<Inflection, AttrError>)
    ensures
        r == rename_all_from(*s),
{
    match Inflection::parse(s.as_str()) {
        Some(i) => Ok(i),
        None => Err(AttrError::InvalidRenameAll(s.clone())),
    }
}

/// The effect of one attribute item on a field's attributes.
pub open spec fn field_step(f: FieldAttr, m: Meta, flow: bool) -> Result<FieldAttr, AttrError> {
    let k = meta_key(m);
    if flow {
        if k == "rename"@ {
            match str_value(m) {
                Ok(Some(s)) => Ok(FieldAttr { rename: Some(s), ..f }),
                Ok(None) => Ok(f),
                Err(e) => Err(e),
            }
        } else if k == "type"@ {
            match str_value(m) {
                Ok(Some(s)) => Ok(FieldAttr { type_override: Some(s), ..f }),
                Ok(None) => Ok(f),
                Err(e) => Err(e),
            }
        } else if k == "as"@ {
            match type_value(m) {
                Ok(Some(s)) => Ok(FieldAttr { type_as: Some(s), ..f }),
                Ok(None) => Ok(f),
                Err(e) => Err(e),
            }
        } else if k == "skip"@ {
            match flag(m) {
                Ok(_) => Ok(FieldAttr { skip: true, ..f }),
                Err(e) => Err(e),
            }
        } else if k == "optional"@ {
            match optional_from(m) {
                Ok(o) => Ok(FieldAttr { optional: o, ..f }),
                Err(e) => Err(e),
            }
        } else if k == "inline"@ {
            match flag(m) {
                Ok(_) => Ok(FieldAttr { inline: true, ..f }),
                Err(e) => Err(e),
            }
        } else if k == "flatten"@ {
            match flag(m) {
                Ok(_) => Ok(FieldAttr { flatten: true, ..f }),
                Err(e) => Err(e),
            }
        } else if k == "readonly"@ {
            match flag(m) {
                Ok(_) => Ok(FieldAttr { readonly: true, ..f }),
                Err(e) => Err(e),
            }
        } else {
            Err(AttrError::UnknownFieldAttr(key_string(m)))
        }
    } else {
        if k == "rename"@ {
            match str_value(m) {
                Ok(Some(s)) => if f.rename is None {
                    Ok(FieldAttr { rename: Some(s), ..f })
                } else {
                    Ok(f)
                },
                Ok(None) => Ok(f),
                Err(e) => Err(e),
            }
        } else if k == "skip"@ {
            match flag(m) {
                Ok(_) => Ok(FieldAttr { skip: true, ..f }),
                Err(e) => Err(e),
            }
        } else if k == "skip_serializing"@ {
            match flag(m) {
                Ok(_) => Ok(FieldAttr { maybe_omitted: true, ..f }),
                Err(e) => Err(e),
            }
        } else if k == "skip_serializing_if"@ {
            match skipped(m) {
                Ok(_) => Ok(FieldAttr { maybe_omitted: true, ..f }),
                Err(e) => Err(e),
            }
        } else if k == "default"@ {
            match skipped(m) {
                Ok(_) => Ok(FieldAttr { has_default: true, ..f }),
                Err(e) => Err(e),
            }
        } else if k == "flatten"@ {
            match flag(m) {
                Ok(_) => Ok(FieldAttr { flatten: true, ..f }),
                Err(e) => Err(e),
            }
        } else {
            match skipped(m) {
                Ok(_) => Ok(f),
                Err(e) => Err(e),
            }
        }
    }
}

impl View for FieldAttr {
    type V = FieldAttr;

    open spec fn view(&self) -> FieldAttr {
        *self
    }
}

impl AttrState for FieldAttr {
    open spec fn step_spec(v: FieldAttr, m: Meta, flow: bool) -> Result<FieldAttr, AttrError> {
        field_step(v, m, flow)
    }

    fn step(&mut self, m: &Meta, flow: bool) -> (r: Result<(), AttrError>) {
        if flow {
            if key_is(m, "rename") {
                if let Some(s) = str_value_exec(m)? {
                    self.rename = Some(s);
                }
            } else if key_is(m, "type") {
                if let Some(s) = str_value_exec(m)? {
                    self.type_override = Some(s);
                }
            } else if key_is(m, "as") {
                if let Some(s) = type_value_exec(m)? {
                    self.type_as = Some(s);
                }
            } else if key_is(m, "skip") {
                flag_exec(m)?;
                self.skip = true;
            } else if key_is(m, "optional") {
                self.optional = Optional::parse_from_meta(m)?;
            } else if key_is(m, "inline") {
                flag_exec(m)?;
                self.inline = true;
            } else if key_is(m, "flatten") {
                flag_exec(m)?;
                self.flatten = true;
            } else if key_is(m, "readonly") {
                flag_exec(m)?;
                self.readonly = true;
            } else {
                return Err(AttrError::UnknownFieldAttr(key_of(m).clone()));
            }
        } else {
            if key_is(m, "rename") {
                if let Some(s) = str_value_exec(m)? {
                    if self.rename.is_none() {
                        self.rename = Some(s);
                    }
                }
            } else if key_is(m, "skip") {
                flag_exec(m)?;
                self.skip = true;
            } else if key_is(m, "skip_serializing") {
                flag_exec(m)?;
                self.maybe_omitted = true;
            } else if key_is(m, "skip_serializing_if") {
                skipped_exec(m)?;
                self.maybe_omitted = true;
            } else if key_is(m, "default") {
                skipped_exec(m)?;
                self.has_default = true;
            } else if key_is(m, "flatten") {
                flag_exec(m)?;
                self.flatten = true;
            } else {
                skipped_exec(m)?;
            }
        }
        Ok(())
    }
}

impl FieldAttr {
    /// Read a field's `#[flow(...)]` and `#[serde(...)]` attributes.
    pub fn from_attrs(attrs: &Vec<Attribute>) -> (r: Result<FieldAttr, AttrError>)
        ensures
            match r {
                Ok(f) => fold_attrs::<FieldAttr>(field_attr_default(), attrs@, attrs@.len() as int) == Ok::<FieldAttr, AttrError>(f),
                Err(e) => fold_attrs::<FieldAttr>(field_attr_default(), attrs@, attrs@.len() as int) == Err::<FieldAttr, AttrError>(e),
            },
    {
        let f = FieldAttr::empty();
        proof {
            assert(f == field_attr_default());
        }
        read_attrs(f, attrs)
    }
}

/// The attributes of a field that carries none.
pub open spec fn field_attr_default() -> FieldAttr {
    FieldAttr {
        rename: None,
        type_override: None,
        type_as: None,
        skip: false,
        optional: Optional::Inherit,
        inline: false,
        flatten: false,
        readonly: false,
        maybe_omitted: false,
        has_default: false,
    }
}


/// The effect of one attribute item on a variant's attributes.
pub open spec fn variant_step(v: VariantAttr, m: Meta, flow: bool) -> Result<VariantAttr, AttrError> {
    let k = meta_key(m);
    if flow {
        if k == "rename"@ {
            match str_value(m) {
                Ok(Some(s)) => Ok(VariantAttr { rename: Some(s), ..v }),
                Ok(None) => Ok(v),
                Err(e) => Err(e),
            }
        } else if k == "skip"@ {
            match flag(m) {
                Ok(_) => Ok(VariantAttr { skip: true, ..v }),
                Err(e) => Err(e),
            }
        } else if k == "type"@ {
            match str_value(m) {
                Ok(Some(s)) => Ok(VariantAttr { type_override: Some(s), ..v }),
                Ok(None) => Ok(v),
                Err(e) => Err(e),
            }
        } else if k == "as"@ {
            match type_value(m) {
                Ok(Some(s)) => Ok(VariantAttr { type_as: Some(s), ..v }),
                Ok(None) => Ok(v),
                Err(e) => Err(e),
            }
        } else if k == "rename_all"@ {
            match str_value(m) {
                Ok(Some(s)) => match rename_all_from(s) {
                    Ok(i) => Ok(VariantAttr { rename_all: Some(i), ..v }),
                    Err(e) => Err(e),
                },
                Ok(None) => Ok(v),
                Err(e) => Err(e),
            }
        } else if k == "inline"@ {
            match flag(m) {
                Ok(_) => Ok(VariantAttr { inline: true, ..v }),
                Err(e) => Err(e),
            }
        } else if k == "untagged"@ {
            match flag(m) {
                Ok(_) => Ok(VariantAttr { untagged: true, ..v }),
                Err(e) => Err(e),
            }
        } else if k == "optional_fields"@ {
            match optional_from(m) {
                Ok(o) => Ok(VariantAttr { optional_fields: o, ..v }),
                Err(e) => Err(e),
            }
        } else {
            Err(AttrError::UnknownVariantAttr(key_string(m)))
        }
    } else {
        if k == "rename"@ {
            match str_value(m) {
                Ok(Some(s)) => if v.rename is None {
                    Ok(VariantAttr { rename: Some(s), ..v })
                } else {
                    Ok(v)
                },
                Ok(None) => Ok(v),
                Err(e) => Err(e),
            }
        } else if k == "skip"@ {
            match flag(m) {
                Ok(_) => Ok(VariantAttr { skip: true, ..v }),
                Err(e) => Err(e),
            }
        } else if k == "untagged"@ {
            match flag(m) {
                Ok(_) => Ok(VariantAttr { untagged: true, ..v }),
                Err(e) => Err(e),
            }
        } else if k == "rename_all"@ {
            match str_value(m) {
                Ok(Some(s)) => if v.rename_all is None {
                    match rename_all_from(s) {
                        Ok(i) => Ok(VariantAttr { rename_all: Some(i), ..v }),
                        Err(e) => Err(e),
                    }
                } else {
                    Ok(v)
                },
                Ok(None) => Ok(v),
                Err(e) => Err(e),
            }
        } else {
            match skipped(m) {
                Ok(_) => Ok(v),
                Err(e) => Err(e),
            }
        }
    }
}

impl View for VariantAttr {
    type V = VariantAttr;

    open spec fn view(&self) -> VariantAttr {
        *self
    }
}

impl AttrState for VariantAttr {
    open spec fn step_spec(v: VariantAttr, m: Meta, flow: bool) -> Result<VariantAttr, AttrError> {
        variant_step(v, m, flow)
    }

    fn step(&mut self, m: &Meta, flow: bool) -> (r: Result<(), AttrError>) {
        if flow {
            if key_is(m, "rename") {
                if let Some(s) = str_value_exec(m)? {
                    self.rename = Some(s);
                }
            } else if key_is(m, "skip") {
                flag_exec(m)?;
                self.skip = true;
            } else if key_is(m, "type") {
                if let Some(s) = str_value_exec(m)? {
                    self.type_override = Some(s);
                }
            } else if key_is(m, "as") {
                if let Some(s) = type_value_exec(m)? {
                    self.type_as = Some(s);
                }
            } else if key_is(m, "rename_all") {
                if let Some(s) = str_value_exec(m)? {
                    self.rename_all = Some(rename_all_exec(&s)?);
                }
            } else if key_is(m, "inline") {
                flag_exec(m)?;
                self.inline = true;
            } else if key_is(m, "untagged") {
                flag_exec(m)?;
                self.untagged = true;
            } else if key_is(m, "optional_fields") {
                self.optional_fields = Optional::parse_from_meta(m)?;
            } else {
                return Err(AttrError::UnknownVariantAttr(key_of(m).clone()));
            }
        } else {
            if key_is(m, "rename") {
                if let Some(s) = str_value_exec(m)? {
                    if self.rename.is_none() {
                        self.rename = Some(s);
                    }
                }
            } else if key_is(m, "skip") {
                flag_exec(m)?;
                self.skip = true;
            } else if key_is(m, "untagged") {
                flag_exec(m)?;
                self.untagged = true;
            } else if key_is(m, "rename_all") {
                if let Some(s) = str_value_exec(m)? {
                    if self.rename_all.is_none() {
                        self.rename_all = Some(rename_all_exec(&s)?);
                    }
                }
            } else {
                skipped_exec(m)?;
            }
        }
        Ok(())
    }
}

/// The attributes of a variant that carries none.
pub open spec fn variant_attr_default() -> VariantAttr {
    VariantAttr {
        rename: None,
        skip: false,
        type_override: None,
        type_as: None,
        rename_all: None,
        inline: false,
        untagged: false,
        optional_fields: Optional::Inherit,
    }
}

impl VariantAttr {
    /// Read a variant's `#[flow(...)]` and `#[serde(...)]` attributes.
    ///
    /// A `rename_all` value that names no inflection is a defect of the
    /// annotated type, on which the derive stops (it panics with "invalid
    /// rename_all value"): such attributes are outside this function's
    /// domain. `try_from_attrs` reads them too, and reports that value as
    /// `AttrError::InvalidRenameAll`.
    pub fn from_attrs(attrs: &Vec<Attribute>) -> (r: Result<VariantAttr, AttrError>)
        requires
            !(fold_attrs::<VariantAttr>(variant_attr_default(), attrs@, attrs@.len() as int) matches Err(AttrError::InvalidRenameAll(_))),
        ensures
            match r {
                Ok(v) => fold_attrs::<VariantAttr>(variant_attr_default(), attrs@, attrs@.len() as int) == Ok::<VariantAttr, AttrError>(v),
                Err(e) => fold_attrs::<VariantAttr>(variant_attr_default(), attrs@, attrs@.len() as int) == Err::<VariantAttr, AttrError>(e),
            },
    {
        VariantAttr::try_from_attrs(attrs)
    }

    /// Read a variant's attributes, reporting an unknown `rename_all` value
    /// as an error where the derive stops.
    pub fn try_from_attrs(attrs: &Vec<Attribute>) -> (r: Result<VariantAttr, AttrError>)
        ensures
            match r {
                Ok(v) => fold_attrs::<VariantAttr>(variant_attr_default(), attrs@, attrs@.len() as int) == Ok::<VariantAttr, AttrError>(v),
                Err(e) => fold_attrs::<VariantAttr>(variant_attr_default(), attrs@, attrs@.len() as int) == Err::<VariantAttr, AttrError>(e),
            },
    {
        let v = VariantAttr::empty();
        proof {
            assert(v == variant_attr_default());
        }
        read_attrs(v, attrs)
    }
}


/// The abstract contents of a [`ContainerAttr`].
pub struct ContainerView {
    pub rename: Option<String>,
    pub rename_all: Option<Inflection>,
    pub rename_all_fields: Option<Inflection>,
    pub export: bool,
    pub export_to: Option<String>,
    pub tag: Option<String>,
    pub content: Option<String>,
    pub untagged: bool,
    pub crate_rename: Option<String>,
    pub bound: Option<Seq<String>>,
    pub opaque: Option<Option<String>>,
    pub flow_enum: Option<FlowEnumRepr>,
    pub type_override: Option<String>,
    pub type_as: Option<String>,
    pub concrete: Seq<(String, String)>,
    pub optional_fields: Optional,
}

impl View for ContainerAttr {
    type V = ContainerView;

    open spec fn view(&self) -> ContainerView {
        ContainerView {
            rename: self.rename,
            rename_all: self.rename_all,
            rename_all_fields: self.rename_all_fields,
            export: self.export,
            export_to: self.export_to,
            tag: self.tag,
            content: self.content,
            untagged: self.untagged,
            crate_rename: self.crate_rename,
            bound: match self.bound {
                Some(b) => Some(b@),
                None => None,
            },
            opaque: self.opaque,
            flow_enum: self.flow_enum,
            type_override: self.type_override,
            type_as: self.type_as,
            concrete: self.concrete@,
            optional_fields: self.optional_fields,
        }
    }
}

/// The pairs of `concrete` whose parameter is not `name`, among the first `n`.
pub open spec fn without_param(pairs: Seq<(String, String)>, name: Seq<char>, n: int) -> Seq<(String, String)>
    decreases n,
{
    if n <= 0 || n > pairs.len() {
        Seq::empty()
    } else if pairs[n - 1].0@ == name {
        without_param(pairs, name, n - 1)
    } else {
        without_param(pairs, name, n - 1).push(pairs[n - 1])
    }
}

/// The `concrete` pairs after the first `n` items of `concrete(..)`: each
/// `T = ty` replaces an earlier type for `T`; an item without `= ty` is an error.
pub open spec fn concrete_items(pairs: Seq<(String, String)>, key: String, items: Seq<ListItem>, n: int) -> Result<Seq<(String, String)>, AttrError>
    decreases n,
{
    if n <= 0 || n > items.len() {
        Ok(pairs)
    } else {
        match concrete_items(pairs, key, items, n - 1) {
            Ok(p) => match items[n - 1].value {
                Some(t) => Ok(without_param(p, items[n - 1].name@, p.len() as int).push((items[n - 1].name, t))),
                None => Err(AttrError::MalformedList(key)),
            },
            Err(e) => Err(e),
        }
    }
}

/// The representation named by `repr(enum)` (number) or `repr(enum = name)` (string).
pub open spec fn repr_from(items: Seq<ListItem>) -> Result<FlowEnumRepr, AttrError> {
    if items.len() == 0 || items[0].name@ != "enum"@ {
        Err(AttrError::ExpectedEnum)
    } else {
        match items[0].value {
            None => Ok(FlowEnumRepr::Number),
            Some(v) => if v@ == "name"@ {
                Ok(FlowEnumRepr::String)
            } else {
                Err(AttrError::ExpectedName)
            },
        }
    }
}

/// The representation named by `flow_enum = ".."`.
pub open spec fn flow_enum_named(s: String) -> Result<FlowEnumRepr, AttrError> {
    if s@ == "string"@ {
        Ok(FlowEnumRepr::String)
    } else if s@ == "symbol"@ {
        Ok(FlowEnumRepr::Symbol)
    } else if s@ == "number"@ {
        Ok(FlowEnumRepr::Number)
    } else if s@ == "boolean"@ {
        Ok(FlowEnumRepr::Boolean)
    } else {
        Err(AttrError::UnknownFlowEnum(s))
    }
}

/// The effect of one `#[flow(...)]` item on a container's attributes.
pub open spec fn container_flow_step(c: ContainerView, m: Meta) -> Result<ContainerView, AttrError> {
    let k = meta_key(m);
    if k == "rename"@ {
        match str_value(m) {
            Ok(Some(s)) => Ok(ContainerView { rename: Some(s), ..c }),
            Ok(None) => Ok(c),
            Err(e) => Err(e),
        }
    } else if k == "rename_all"@ {
        match str_value(m) {
            Ok(Some(s)) => match rename_all_from(s) {
                Ok(i) => Ok(ContainerView { rename_all: Some(i), ..c }),
                Err(e) => Err(e),
            },
            Ok(None) => Ok(c),
            Err(e) => Err(e),
        }
    } else if k == "rename_all_fields"@ {
        match str_value(m) {
            Ok(Some(s)) => match rename_all_from(s) {
                Ok(i) => Ok(ContainerView { rename_all_fields: Some(i), ..c }),
                Err(e) => Err(e),
            },
            Ok(None) => Ok(c),
            Err(e) => Err(e),
        }
    } else if k == "export"@ {
        match flag(m) {
            Ok(_) => Ok(ContainerView { export: true, ..c }),
            Err(e) => Err(e),
        }
    } else if k == "export_to"@ {
        match str_value(m) {
            Ok(Some(s)) => Ok(ContainerView { export_to: Some(s), ..c }),
            Ok(None) => Ok(c),
            Err(e) => Err(e),
        }
    } else if k == "tag"@ {
        match str_value(m) {
            Ok(Some(s)) => Ok(ContainerView { tag: Some(s), ..c }),
            Ok(None) => Ok(c),
            Err(e) => Err(e),
        }
    } else if k == "content"@ {
        match str_value(m) {
            Ok(Some(s)) => Ok(ContainerView { content: Some(s), ..c }),
            Ok(None) => Ok(c),
            Err(e) => Err(e),
        }
    } else if k == "untagged"@ {
        match flag(m) {
            Ok(_) => Ok(ContainerView { untagged: true, ..c }),
            Err(e) => Err(e),
        }
    } else if k == "crate"@ {
        match path_value(m) {
            Ok(Some(s)) => Ok(ContainerView { crate_rename: Some(s), ..c }),
            Ok(None) => Ok(c),
            Err(e) => Err(e),
        }
    } else if k == "opaque"@ {
        match m {
            Meta::NameValue(_, Lit::Str(s)) => Ok(ContainerView { opaque: Some(Some(s)), ..c }),
            Meta::NameValue(_, Lit::Expr) => Err(AttrError::ExpectedLiteral),
            Meta::NameValue(_, _) => Ok(c),
            Meta::Path(_) => Ok(ContainerView { opaque: Some(None), ..c }),
            Meta::List(k, _) => Err(AttrError::UnexpectedValue(k)),
        }
    } else if k == "flow_enum"@ {
        match m {
            Meta::NameValue(_, Lit::Str(s)) => match flow_enum_named(s) {
                Ok(r) => Ok(ContainerView { flow_enum: Some(r), ..c }),
                Err(e) => Err(e),
            },
            Meta::NameValue(_, Lit::Expr) => Err(AttrError::ExpectedLiteral),
            Meta::NameValue(_, _) => Ok(c),
            Meta::Path(_) => Ok(ContainerView { flow_enum: Some(FlowEnumRepr::Symbol), ..c }),
            Meta::List(k, _) => Err(AttrError::UnexpectedValue(k)),
        }
    } else if k == "type"@ {
        match str_value(m) {
            Ok(Some(s)) => Ok(ContainerView { type_override: Some(s), ..c }),
            Ok(None) => Ok(c),
            Err(e) => Err(e),
        }
    } else if k == "as"@ {
        match type_value(m) {
            Ok(Some(s)) => Ok(ContainerView { type_as: Some(s), ..c }),
            Ok(None) => Ok(c),
            Err(e) => Err(e),
        }
    } else if k == "concrete"@ {
        match m {
            Meta::List(key, items) => match concrete_items(c.concrete, key, items@, items@.len() as int) {
                Ok(p) => Ok(ContainerView { concrete: p, ..c }),
                Err(e) => Err(e),
            },
            _ => Err(AttrError::MalformedList(key_string(m))),
        }
    } else if k == "optional_fields"@ {
        match optional_from(m) {
            Ok(o) => Ok(ContainerView { optional_fields: o, ..c }),
            Err(e) => Err(e),
        }
    } else if k == "repr"@ {
        match m {
            Meta::List(_, items) => match repr_from(items@) {
                Ok(r) => Ok(ContainerView { flow_enum: Some(r), ..c }),
                Err(e) => Err(e),
            },
            _ => Err(AttrError::MalformedList(key_string(m))),
        }
    } else if k == "bound"@ {
        match bound_value(m) {
            Ok(Some(s)) => Ok(
                ContainerView {
                    bound: Some(
                        match c.bound {
                            Some(b) => b.push(s),
                            None => seq![s],
                        },
                    ),
                    ..c
                },
            ),
            Ok(None) => Ok(c),
            Err(e) => Err(e),
        }
    } else {
        Err(AttrError::UnknownContainerAttr(key_string(m)))
    }
}

/// The effect of one `#[serde(...)]` item on a container's attributes: the
/// keys that `#[flow(...)]` has not set already.
pub open spec fn container_serde_step(c: ContainerView, m: Meta) -> Result<ContainerView, AttrError> {
    let k = meta_key(m);
    if k == "rename"@ {
        match str_value(m) {
            Ok(Some(s)) => if c.rename is None {
                Ok(ContainerView { rename: Some(s), ..c })
            } else {
                Ok(c)
            },
            Ok(None) => Ok(c),
            Err(e) => Err(e),
        }
    } else if k == "rename_all"@ {
        match str_value(m) {
            Ok(Some(s)) => if c.rename_all is None {
                match rename_all_from(s) {
                    Ok(i) => Ok(ContainerView { rename_all: Some(i), ..c }),
                    Err(e) => Err(e),
                }
            } else {
                Ok(c)
            },
            Ok(None) => Ok(c),
            Err(e) => Err(e),
        }
    } else if k == "rename_all_fields"@ {
        match str_value(m) {
            Ok(Some(s)) => if c.rename_all_fields is None {
                match rename_all_from(s) {
                    Ok(i) => Ok(ContainerView { rename_all_fields: Some(i), ..c }),
                    Err(e) => Err(e),
                }
            } else {
                Ok(c)
            },
            Ok(None) => Ok(c),
            Err(e) => Err(e),
        }
    } else if k == "tag"@ {
        match str_value(m) {
            Ok(Some(s)) => if c.tag is None {
                Ok(ContainerView { tag: Some(s), ..c })
            } else {
                Ok(c)
            },
            Ok(None) => Ok(c),
            Err(e) => Err(e),
        }
    } else if k == "content"@ {
        match str_value(m) {
            Ok(Some(s)) => if c.content is None {
                Ok(ContainerView { content: Some(s), ..c })
            } else {
                Ok(c)
            },
            Ok(None) => Ok(c),
            Err(e) => Err(e),
        }
    } else if k == "untagged"@ {
        match flag(m) {
            Ok(_) => Ok(ContainerView { untagged: true, ..c }),
            Err(e) => Err(e),
        }
    } else {
        match skipped(m) {
            Ok(_) => Ok(c),
            Err(e) => Err(e),
        }
    }
}

fn without_param_exec(pairs: Vec<(String, String)>, name: &str) -> (r: Vec<(String, String)>)
    ensures
        r@ == without_param(pairs@, name@, pairs@.len() as int),
{
    let mut out: Vec<(String, String)> = Vec::new();
    let n = pairs.len();
    let mut i: usize = 0;
    while i < n
        invariant
            n == pairs@.len(),
            i <= n,
            out@ == without_param(pairs@, name@, i as int),
        decreases n - i,
    {
        if !crate::strings::str_equal(pairs[i].0.as_str(), name) {
            let p = (pairs[i].0.clone(), pairs[i].1.clone());
            out.push(p);
        }
        i = i + 1;
    }
    out
}

fn concrete_items_exec(pairs: Vec<(String, String)>, key: &String, items: &Vec<ListItem>) -> (r: Result<Vec<(String, String)>, AttrError>)
    ensures
        match r {
            Ok(p) => concrete_items(pairs@, *key, items@, items@.len() as int) == Ok::<Seq<(String, String)>, AttrError>(p@),
            Err(e) => concrete_items(pairs@, *key, items@, items@.len() as int) == Err::<Seq<(String, String)>, AttrError>(e),
        },
{
    let ghost init = pairs@;
    let mut cur = pairs;
    let n = items.len();
    let mut i: usize = 0;
    while i < n
        invariant
            n == items@.len(),
            i <= n,
            init == pairs@,
            concrete_items(init, *key, items@, i as int) == Ok::<Seq<(String, String)>, AttrError>(cur@),
        decreases n - i,
    {
        match &items[i].value {
            Some(t) => {
                let name = items[i].name.clone();
                let mut next = without_param_exec(cur, name.as_str());
                next.push((name, t.clone()));
                cur = next;
            },
            None => {
                proof {
                    lemma_concrete_err(init, *key, items@, i + 1, n as int);
                }
                return Err(AttrError::MalformedList(key.clone()));
            },
        }
        i = i + 1;
    }
    Ok(cur)
}

proof fn lemma_concrete_err(pairs: Seq<(String, String)>, key: String, items: Seq<ListItem>, k: int, n: int)
    requires
        0 <= k <= n <= items.len(),
        concrete_items(pairs, key, items, k) is Err,
    ensures
        concrete_items(pairs, key, items, n) == concrete_items(pairs, key, items, k),
    decreases n - k,
{
    if n > k {
        lemma_concrete_err(pairs, key, items, k, n - 1);
    }
}

fn repr_exec(items: &Vec<ListItem>) -> (r: Result<FlowEnumRepr, AttrError>)
    ensures
        r == repr_from(items@),
{
    if items.len() == 0 || !crate::strings::str_equal(items[0].name.as_str(), "enum") {
        return Err(AttrError::ExpectedEnum);
    }
    match &items[0].value {
        None => Ok(FlowEnumRepr::Number),
        Some(v) => {
            if crate::strings::str_equal(v.as_str(), "name") {
                Ok(FlowEnumRepr::String)
            } else {
                Err(AttrError::ExpectedName)
            }
        },
    }
}

fn flow_enum_exec(s: &String) -> (r: Result<FlowEnumRepr, AttrError>)
    ensures
        r == flow_enum_named(*s),
{
    if crate::strings::str_equal(s.as_str(), "string") {
        Ok(FlowEnumRepr::String)
    } else if crate::strings::str_equal(s.as_str(), "symbol") {
        Ok(FlowEnumRepr::Symbol)
    } else if crate::strings::str_equal(s.as_str(), "number") {
        Ok(FlowEnumRepr::Number)
    } else if crate::strings::str_equal(s.as_str(), "boolean") {
        Ok(FlowEnumRepr::Boolean)
    } else {
        Err(AttrError::UnknownFlowEnum(s.clone()))
    }
}

impl ContainerAttr {
    fn flow_step(&mut self, m: &Meta) -> (r: Result<(), AttrError>)
        ensures
            match r {
                Ok(_) => container_flow_step(old(self)@, *m) == Ok::<ContainerView, AttrError>(final(self)@),
                Err(e) => container_flow_step(old(self)@, *m) == Err::<ContainerView, AttrError>(e),
            },
    {
        if key_is(m, "rename") {
            if let Some(s) = str_value_exec(m)? {
                self.rename = Some(s);
            }
        } else if key_is(m, "rename_all") {
            if let Some(s) = str_value_exec(m)? {
                self.rename_all = Some(rename_all_exec(&s)?);
            }
        } else if key_is(m, "rename_all_fields") {
            if let Some(s) = str_value_exec(m)? {
                self.rename_all_fields = Some(rename_all_exec(&s)?);
            }
        } else if key_is(m, "export") {
            flag_exec(m)?;
            self.export = true;
        } else if key_is(m, "export_to") {
            if let Some(s) = str_value_exec(m)? {
                self.export_to = Some(s);
            }
        } else if key_is(m, "tag") {
            if let Some(s) = str_value_exec(m)? {
                self.tag = Some(s);
            }
        } else if key_is(m, "content") {
            if let Some(s) = str_value_exec(m)? {
                self.content = Some(s);
            }
        } else if key_is(m, "untagged") {
            flag_exec(m)?;
            self.untagged = true;
        } else if key_is(m, "crate") {
            if let Some(s) = path_value_exec(m)? {
                self.crate_rename = Some(s);
            }
        } else if key_is(m, "opaque") {
            match m {
                Meta::NameValue(_, Lit::Str(s)) => {
                    self.opaque = Some(Some(s.clone()));
                },
                Meta::NameValue(_, Lit::Expr) => {
                    return Err(AttrError::ExpectedLiteral);
                },
                Meta::NameValue(_, _) => {},
                Meta::Path(_) => {
                    self.opaque = Some(None);
                },
                Meta::List(k, _) => {
                    return Err(AttrError::UnexpectedValue(k.clone()));
                },
            }
        } else if key_is(m, "flow_enum") {
            match m {
                Meta::NameValue(_, Lit::Str(s)) => {
                    self.flow_enum = Some(flow_enum_exec(s)?);
                },
                Meta::NameValue(_, Lit::Expr) => {
                    return Err(AttrError::ExpectedLiteral);
                },
                Meta::NameValue(_, _) => {},
                Meta::Path(_) => {
                    self.flow_enum = Some(FlowEnumRepr::Symbol);
                },
                Meta::List(k, _) => {
                    return Err(AttrError::UnexpectedValue(k.clone()));
                },
            }
        } else if key_is(m, "type") {
            if let Some(s) = str_value_exec(m)? {
                self.type_override = Some(s);
            }
        } else if key_is(m, "as") {
            if let Some(s) = type_value_exec(m)? {
                self.type_as = Some(s);
            }
        } else if key_is(m, "concrete") {
            match m {
                Meta::List(key, items) => {
                    let mut old: Vec<(String, String)> = Vec::new();
                    std::mem::swap(&mut old, &mut self.concrete);
                    match concrete_items_exec(old, key, items) {
                        Ok(p) => {
                            self.concrete = p;
                        },
                        Err(e) => {
                            return Err(e);
                        },
                    }
                },
                _ => {
                    return Err(AttrError::MalformedList(key_of(m).clone()));
                },
            }
        } else if key_is(m, "optional_fields") {
            self.optional_fields = Optional::parse_from_meta(m)?;
        } else if key_is(m, "repr") {
            match m {
                Meta::List(_, items) => {
                    self.flow_enum = Some(repr_exec(items)?);
                },
                _ => {
                    return Err(AttrError::MalformedList(key_of(m).clone()));
                },
            }
        } else if key_is(m, "bound") {
            if let Some(s) = bound_value_exec(m)? {
                let taken = self.bound.take();
                match taken {
                    Some(mut b) => {
                        b.push(s);
                        self.bound = Some(b);
                    },
                    None => {
                        let mut b: Vec<String> = Vec::new();
                        b.push(s);
                        proof {
                            assert(b@ =~= seq![s]);
                        }
                        self.bound = Some(b);
                    },
                }
            }
        } else {
            return Err(AttrError::UnknownContainerAttr(key_of(m).clone()));
        }
        Ok(())
    }

    fn serde_step(&mut self, m: &Meta) -> (r: Result<(), AttrError>)
        ensures
            match r {
                Ok(_) => container_serde_step(old(self)@, *m) == Ok::<ContainerView, AttrError>(final(self)@),
                Err(e) => container_serde_step(old(self)@, *m) == Err::<ContainerView, AttrError>(e),
            },
    {
        if key_is(m, "rename") {
            if let Some(s) = str_value_exec(m)? {
                if self.rename.is_none() {
                    self.rename = Some(s);
                }
            }
        } else if key_is(m, "rename_all") {
            if let Some(s) = str_value_exec(m)? {
                if self.rename_all.is_none() {
                    self.rename_all = Some(rename_all_exec(&s)?);
                }
            }
        } else if key_is(m, "rename_all_fields") {
            if let Some(s) = str_value_exec(m)? {
                if self.rename_all_fields.is_none() {
                    self.rename_all_fields = Some(rename_all_exec(&s)?);
                }
            }
        } else if key_is(m, "tag") {
            if let Some(s) = str_value_exec(m)? {
                if self.tag.is_none() {
                    self.tag = Some(s);
                }
            }
        } else if key_is(m, "content") {
            if let Some(s) = str_value_exec(m)? {
                if self.content.is_none() {
                    self.content = Some(s);
                }
            }
        } else if key_is(m, "untagged") {
            flag_exec(m)?;
            self.untagged = true;
        } else {
            skipped_exec(m)?;
        }
        Ok(())
    }
}

impl AttrState for ContainerAttr {
    open spec fn step_spec(v: ContainerView, m: Meta, flow: bool) -> Result<ContainerView, AttrError> {
        if flow {
            container_flow_step(v, m)
        } else {
            container_serde_step(v, m)
        }
    }

    fn step(&mut self, m: &Meta, flow: bool) -> (r: Result<(), AttrError>) {
        if flow {
            self.flow_step(m)
        } else {
            self.serde_step(m)
        }
    }
}

/// The attributes of a container that carries none.
pub open spec fn container_attr_default() -> ContainerView {
    ContainerView {
        rename: None,
        rename_all: None,
        rename_all_fields: None,
        export: false,
        export_to: None,
        tag: None,
        content: None,
        untagged: false,
        crate_rename: None,
        bound: None,
        opaque: None,
        flow_enum: None,
        type_override: None,
        type_as: None,
        concrete: Seq::empty(),
        optional_fields: Optional::Inherit,
    }
}

impl ContainerAttr {
    /// Read a container's `#[flow(...)]` and `#[serde(...)]` attributes.
    ///
    /// A `rename_all` or `rename_all_fields` value that names no inflection
    /// is a defect of the annotated type, on which the derive stops (it
    /// panics with "invalid rename_all value"): such attributes are outside
    /// this function's domain. `try_from_attrs` reads them too, and reports
    /// that value as `AttrError::InvalidRenameAll`.
    pub fn from_attrs(attrs: &Vec<Attribute>) -> (r: Result<ContainerAttr, AttrError>)
        requires
            !(fold_attrs::<ContainerAttr>(container_attr_default(), attrs@, attrs@.len() as int) matches Err(AttrError::InvalidRenameAll(_))),
        ensures
            match r {
                Ok(c) => fold_attrs::<ContainerAttr>(container_attr_default(), attrs@, attrs@.len() as int) == Ok::<ContainerView, AttrError>(c@),
                Err(e) => fold_attrs::<ContainerAttr>(container_attr_default(), attrs@, attrs@.len() as int) == Err::<ContainerView, AttrError>(e),
            },
    {
        ContainerAttr::try_from_attrs(attrs)
    }

    /// Read a container's attributes, reporting an unknown `rename_all` or
    /// `rename_all_fields` value as an error where the derive stops.
    pub fn try_from_attrs(attrs: &Vec<Attribute>) -> (r: Result<ContainerAttr, AttrError>)
        ensures
            match r {
                Ok(c) => fold_attrs::<ContainerAttr>(container_attr_default(), attrs@, attrs@.len() as int) == Ok::<ContainerView, AttrError>(c@),
                Err(e) => fold_attrs::<ContainerAttr>(container_attr_default(), attrs@, attrs@.len() as int) == Err::<ContainerView, AttrError>(e),
            },
    {
        let c = ContainerAttr::empty();
        proof {
            assert(c.concrete@ =~= Seq::<(String, String)>::empty());
            assert(c@ == container_attr_default());
        }
        read_attrs(c, attrs)
    }
}

} // verus!
