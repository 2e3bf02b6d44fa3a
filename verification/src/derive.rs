//! Deriving: reading the attributes of a struct or enum and its fields and
//! variants, checking what the derive rejects, and assembling the
//! [`TypeDef`] that the declaration is rendered from.

use vstd::prelude::*;
use crate::attr::{
    ContainerAttr, ContainerView, FieldAttr, FlowEnumRepr, VariantAttr, container_attr_default,
    field_attr_default, variant_attr_default,
};
use crate::meta::{Attribute, AttrError, attr_error_text, fold_attrs};
use crate::model::{
    Data, DeriveError, Discriminant, FieldDef, Fields, FlowType, GenericParam, TypeDef, VariantDef,
    derive_error_text, member_value,
};
use crate::project::ProjectConfig;

verus! {

/// A named field as written: its name, type, the type named by its `as`
/// attribute (if any), and its attributes.
pub struct FieldInput {
    pub ident: String,
    pub ty: FlowType,
    pub type_as: Option<FlowType>,
    pub attrs: Vec<Attribute>,
}

/// The fields of a struct or variant as written.
pub enum FieldsInput {
    Named(Vec<FieldInput>),
    Unnamed(Vec<FlowType>),
    Unit,
}

/// An enum variant as written.
pub struct VariantInput {
    pub ident: String,
    pub fields: FieldsInput,
    pub type_as: Option<FlowType>,
    pub discriminant: Option<Discriminant>,
    pub attrs: Vec<Attribute>,
}

/// The body of the derive input.
pub enum DataInput {
    Struct(FieldsInput),
    Enum(Vec<VariantInput>),
    Union,
}

/// A struct or enum as written, with `#[derive(Flow)]`.
pub struct DeriveInput {
    pub ident: String,
    pub generics: Vec<GenericParam>,
    /// The doc comment lines (`#[doc = ".."]` values).
    pub docs: Vec<String>,
    pub attrs: Vec<Attribute>,
    /// The type named by the container's `as` attribute, if any.
    pub type_as: Option<FlowType>,
    pub data: DataInput,
}

/// Why a derive fails.
pub enum DeriveFailure {
    /// An attribute cannot be read.
    Attr(AttrError),
    /// The type cannot be derived.
    Derive(DeriveError),
}

/// The message reported for a failed derive.
pub open spec fn failure_text(f: DeriveFailure) -> Seq<char> {
    match f {
        DeriveFailure::Attr(e) => attr_error_text(e),
        DeriveFailure::Derive(e) => derive_error_text(e),
    }
}

impl DeriveFailure {
    /// The failure's message.
    pub fn message(&self) -> (r: String)
        ensures
            r@ == failure_text(*self),
    {
        match self {
            DeriveFailure::Attr(e) => e.message(),
            DeriveFailure::Derive(e) => e.message(),
        }
    }
}

/// The attributes read from the first `n` named fields, in order.
pub open spec fn read_fields(fs: Seq<FieldInput>, n: int) -> Result<Seq<FieldAttr>, AttrError>
    decreases n,
{
    if n <= 0 || n > fs.len() {
        Ok(Seq::empty())
    } else {
        match read_fields(fs, n - 1) {
            Ok(p) => match fold_attrs::<FieldAttr>(field_attr_default(), fs[n - 1].attrs@, fs[n - 1].attrs@.len() as int) {
                Ok(a) => Ok(p.push(a)),
                Err(e) => Err(e),
            },
            Err(e) => Err(e),
        }
    }
}

/// The attributes of a variant's named fields, when the derive reads them:
/// not for a skipped variant nor one whose type is overridden.
pub open spec fn variant_field_attrs(v: VariantInput, a: VariantAttr) -> Result<Option<Seq<FieldAttr>>, AttrError> {
    if a.skip || a.type_override is Some || a.type_as is Some {
        Ok(None)
    } else {
        match v.fields {
            FieldsInput::Named(fs) => match read_fields(fs@, fs@.len() as int) {
                Ok(p) => Ok(Some(p)),
                Err(e) => Err(e),
            },
            _ => Ok(None),
        }
    }
}

/// What is read of the first `n` variants of an enum that is not a Flow enum.
pub open spec fn read_variants(vs: Seq<VariantInput>, n: int) -> Result<Seq<(VariantAttr, Option<Seq<FieldAttr>>)>, AttrError>
    decreases n,
{
    if n <= 0 || n > vs.len() {
        Ok(Seq::empty())
    } else {
        match read_variants(vs, n - 1) {
            Ok(p) => match fold_attrs::<VariantAttr>(variant_attr_default(), vs[n - 1].attrs@, vs[n - 1].attrs@.len() as int) {
                Ok(a) => match variant_field_attrs(vs[n - 1], a) {
                    Ok(f) => Ok(p.push((a, f))),
                    Err(e) => Err(e),
                },
                Err(e) => Err(e),
            },
            Err(e) => Err(e),
        }
    }
}

/// Whether a variant counts as present when a boolean Flow enum's members
/// are counted (a variant whose attributes cannot be read counts).
pub open spec fn counted(v: VariantInput) -> bool {
    !(fold_attrs::<VariantAttr>(variant_attr_default(), v.attrs@, v.attrs@.len() as int) matches Ok(a) && a.skip)
}

/// The number of counted variants among the first `n`.
pub open spec fn counted_variants(vs: Seq<VariantInput>, n: int) -> nat
    decreases n,
{
    if n <= 0 || n > vs.len() {
        0
    } else {
        counted_variants(vs, n - 1) + if counted(vs[n - 1]) {
            1nat
        } else {
            0nat
        }
    }
}

/// What is read of the first `n` variants of a Flow enum, with the next
/// implicit discriminant: attributes in order, and for a `number` enum the
/// discriminant of each member as it is reached.
pub open spec fn read_flow_variants(vs: Seq<VariantInput>, n: int, repr: FlowEnumRepr) -> Result<(Seq<VariantAttr>, int), DeriveFailure>
    decreases n,
{
    if n <= 0 || n > vs.len() {
        Ok((Seq::empty(), 0))
    } else {
        match read_flow_variants(vs, n - 1, repr) {
            Ok((p, next)) => match fold_attrs::<VariantAttr>(variant_attr_default(), vs[n - 1].attrs@, vs[n - 1].attrs@.len() as int) {
                Ok(a) => if a.skip || repr != FlowEnumRepr::Number {
                    Ok((p.push(a), next))
                } else {
                    match member_value(vs[n - 1].discriminant, next) {
                        Ok(val) => if val == i64::MAX {
                            Err(DeriveFailure::Derive(DeriveError::DiscriminantOverflow))
                        } else {
                            Ok((p.push(a), val + 1))
                        },
                        Err(e) => Err(DeriveFailure::Derive(e)),
                    }
                },
                Err(e) => Err(DeriveFailure::Attr(e)),
            },
            Err(f) => Err(f),
        }
    }
}

/// Whether every variant is written without fields.
pub open spec fn all_unit_input(vs: Seq<VariantInput>) -> bool {
    forall|i: int| 0 <= i < vs.len() ==> #[trigger] vs[i].fields is Unit
}

/// What the derive reads, once the container's attributes are read.
pub struct DeriveReading {
    /// The attributes of the named fields of a struct, when read.
    pub fields: Option<Seq<FieldAttr>>,
    /// The attributes of each variant and of its named fields, when read.
    pub variants: Seq<(VariantAttr, Option<Seq<FieldAttr>>)>,
}

/// What the derive reads of a type, or why it fails, in the order the
/// derive meets them.
pub open spec fn derive_reading(input: DeriveInput, c: ContainerView) -> Result<DeriveReading, DeriveFailure> {
    if c.type_override is Some || c.type_as is Some {
        Ok(DeriveReading { fields: None, variants: Seq::empty() })
    } else {
        match input.data {
            DataInput::Struct(FieldsInput::Named(fs)) => match read_fields(fs@, fs@.len() as int) {
                Ok(p) => Ok(DeriveReading { fields: Some(p), variants: Seq::empty() }),
                Err(e) => Err(DeriveFailure::Attr(e)),
            },
            DataInput::Struct(_) => Ok(DeriveReading { fields: None, variants: Seq::empty() }),
            DataInput::Union => Err(DeriveFailure::Derive(DeriveError::Union)),
            DataInput::Enum(vs) => match c.flow_enum {
                Some(repr) => if input.generics@.len() > 0 {
                    Err(DeriveFailure::Derive(DeriveError::FlowEnumGenerics))
                } else if c.tag is Some {
                    Err(DeriveFailure::Derive(DeriveError::FlowEnumTag))
                } else if c.content is Some {
                    Err(DeriveFailure::Derive(DeriveError::FlowEnumContent))
                } else if c.untagged {
                    Err(DeriveFailure::Derive(DeriveError::FlowEnumUntagged))
                } else if c.opaque is Some {
                    Err(DeriveFailure::Derive(DeriveError::FlowEnumOpaque))
                } else if !all_unit_input(vs@) {
                    Err(DeriveFailure::Derive(DeriveError::FlowEnumFields))
                } else if repr == FlowEnumRepr::Boolean && counted_variants(vs@, vs@.len() as int) != 2 {
                    Err(DeriveFailure::Derive(DeriveError::FlowEnumBooleanCount))
                } else {
                    match read_flow_variants(vs@, vs@.len() as int, repr) {
                        Ok((attrs, _)) => Ok(
                            DeriveReading {
                                fields: None,
                                variants: attrs.map_values(|a: VariantAttr| (a, None::<Seq<FieldAttr>>)),
                            },
                        ),
                        Err(f) => Err(f),
                    }
                },
                None => match read_variants(vs@, vs@.len() as int) {
                    Ok(p) => Ok(DeriveReading { fields: None, variants: p }),
                    Err(e) => Err(DeriveFailure::Attr(e)),
                },
            },
        }
    }
}

/// The outcome of the derive: the container's attributes and what is read
/// after them, or the first failure.
pub open spec fn derive_outcome(input: DeriveInput) -> Result<(ContainerView, DeriveReading), DeriveFailure> {
    match fold_attrs::<ContainerAttr>(container_attr_default(), input.attrs@, input.attrs@.len() as int) {
        Ok(c) => match derive_reading(input, c) {
            Ok(r) => Ok((c, r)),
            Err(f) => Err(f),
        },
        Err(e) => Err(DeriveFailure::Attr(e)),
    }
}

/// A field definition holds the named field as written, with the attributes
/// given.
pub open spec fn field_built(fi: FieldInput, fd: FieldDef, attr: FieldAttr) -> bool {
    &&& fd.ident == fi.ident
    &&& fd.ty == fi.ty
    &&& fd.type_as == fi.type_as
    &&& fd.attr == attr
}

/// The attributes of the named field at `i`: those read, or none.
pub open spec fn field_attr_at(attrs: Option<Seq<FieldAttr>>, i: int) -> FieldAttr {
    match attrs {
        Some(a) => a[i],
        None => field_attr_default(),
    }
}

/// The named fields `fd` are those written, `fi`, with the attributes read
/// (or none, when they are not read).
pub open spec fn fields_assembled(fi: Seq<FieldInput>, fd: Seq<FieldDef>, attrs: Option<Seq<FieldAttr>>) -> bool {
    &&& fd.len() == fi.len()
    &&& forall|i: int| 0 <= i < fd.len() ==> field_built(fi[i], #[trigger] fd[i], field_attr_at(attrs, i))
}

/// The fields of a struct or variant are those written, with the named
/// fields' attributes read (or none).
pub open spec fn fields_of(fi: FieldsInput, fd: Fields, attrs: Option<Seq<FieldAttr>>) -> bool {
    match (fi, fd) {
        (FieldsInput::Named(a), Fields::Named(b)) => fields_assembled(a@, b@, attrs),
        (FieldsInput::Unnamed(a), Fields::Unnamed(b)) => a == b,
        (FieldsInput::Unit, Fields::Unit) => true,
        _ => false,
    }
}

/// A variant definition holds the variant as written, with the attributes
/// given and its named fields' attributes (or none).
pub open spec fn variant_built(vi: VariantInput, vd: VariantDef, attr: VariantAttr, fields: Option<Seq<FieldAttr>>) -> bool {
    &&& vd.ident == vi.ident
    &&& vd.type_as == vi.type_as
    &&& vd.discriminant == vi.discriminant
    &&& vd.attr == attr
    &&& fields_of(vi.fields, vd.fields, fields)
}

/// What was read of the variant at `i`: its attributes and those of its
/// named fields, or nothing (when nothing is read).
pub open spec fn variant_reading_at(r: DeriveReading, i: int) -> (VariantAttr, Option<Seq<FieldAttr>>) {
    if 0 <= i < r.variants.len() {
        r.variants[i]
    } else {
        (variant_attr_default(), None)
    }
}

/// The variants `vd` are those written, `vi`, with what was read of them.
pub open spec fn variants_assembled(vi: Seq<VariantInput>, vd: Seq<VariantDef>, r: DeriveReading) -> bool {
    &&& vd.len() == vi.len()
    &&& forall|i: int|
        0 <= i < vd.len() ==> variant_built(vi[i], #[trigger] vd[i], variant_reading_at(r, i).0, variant_reading_at(r, i).1)
}

/// The type definition holds what was written and what was read.
pub open spec fn assembled(input: DeriveInput, project: ProjectConfig, c: ContainerView, r: DeriveReading, d: TypeDef) -> bool {
    &&& d.ident == input.ident
    &&& d.generics == input.generics
    &&& d.docs == input.docs
    &&& d.type_as == input.type_as
    &&& d.opaque_newtypes == project.opaque_newtypes
    &&& d.attr@ == c
    &&& match (input.data, d.data) {
        (DataInput::Struct(fi), Data::Struct(fd)) => fields_of(fi, fd, r.fields),
        (DataInput::Enum(vi), Data::Enum(vd)) => variants_assembled(vi@, vd@, r),
        (DataInput::Union, Data::Union) => true,
        _ => false,
    }
}

fn unread_fields(fi: FieldsInput) -> (r: Fields)
    ensures
        fields_of(fi, r, None),
{
    match fi {
        FieldsInput::Named(fs) => {
            let ghost orig = fs@;
            let n = fs.len();
            let mut rest = fs;
            let mut out: Vec<FieldDef> = Vec::new();
            let mut i: usize = 0;
            while i < n
                invariant
                    n == orig.len(),
                    i <= n,
                    rest@ == orig.subrange(i as int, n as int),
                    out@.len() == i,
                    forall|k: int| 0 <= k < i ==> field_built(orig[k], #[trigger] out@[k], field_attr_default()),
                decreases n - i,
            {
                let f = rest.remove(0);
                proof {
                    assert(f == orig[i as int]);
                }
                let attr = FieldAttr::empty();
                let fd = FieldDef { ident: f.ident, ty: f.ty, type_as: f.type_as, attr };
                let ghost old_out = out@;
                out.push(fd);
                proof {
                    assert(attr == field_attr_default());
                    assert(rest@ =~= orig.subrange(i + 1, n as int));
                    assert forall|k: int| 0 <= k < i + 1 implies field_built(orig[k], #[trigger] out@[k], field_attr_default()) by {
                        if k < i {
                            assert(out@[k] == old_out[k]);
                        }
                    }
                }
                i = i + 1;
            }
            proof {
                assert forall|k: int| 0 <= k < out@.len() implies field_built(orig[k], #[trigger] out@[k], field_attr_at(None, k)) by {}
            }
            Fields::Named(out)
        },
        FieldsInput::Unnamed(ts) => Fields::Unnamed(ts),
        FieldsInput::Unit => Fields::Unit,
    }
}

fn read_named_fields(fs: Vec<FieldInput>) -> (r: Result<Vec<FieldDef>, AttrError>)
    ensures
        match r {
            Ok(v) => read_fields(fs@, fs@.len() as int) matches Ok(p) && fields_assembled(fs@, v@, Some(p)),
            Err(e) => read_fields(fs@, fs@.len() as int) == Err::<Seq<FieldAttr>, AttrError>(e),
        },
{
    let ghost orig = fs@;
    let n = fs.len();
    let mut rest = fs;
    let mut out: Vec<FieldDef> = Vec::new();
    let ghost mut p: Seq<FieldAttr> = Seq::empty();
    let mut i: usize = 0;
    while i < n
        invariant
            n == orig.len(),
            orig == fs@,
            i <= n,
            rest@ == orig.subrange(i as int, n as int),
            read_fields(orig, i as int) == Ok::<Seq<FieldAttr>, AttrError>(p),
            p.len() == i,
            out@.len() == i,
            forall|k: int| 0 <= k < i ==> field_built(orig[k], #[trigger] out@[k], p[k]),
        decreases n - i,
    {
        let f = rest.remove(0);
        proof {
            assert(f == orig[i as int]);
        }
        let attr = match FieldAttr::from_attrs(&f.attrs) {
            Ok(a) => a,
            Err(e) => {
                proof {
                    assert(read_fields(orig, i + 1) == Err::<Seq<FieldAttr>, AttrError>(e));
                    lemma_read_fields_err(orig, i + 1, n as int);
                }
                return Err(e);
            },
        };
        let fd = FieldDef { ident: f.ident, ty: f.ty, type_as: f.type_as, attr };
        let ghost old_out = out@;
        let ghost old_p = p;
        out.push(fd);
        proof {
            p = p.push(attr);
            assert(rest@ =~= orig.subrange(i + 1, n as int));
            assert forall|k: int| 0 <= k < i + 1 implies field_built(orig[k], #[trigger] out@[k], p[k]) by {
                if k < i {
                    assert(out@[k] == old_out[k]);
                    assert(p[k] == old_p[k]);
                }
            }
        }
        i = i + 1;
    }
    proof {
        assert forall|k: int| 0 <= k < out@.len() implies field_built(orig[k], #[trigger] out@[k], field_attr_at(Some(p), k)) by {}
    }
    Ok(out)
}

proof fn lemma_read_fields_err(fs: Seq<FieldInput>, k: int, n: int)
    requires
        0 <= k <= n <= fs.len(),
        read_fields(fs, k) is Err,
    ensures
        read_fields(fs, n) == read_fields(fs, k),
    decreases n - k,
{
    if n > k {
        lemma_read_fields_err(fs, k, n - 1);
    }
}

proof fn lemma_read_variants_err(vs: Seq<VariantInput>, k: int, n: int)
    requires
        0 <= k <= n <= vs.len(),
        read_variants(vs, k) is Err,
    ensures
        read_variants(vs, n) == read_variants(vs, k),
    decreases n - k,
{
    if n > k {
        lemma_read_variants_err(vs, k, n - 1);
    }
}

proof fn lemma_read_flow_err(vs: Seq<VariantInput>, k: int, n: int, repr: FlowEnumRepr)
    requires
        0 <= k <= n <= vs.len(),
        read_flow_variants(vs, k, repr) is Err,
    ensures
        read_flow_variants(vs, n, repr) == read_flow_variants(vs, k, repr),
    decreases n - k,
{
    if n > k {
        lemma_read_flow_err(vs, k, n - 1, repr);
    }
}

/// The variants of an enum that is not a Flow enum, with what is read of them.
fn read_enum_variants(vs: Vec<VariantInput>) -> (r: Result<Vec<VariantDef>, AttrError>)
    ensures
        match r {
            Ok(v) => read_variants(vs@, vs@.len() as int) matches Ok(p) && v@.len() == vs@.len() && p.len() == vs@.len()
                && forall|i: int| 0 <= i < v@.len() ==> variant_built(vs@[i], #[trigger] v@[i], p[i].0, p[i].1),
            Err(e) => read_variants(vs@, vs@.len() as int) == Err::<Seq<(VariantAttr, Option<Seq<FieldAttr>>)>, AttrError>(e),
        },
{
    let ghost orig = vs@;
    let n = vs.len();
    let mut rest = vs;
    let mut out: Vec<VariantDef> = Vec::new();
    let ghost mut p: Seq<(VariantAttr, Option<Seq<FieldAttr>>)> = Seq::empty();
    let mut i: usize = 0;
    while i < n
        invariant
            n == orig.len(),
            orig == vs@,
            i <= n,
            rest@ == orig.subrange(i as int, n as int),
            read_variants(orig, i as int) == Ok::<Seq<(VariantAttr, Option<Seq<FieldAttr>>)>, AttrError>(p),
            p.len() == i,
            out@.len() == i,
            forall|k: int| 0 <= k < i ==> variant_built(orig[k], #[trigger] out@[k], p[k].0, p[k].1),
        decreases n - i,
    {
        let v = rest.remove(0);
        proof {
            assert(v == orig[i as int]);
        }
        let attr = match VariantAttr::try_from_attrs(&v.attrs) {
            Ok(a) => a,
            Err(e) => {
                proof {
                    lemma_read_variants_err(orig, i + 1, n as int);
                }
                return Err(e);
            },
        };
        let ghost read: Option<Seq<FieldAttr>>;
        let fields = if attr.skip || attr.type_override.is_some() || attr.type_as.is_some() {
            proof {
                read = None;
            }
            unread_fields(v.fields)
        } else {
            match v.fields {
                FieldsInput::Named(fs) => {
                    let ghost fsv = fs@;
                    match read_named_fields(fs) {
                        Ok(fd) => {
                            proof {
                                read = Some(read_fields(fsv, fsv.len() as int)->Ok_0);
                            }
                            Fields::Named(fd)
                        },
                        Err(e) => {
                            proof {
                                lemma_read_variants_err(orig, i + 1, n as int);
                            }
                            return Err(e);
                        },
                    }
                },
                other => {
                    proof {
                        read = None;
                    }
                    unread_fields(other)
                },
            }
        };
        proof {
            assert(variant_field_attrs(orig[i as int], attr) == Ok::<Option<Seq<FieldAttr>>, AttrError>(read));
        }
        let vd = VariantDef { ident: v.ident, fields, type_as: v.type_as, discriminant: v.discriminant, attr };
        let ghost old_out = out@;
        let ghost old_p = p;
        out.push(vd);
        proof {
            p = p.push((attr, read));
            assert(rest@ =~= orig.subrange(i + 1, n as int));
            assert forall|k: int| 0 <= k < i + 1 implies variant_built(orig[k], #[trigger] out@[k], p[k].0, p[k].1) by {
                if k < i {
                    assert(out@[k] == old_out[k]);
                    assert(p[k] == old_p[k]);
                }
            }
        }
        i = i + 1;
    }
    Ok(out)
}

/// The variants of a Flow enum, with their attributes read and their
/// discriminants checked in order.
fn read_flow_enum_variants(vs: Vec<VariantInput>, repr: FlowEnumRepr) -> (r: Result<Vec<VariantDef>, DeriveFailure>)
    ensures
        match r {
            Ok(v) => read_flow_variants(vs@, vs@.len() as int, repr) matches Ok((p, _)) && v@.len() == vs@.len() && p.len() == vs@.len()
                && forall|i: int| 0 <= i < v@.len() ==> variant_built(vs@[i], #[trigger] v@[i], p[i], None),
            Err(f) => read_flow_variants(vs@, vs@.len() as int, repr) == Err::<(Seq<VariantAttr>, int), DeriveFailure>(f),
        },
{
    let ghost orig = vs@;
    let n = vs.len();
    let mut rest = vs;
    let mut out: Vec<VariantDef> = Vec::new();
    let ghost mut p: Seq<VariantAttr> = Seq::empty();
    let mut next: i64 = 0;
    let mut i: usize = 0;
    while i < n
        invariant
            n == orig.len(),
            orig == vs@,
            i <= n,
            rest@ == orig.subrange(i as int, n as int),
            read_flow_variants(orig, i as int, repr) == Ok::<(Seq<VariantAttr>, int), DeriveFailure>((p, next as int)),
            p.len() == i,
            out@.len() == i,
            forall|k: int| 0 <= k < i ==> variant_built(orig[k], #[trigger] out@[k], p[k], None),
        decreases n - i,
    {
        let v = rest.remove(0);
        proof {
            assert(v == orig[i as int]);
        }
        let attr = match VariantAttr::try_from_attrs(&v.attrs) {
            Ok(a) => a,
            Err(e) => {
                proof {
                    lemma_read_flow_err(orig, i + 1, n as int, repr);
                }
                return Err(DeriveFailure::Attr(e));
            },
        };
        if !attr.skip && repr == FlowEnumRepr::Number {
            let val: i64 = match &v.discriminant {
                None => next,
                Some(Discriminant::Int { negative, magnitude }) => {
                    if *magnitude > 9223372036854775807u128 {
                        proof {
                            lemma_read_flow_err(orig, i + 1, n as int, repr);
                        }
                        return Err(DeriveFailure::Derive(DeriveError::InvalidDiscriminant));
                    }
                    let mag = *magnitude as i64;
                    if *negative { -mag } else { mag }
                },
                Some(Discriminant::Other) => {
                    proof {
                        lemma_read_flow_err(orig, i + 1, n as int, repr);
                    }
                    return Err(DeriveFailure::Derive(DeriveError::NonLiteralDiscriminant));
                },
            };
            if val == i64::MAX {
                proof {
                    lemma_read_flow_err(orig, i + 1, n as int, repr);
                }
                return Err(DeriveFailure::Derive(DeriveError::DiscriminantOverflow));
            }
            next = val + 1;
        }
        let fields = unread_fields(v.fields);
        let vd = VariantDef { ident: v.ident, fields, type_as: v.type_as, discriminant: v.discriminant, attr };
        let ghost old_out = out@;
        let ghost old_p = p;
        out.push(vd);
        proof {
            p = p.push(attr);
            assert(rest@ =~= orig.subrange(i + 1, n as int));
            assert forall|k: int| 0 <= k < i + 1 implies variant_built(orig[k], #[trigger] out@[k], p[k], None) by {
                if k < i {
                    assert(out@[k] == old_out[k]);
                    assert(p[k] == old_p[k]);
                }
            }
        }
        i = i + 1;
    }
    Ok(out)
}

/// The variants of an enum whose type is overridden: as written, with no
/// attributes read.
fn unread_variants(vs: Vec<VariantInput>) -> (r: Vec<VariantDef>)
    ensures
        r@.len() == vs@.len(),
        forall|k: int| 0 <= k < r@.len() ==> variant_built(vs@[k], #[trigger] r@[k], variant_attr_default(), None),
{
    let ghost orig = vs@;
    let n = vs.len();
    let mut rest = vs;
    let mut out: Vec<VariantDef> = Vec::new();
    let mut i: usize = 0;
    while i < n
        invariant
            n == orig.len(),
            i <= n,
            rest@ == orig.subrange(i as int, n as int),
            out@.len() == i,
            forall|k: int| 0 <= k < i ==> variant_built(orig[k], #[trigger] out@[k], variant_attr_default(), None),
        decreases n - i,
    {
        let v = rest.remove(0);
        proof {
            assert(v == orig[i as int]);
        }
        let attr = VariantAttr::empty();
        let fields = unread_fields(v.fields);
        let vd = VariantDef { ident: v.ident, fields, type_as: v.type_as, discriminant: v.discriminant, attr };
        let ghost old_out = out@;
        out.push(vd);
        proof {
            assert(attr == variant_attr_default());
            assert(rest@ =~= orig.subrange(i + 1, n as int));
            assert forall|k: int| 0 <= k < i + 1 implies variant_built(orig[k], #[trigger] out@[k], variant_attr_default(), None) by {
                if k < i {
                    assert(out@[k] == old_out[k]);
                }
            }
        }
        i = i + 1;
    }
    out
}

/// Whether every variant of a Flow enum is a unit variant, and if so how
/// many variants are counted (not skipped).
fn flow_enum_shape(vs: &Vec<VariantInput>) -> (r: Option<usize>)
    ensures
        match r {
            Some(c) => all_unit_input(vs@) && c == counted_variants(vs@, vs@.len() as int),
            None => !all_unit_input(vs@),
        },
{
    let n = vs.len();
    let mut i: usize = 0;
    let mut counted: usize = 0;
    while i < n
        invariant
            n == vs@.len(),
            i <= n,
            counted <= i,
            all_unit_input(vs@.take(i as int)),
            counted == counted_variants(vs@, i as int),
        decreases n - i,
    {
        match vs[i].fields {
            FieldsInput::Unit => {},
            _ => {
                proof {
                    assert(!(vs@[i as int].fields is Unit));
                }
                return None;
            },
        }
        let skipped = match VariantAttr::try_from_attrs(&vs[i].attrs) {
            Ok(a) => a.skip,
            Err(_) => false,
        };
        if !skipped {
            counted = counted + 1;
        }
        proof {
            assert forall|j: int| 0 <= j < i + 1 implies #[trigger] vs@.take(i + 1)[j].fields is Unit by {
                if j < i {
                    assert(vs@.take(i + 1)[j] == vs@.take(i as int)[j]);
                }
            }
        }
        i = i + 1;
    }
    proof {
        assert(vs@.take(n as int) =~= vs@);
    }
    Some(counted)
}

/// Derive the Flow model of a struct or enum: read its attributes, and those
/// of its fields and variants that the derive reads, check what it rejects,
/// and assemble the type definition.
///
/// A `rename_all` (or `rename_all_fields`) value that names no inflection,
/// met while reading, stops the derive with a panic ("invalid rename_all
/// value") rather than an error: such input is outside this function's
/// domain. `try_derive_type` takes it too and reports it as
/// `AttrError::InvalidRenameAll`.
pub fn derive_type(input: DeriveInput, project: ProjectConfig) -> (r: Result<TypeDef, DeriveFailure>)
    requires
        !(derive_outcome(input) matches Err(DeriveFailure::Attr(AttrError::InvalidRenameAll(_)))),
    ensures
        match r {
            Ok(d) => derive_outcome(input) matches Ok((c, rd)) && assembled(input, project, c, rd, d),
            Err(f) => derive_outcome(input) == Err::<(ContainerView, DeriveReading), DeriveFailure>(f),
        },
{
    try_derive_type(input, project)
}

/// Derive the Flow model of a type, reporting an unknown `rename_all` value
/// as `AttrError::InvalidRenameAll` where the derive stops.
pub fn try_derive_type(input: DeriveInput, project: ProjectConfig) -> (r: Result<TypeDef, DeriveFailure>)
    ensures
        match r {
            Ok(d) => derive_outcome(input) matches Ok((c, rd)) && assembled(input, project, c, rd, d),
            Err(f) => derive_outcome(input) == Err::<(ContainerView, DeriveReading), DeriveFailure>(f),
        },
{
    let ghost whole = input;
    let c = match ContainerAttr::try_from_attrs(&input.attrs) {
        Ok(c) => c,
        Err(e) => {
            return Err(DeriveFailure::Attr(e));
        },
    };
    let ghost cv = c@;
    let DeriveInput { ident, generics, docs, attrs: _, type_as, data } = input;
    if c.type_override.is_some() || c.type_as.is_some() {
        let data = match data {
            DataInput::Struct(fi) => Data::Struct(unread_fields(fi)),
            DataInput::Enum(vs) => Data::Enum(unread_variants(vs)),
            DataInput::Union => Data::Union,
        };
        let d = TypeDef { ident, generics, docs, attr: c, type_as, data, opaque_newtypes: project.opaque_newtypes };
        proof {
            let rd = DeriveReading { fields: None, variants: Seq::empty() };
            assert(derive_reading(whole, cv) == Ok::<DeriveReading, DeriveFailure>(rd));
            assert(assembled(whole, project, cv, rd, d));
        }
        return Ok(d);
    }
    let ghost rd: DeriveReading;
    let data = match data {
        DataInput::Struct(FieldsInput::Named(fs)) => {
            let ghost fsv = fs@;
            match read_named_fields(fs) {
                Ok(fd) => {
                    proof {
                        rd = DeriveReading { fields: Some(read_fields(fsv, fsv.len() as int)->Ok_0), variants: Seq::empty() };
                    }
                    Data::Struct(Fields::Named(fd))
                },
                Err(e) => {
                    return Err(DeriveFailure::Attr(e));
                },
            }
        },
        DataInput::Struct(other) => {
            proof {
                rd = DeriveReading { fields: None, variants: Seq::empty() };
            }
            Data::Struct(unread_fields(other))
        },
        DataInput::Union => {
            return Err(DeriveFailure::Derive(DeriveError::Union));
        },
        DataInput::Enum(vs) => {
            let ghost vsv = vs@;
            match c.flow_enum {
                Some(repr) => {
                    if generics.len() > 0 {
                        return Err(DeriveFailure::Derive(DeriveError::FlowEnumGenerics));
                    }
                    if c.tag.is_some() {
                        return Err(DeriveFailure::Derive(DeriveError::FlowEnumTag));
                    }
                    if c.content.is_some() {
                        return Err(DeriveFailure::Derive(DeriveError::FlowEnumContent));
                    }
                    if c.untagged {
                        return Err(DeriveFailure::Derive(DeriveError::FlowEnumUntagged));
                    }
                    if c.opaque.is_some() {
                        return Err(DeriveFailure::Derive(DeriveError::FlowEnumOpaque));
                    }
                    let counted = match flow_enum_shape(&vs) {
                        Some(k) => k,
                        None => {
                            return Err(DeriveFailure::Derive(DeriveError::FlowEnumFields));
                        },
                    };
                    if repr == FlowEnumRepr::Boolean && counted != 2 {
                        return Err(DeriveFailure::Derive(DeriveError::FlowEnumBooleanCount));
                    }
                    match read_flow_enum_variants(vs, repr) {
                        Ok(v) => {
                            proof {
                                let attrs = read_flow_variants(vsv, vsv.len() as int, repr)->Ok_0.0;
                                rd = DeriveReading {
                                    fields: None,
                                    variants: attrs.map_values(|a: VariantAttr| (a, None::<Seq<FieldAttr>>)),
                                };
                                assert forall|k: int| 0 <= k < attrs.len() implies variant_reading_at(rd, k) == (
                                attrs[k], None::<Seq<FieldAttr>>) by {}
                            }
                            Data::Enum(v)
                        },
                        Err(f) => {
                            return Err(f);
                        },
                    }
                },
                None => match read_enum_variants(vs) {
                    Ok(v) => {
                        proof {
                            rd = DeriveReading { fields: None, variants: read_variants(vsv, vsv.len() as int)->Ok_0 };
                        }
                        Data::Enum(v)
                    },
                    Err(e) => {
                        return Err(DeriveFailure::Attr(e));
                    },
                },
            }
        },
    };
    let d = TypeDef { ident, generics, docs, attr: c, type_as, data, opaque_newtypes: project.opaque_newtypes };
    proof {
        assert(derive_reading(whole, cv) == Ok::<DeriveReading, DeriveFailure>(rd));
        assert(assembled(whole, project, cv, rd, d));
    }
    Ok(d)
}

} // verus!
