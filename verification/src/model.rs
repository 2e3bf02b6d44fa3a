//! The model of a type as the Flow generator sees it, and the specification
//! of what is rendered for it.
//!
//! A [`FlowType`] stands for one Rust type that has a Flow representation:
//! the built-in ones (primitives, collections, wrappers, ...) and the types
//! that derive it, described by a [`TypeDef`] — the struct or enum as written,
//! with its attributes. The spec functions below say, for every such type,
//! what its Flow name, inline form and flattened form are; `None` marks a
//! type for which no text exists (the derive rejects it, or the method has no
//! meaning for it, such as flattening a primitive).

use vstd::prelude::*;
use crate::attr::{
    ContainerAttr, FieldAttr, FlowEnumRepr, Optional, VariantAttr, field_is_optional, renamed,
    variant_field_inflection,
};
use crate::config::ConfigView;
use crate::inflection::Inflection;
use crate::strings::{join, decimal_nat, decimal_int, trim};
use crate::utils::{escaped, quoted_property};

verus! {

/// A Rust type, by the shape of its Flow representation.
pub enum FlowType {
    /// `bool` → `boolean`.
    Boolean,
    /// Small integers, floats, `usize`, `isize`, `NonZero*` of them → `number`.
    Number,
    /// `i64`, `u64`, `i128`, `u128` (and their `NonZero*`) → the configured large-int type.
    LargeInt,
    /// `String`, `str`, `char`, paths, times, addresses, ids, urls → `string`.
    Text,
    /// `()` → `null`.
    Null,
    /// `Infallible` → `empty`.
    Never,
    /// `PhantomData<T>` → `void`.
    Void,
    /// The placeholder used for generic parameters → `any`.
    Any,
    /// `serde_json::Value` → `mixed`, named `JsonValue`.
    Json,
    /// `std::time::Duration` → `{| +secs: number, +nanos: number |}`.
    Duration,
    /// A generic parameter of the enclosing derived type, by name.
    Param(String),
    /// `Option<T>` → `?T`.
    Nullable(Box<FlowType>),
    /// `Vec<T>`, slices, sets, `VecDeque`, `LinkedList` → `$ReadOnlyArray<T>`.
    ReadOnlyArray(Box<FlowType>),
    /// `HashMap<K, V>`, `BTreeMap<K, V>` → `{ [key: K]: V }`.
    Dictionary(Box<FlowType>, Box<FlowType>),
    /// A tuple `(A, B, ..)` → `[A, B, ..]`.
    Tuple(Vec<FlowType>),
    /// A fixed-size array `[T; N]`.
    Array(Box<FlowType>, usize),
    /// `Result<T, E>` → `{| Ok: T |} | {| Err: E |}`.
    ResultOf(Box<FlowType>, Box<FlowType>),
    /// `Box`, references, `Cow`, `Arc`, `Rc`, cells, locks, `Wrapping`,
    /// `Saturating`: represented as the inner type.
    Transparent(Box<FlowType>),
    /// `Range<T>`, `RangeInclusive<T>` → `{ +start: T, +end: T }`.
    Range(Box<FlowType>),
    /// A function pointer `fn(A, B) -> R` → `(arg0: A, arg1: B) => R`.
    Function(Vec<FlowType>, Box<FlowType>),
    /// A type that derives `Flow`, with its generic arguments.
    Defined(Box<TypeDef>, Vec<FlowType>),
}

/// A generic type parameter of a derived type.
pub struct GenericParam {
    /// The parameter's name, e.g. `T`.
    pub ident: String,
    /// The type given by `#[flow(concrete(T = ..))]`, if any.
    pub concrete: Option<FlowType>,
}

/// The discriminant written on an enum variant.
pub enum Discriminant {
    /// An integer literal, possibly negated (`= 200`, `= -1`).
    Int { negative: bool, magnitude: u128 },
    /// Any other expression.
    Other,
}

/// The fields of a struct or of an enum variant.
pub enum Fields {
    Named(Vec<FieldDef>),
    Unnamed(Vec<FlowType>),
    Unit,
}

/// A named field.
pub struct FieldDef {
    /// The field's Rust name.
    pub ident: String,
    /// The field's type.
    pub ty: FlowType,
    /// The type named by `#[flow(as = "..")]`, if any.
    pub type_as: Option<FlowType>,
    pub attr: FieldAttr,
}

/// An enum variant.
pub struct VariantDef {
    /// The variant's Rust name.
    pub ident: String,
    pub fields: Fields,
    /// The type named by `#[flow(as = "..")]`, if any.
    pub type_as: Option<FlowType>,
    /// `Variant = expr`, if written.
    pub discriminant: Option<Discriminant>,
    pub attr: VariantAttr,
}

/// The body of a derived type.
pub enum Data {
    Struct(Fields),
    Enum(Vec<VariantDef>),
    Union,
}

/// A struct or enum that derives `Flow`, as written.
pub struct TypeDef {
    /// The type's Rust name.
    pub ident: String,
    /// Its generic type parameters, in order.
    pub generics: Vec<GenericParam>,
    /// Its doc comment lines, as written.
    pub docs: Vec<String>,
    pub attr: ContainerAttr,
    /// The type named by the container's `#[flow(as = "..")]`, if any.
    pub type_as: Option<FlowType>,
    pub data: Data,
    /// The project's `opaque_newtypes` setting.
    pub opaque_newtypes: bool,
}

/// Which text of a type is asked for.
#[derive(Clone, Copy, Debug, PartialEq, Eq, Structural)]
pub enum Mode {
    /// The name used where the type is referenced (`Flow::name`).
    Name,
    /// The full definition (`Flow::inline`).
    Inline,
    /// The form used when flattened into another object (`Flow::inline_flattened`).
    Flat,
}

/// What a generic parameter stands for while a derived type is rendered.
pub struct BindingView {
    pub param: Seq<char>,
    pub name: Option<Seq<char>>,
    pub inline: Option<Seq<char>>,
    pub flat: Option<Seq<char>>,
}

/// The view of an optional string.
pub open spec fn sv(o: Option<String>) -> Option<Seq<char>> {
    match o {
        Some(s) => Some(s@),
        None => None,
    }
}

/// `pre + s + post` when `s` exists.
pub open spec fn wrap(pre: Seq<char>, o: Option<Seq<char>>, post: Seq<char>) -> Option<Seq<char>> {
    match o {
        Some(s) => Some(pre + s + post),
        None => None,
    }
}

/// Text that exists in the name and inline forms only.
pub open spec fn prim(m: Mode, s: Seq<char>) -> Option<Seq<char>> {
    match m {
        Mode::Flat => None,
        _ => Some(s),
    }
}

/// The binding of a generic parameter rendered as its own name.
pub open spec fn placeholder(ident: Seq<char>) -> BindingView {
    BindingView { param: ident, name: Some(ident), inline: Some(ident), flat: None }
}

/// The text of `mode` in a binding.
pub open spec fn binding_text(b: BindingView, m: Mode) -> Option<Seq<char>> {
    match m {
        Mode::Name => b.name,
        Mode::Inline => b.inline,
        Mode::Flat => b.flat,
    }
}

/// A generic parameter renders as what the innermost derived type binds it
/// to (the first binding with its name); unbound, it renders as its name.
pub open spec fn lookup(env: Seq<BindingView>, x: Seq<char>, m: Mode) -> Option<Seq<char>>
    decreases env.len(),
{
    if env.len() == 0 {
        prim(m, x)
    } else if env[0].param == x {
        binding_text(env[0], m)
    } else {
        lookup(env.drop_first(), x, m)
    }
}

/// `{ [key: K]: V }`.
pub open spec fn dict_text(k: Option<Seq<char>>, v: Option<Seq<char>>) -> Option<Seq<char>> {
    match (k, v) {
        (Some(a), Some(b)) => Some("{ [key: "@ + a + "]: "@ + b + " }"@),
        _ => None,
    }
}

/// `{| Ok: T |} | {| Err: E |}`.
pub open spec fn result_text(a: Option<Seq<char>>, e: Option<Seq<char>>) -> Option<Seq<char>> {
    match (a, e) {
        (Some(x), Some(y)) => Some("{| Ok: "@ + x + " |} | {| Err: "@ + y + " |}"@),
        _ => None,
    }
}

/// `[A, B, ..]`.
pub open spec fn tuple_text(parts: Option<Seq<Seq<char>>>) -> Option<Seq<char>> {
    match parts {
        Some(p) => Some("["@ + join(p, ", "@) + "]"@),
        None => None,
    }
}

/// `{ +start: T, +end: T }`.
pub open spec fn range_text(a: Option<Seq<char>>) -> Option<Seq<char>> {
    match a {
        Some(s) => Some("{ +start: "@ + s + ", +end: "@ + s + " }"@),
        None => None,
    }
}

/// `argI: T` for each argument type.
pub open spec fn fn_params(parts: Seq<Seq<char>>) -> Seq<Seq<char>> {
    Seq::new(parts.len(), |i: int| "arg"@ + decimal_nat(i as nat) + ": "@ + parts[i])
}

/// `(arg0: A, ..) => R`.
pub open spec fn fn_text(args: Option<Seq<Seq<char>>>, r: Option<Seq<char>>) -> Option<Seq<char>> {
    match (args, r) {
        (Some(p), Some(s)) => Some("("@ + join(fn_params(p), ", "@) + ") => "@ + s),
        _ => None,
    }
}

/// `[T, T, ..]` with `n` copies.
pub open spec fn repeat_text(o: Option<Seq<char>>, n: nat) -> Option<Seq<char>> {
    match o {
        Some(s) => Some("["@ + join(Seq::new(n, |i: int| s), ", "@) + "]"@),
        None => None,
    }
}

/// The Flow name of a derived type, without generic arguments: its
/// `rename`, or its Rust name.
pub open spec fn flow_name(d: TypeDef) -> Seq<char> {
    match d.attr.rename {
        Some(r) => r@,
        None => d.ident@,
    }
}

/// The arguments of a derived type that appear in its name, among the first
/// `n`: those of the parameters without a concrete type.
pub open spec fn named_args(gens: Seq<GenericParam>, b: Seq<BindingView>, n: int) -> Seq<BindingView>
    decreases n,
{
    if n <= 0 || n > gens.len() || n > b.len() {
        Seq::empty()
    } else if gens[n - 1].concrete is None {
        named_args(gens, b, n - 1).push(b[n - 1])
    } else {
        named_args(gens, b, n - 1)
    }
}

/// All texts exist.
pub open spec fn all_some(s: Seq<Option<Seq<char>>>) -> bool {
    forall|i: int| 0 <= i < s.len() ==> #[trigger] s[i] is Some
}

/// The name of each binding.
pub open spec fn binding_names(b: Seq<BindingView>) -> Seq<Option<Seq<char>>> {
    b.map_values(|x: BindingView| x.name)
}

/// The texts, when all exist.
pub open spec fn unwrap_all(s: Seq<Option<Seq<char>>>) -> Seq<Seq<char>> {
    s.map_values(|o: Option<Seq<char>>| o.unwrap())
}

/// `Name<A, B>` (or `Name` when no parameter appears in the name).
pub open spec fn defined_name(d: TypeDef, b: Seq<BindingView>) -> Option<Seq<char>> {
    let shown = binding_names(named_args(d.generics@, b, b.len() as int));
    if shown.len() == 0 {
        Some(flow_name(d))
    } else if all_some(shown) {
        Some(flow_name(d) + "<"@ + join(unwrap_all(shown), ", "@) + ">"@)
    } else {
        None
    }
}

/// How the fields of an object are named and written.
#[derive(Clone, Copy)]
pub struct FieldCtx {
    /// The inflection applied to field names without a `rename`.
    pub inflection: Option<Inflection>,
    /// The setting that `Optional::Inherit` fields inherit.
    pub optional: Optional,
    /// Whether every field type is inlined.
    pub force_inline: bool,
}

/// The written name of a field.
pub open spec fn field_key(f: FieldDef, ctx: FieldCtx) -> Seq<char> {
    quoted_property(
        match f.attr.rename {
            Some(r) => r@,
            None => renamed(ctx.inflection, f.ident@),
        },
    )
}

/// `+name?: ` — variance, name and optional marker of a field.
pub open spec fn field_head(f: FieldDef, ctx: FieldCtx) -> Seq<char> {
    (if f.attr.readonly { "+"@ } else { Seq::empty() }) + field_key(f, ctx) + (if field_is_optional(
        f.attr,
        ctx.optional,
    ) {
        "?"@
    } else {
        Seq::empty()
    }) + ": "@
}

/// How a variant is shaped when it is not expanded field by field: bare when
/// untagged, intersected with its tag when tagged, keyed by its name otherwise.
pub open spec fn variant_shape(
    untagged: bool,
    tag: Option<Seq<char>>,
    vn: Seq<char>,
    key: Seq<char>,
    t: Seq<char>,
) -> Seq<char> {
    if untagged {
        t
    } else {
        match tag {
            Some(tg) => "{| "@ + tg + ": '"@ + vn + "' |} & "@ + t,
            None => "{| "@ + key + ": "@ + t + " |}"@,
        }
    }
}

/// A single-field or multi-field tuple variant's text.
pub open spec fn tuple_variant_shape(
    untagged: bool,
    tag: Option<Seq<char>>,
    content: Option<Seq<char>>,
    single: bool,
    vn: Seq<char>,
    key: Seq<char>,
    t: Seq<char>,
) -> Seq<char> {
    if untagged {
        t
    } else if tag is Some && content is Some {
        "{| "@ + tag.unwrap() + ": '"@ + vn + "', "@ + content.unwrap() + ": "@ + t + " |}"@
    } else if single && tag is Some {
        "{| "@ + tag.unwrap() + ": '"@ + vn + "' |} & "@ + t
    } else {
        "{| "@ + key + ": "@ + t + " |}"@
    }
}

/// The object written for the fields of a struct variant.
pub open spec fn variant_object(fd: Seq<Seq<char>>, fl: Seq<Seq<char>>) -> Seq<char> {
    if fl.len() == 0 {
        "{| "@ + join(fd, ", "@) + " |}"@
    } else if fd.len() == 0 {
        join(fl, " & "@)
    } else {
        "{| "@ + join(fd, ", "@) + " |} & "@ + join(fl, " & "@)
    }
}

/// A struct variant's text.
pub open spec fn named_variant_shape(
    untagged: bool,
    tag: Option<Seq<char>>,
    content: Option<Seq<char>>,
    vn: Seq<char>,
    key: Seq<char>,
    fd: Seq<Seq<char>>,
    fl: Seq<Seq<char>>,
) -> Seq<char> {
    let obj = variant_object(fd, fl);
    if untagged {
        obj
    } else if tag is Some && content is Some {
        "{| "@ + tag.unwrap() + ": '"@ + vn + "', "@ + content.unwrap() + ": "@ + obj + " |}"@
    } else if tag is Some {
        variant_object(seq![tag.unwrap() + ": '"@ + vn + "'"@] + fd, fl)
    } else {
        "{| "@ + key + ": "@ + obj + " |}"@
    }
}

/// The name a variant is known by in the output.
pub open spec fn variant_raw_name(v: VariantDef, c: ContainerAttr) -> Seq<char> {
    match v.attr.rename {
        Some(r) => r@,
        None => renamed(c.rename_all, v.ident@),
    }
}

/// How the fields of a struct variant are named and written.
pub open spec fn variant_field_ctx(v: VariantDef, c: ContainerAttr) -> FieldCtx {
    FieldCtx {
        inflection: match v.attr.rename_all {
            Some(i) => Some(i),
            None => variant_field_inflection(c),
        },
        optional: match v.attr.optional_fields {
            Optional::Inherit => c.optional_fields,
            o => o,
        },
        force_inline: v.attr.inline,
    }
}

/// How the fields of a struct are named and written.
pub open spec fn struct_field_ctx(c: ContainerAttr) -> FieldCtx {
    FieldCtx {
        inflection: c.rename_all,
        optional: c.optional_fields,
        force_inline: false,
    }
}

/// A property key when written at all.
pub open spec fn quoted_opt(o: Option<String>) -> Option<Seq<char>> {
    match o {
        Some(s) => Some(quoted_property(s@)),
        None => None,
    }
}

/// `{| a: A, b: B |}`.
pub open spec fn exact_object(fd: Seq<Seq<char>>) -> Seq<char> {
    "{| "@ + join(fd, ", "@) + " |}"@
}

/// What a struct with named fields inlines to.
pub open spec fn struct_inline(fd: Seq<Seq<char>>, fl: Seq<Seq<char>>) -> Seq<char> {
    if fd.len() == 0 && fl.len() == 0 {
        "{||}"@
    } else if fl.len() == 0 {
        exact_object(fd)
    } else if fd.len() == 0 && fl.len() == 1 {
        strip_parens(fl[0])
    } else if fd.len() == 0 {
        join(fl, " & "@)
    } else {
        exact_object(fd) + " & "@ + join(fl, " & "@)
    }
}

/// What a struct with named fields flattens to.
pub open spec fn struct_flat(fd: Seq<Seq<char>>, fl: Seq<Seq<char>>) -> Seq<char> {
    if fl.len() == 0 {
        exact_object(fd)
    } else if fd.len() == 0 {
        join(fl, " & "@)
    } else {
        exact_object(fd) + " & "@ + join(fl, " & "@)
    }
}

/// A single flattened type standing alone: its enclosing parentheses, if
/// any, removed, and the rest trimmed.
pub open spec fn strip_parens(f: Seq<char>) -> Seq<char> {
    if f.len() >= 2 && f[0] == '(' && f.last() == ')' {
        trim(f.subrange(1, f.len() - 1))
    } else {
        trim(f)
    }
}

// ── Rendering ───────────────────────────────────────────────────────────

/// The text of `t` in mode `m`, with the generic parameters of the enclosing
/// derived type bound by `env`.
pub open spec fn render(t: FlowType, m: Mode, env: Seq<BindingView>, cfg: ConfigView) -> Option<
    Seq<char>,
>
    decreases t, 1nat,
{
    match t {
        FlowType::Boolean => prim(m, "boolean"@),
        FlowType::Number => prim(m, "number"@),
        FlowType::LargeInt => prim(m, cfg.large_int_type),
        FlowType::Text => prim(m, "string"@),
        FlowType::Null => prim(m, "null"@),
        FlowType::Never => prim(m, "empty"@),
        FlowType::Void => prim(m, "void"@),
        FlowType::Any => prim(m, "any"@),
        FlowType::Json => match m {
            Mode::Name => Some("JsonValue"@),
            Mode::Inline => Some("mixed"@),
            Mode::Flat => None,
        },
        FlowType::Duration => prim(m, "{| +secs: number, +nanos: number |}"@),
        FlowType::Param(x) => lookup(env, x@, m),
        FlowType::Nullable(a) => match m {
            Mode::Flat => None,
            _ => wrap("?"@, render(*a, m, env, cfg), ""@),
        },
        FlowType::ReadOnlyArray(a) => match m {
            Mode::Flat => None,
            _ => wrap("$ReadOnlyArray<"@, render(*a, m, env, cfg), ">"@),
        },
        FlowType::Dictionary(k, v) => match m {
            Mode::Flat => wrap(
                "("@,
                dict_text(render(*k, Mode::Inline, env, cfg), render(*v, Mode::Inline, env, cfg)),
                ")"@,
            ),
            _ => dict_text(render(*k, m, env, cfg), render(*v, m, env, cfg)),
        },
        FlowType::Tuple(ts) => match m {
            Mode::Flat => wrap(
                "("@,
                tuple_text(render_list(ts, ts@.len() as int, Mode::Inline, env, cfg)),
                ")"@,
            ),
            _ => tuple_text(render_list(ts, ts@.len() as int, m, env, cfg)),
        },
        FlowType::Array(a, n) => match m {
            Mode::Flat => None,
            _ => if n > cfg.array_tuple_limit {
                wrap("$ReadOnlyArray<"@, render(*a, m, env, cfg), ">"@)
            } else {
                repeat_text(render(*a, m, env, cfg), n as nat)
            },
        },
        FlowType::ResultOf(a, e) => match m {
            Mode::Flat => None,
            _ => result_text(render(*a, m, env, cfg), render(*e, m, env, cfg)),
        },
        FlowType::Transparent(a) => render(*a, m, env, cfg),
        FlowType::Range(a) => match m {
            Mode::Flat => wrap("("@, range_text(render(*a, Mode::Inline, env, cfg)), ")"@),
            _ => range_text(render(*a, m, env, cfg)),
        },
        FlowType::Function(args, r) => match m {
            Mode::Flat => None,
            _ => fn_text(render_list(args, args@.len() as int, m, env, cfg), render(*r, m, env, cfg)),
        },
        FlowType::Defined(_, _) => render_defined(t, m, env, cfg),
    }
}

/// The texts of the first `n` types of `ts`, when all exist.
pub open spec fn render_list(
    ts: Vec<FlowType>,
    n: int,
    m: Mode,
    env: Seq<BindingView>,
    cfg: ConfigView,
) -> Option<Seq<Seq<char>>>
    decreases ts, n,
{
    if n <= 0 || n > ts@.len() {
        Some(Seq::empty())
    } else {
        match (render_list(ts, n - 1, m, env, cfg), render(ts@[n - 1], m, env, cfg)) {
            (Some(p), Some(s)) => Some(p.push(s)),
            _ => None,
        }
    }
}

/// What the generic parameters of a derived type stand for: the first `n`
/// arguments, each rendered in the caller's bindings.
pub open spec fn bind_args(
    gens: Vec<GenericParam>,
    args: Vec<FlowType>,
    n: int,
    env: Seq<BindingView>,
    cfg: ConfigView,
) -> Seq<BindingView>
    decreases args, n,
{
    if n <= 0 || n > args@.len() || n > gens@.len() {
        Seq::empty()
    } else {
        bind_args(gens, args, n - 1, env, cfg).push(
            BindingView {
                param: gens@[n - 1].ident@,
                name: render(args@[n - 1], Mode::Name, env, cfg),
                inline: render(args@[n - 1], Mode::Inline, env, cfg),
                flat: render(args@[n - 1], Mode::Flat, env, cfg),
            },
        )
    }
}

/// The text of a derived type `t` (a `FlowType::Defined`).
pub open spec fn render_defined(t: FlowType, m: Mode, env: Seq<BindingView>, cfg: ConfigView) -> Option<
    Seq<char>,
>
    decreases t, 0nat,
{
    match t {
        FlowType::Defined(d, args) => {
            if derive_error(*d) is Some || args@.len() != d.generics@.len() {
                None
            } else {
                let b = bind_args(d.generics, args, args@.len() as int, env, cfg);
                match m {
                    Mode::Name => defined_name(*d, b),
                    _ => render_body(*d, m, b, cfg),
                }
            }
        },
        _ => None,
    }
}

/// The inline (or flattened) text of the body of a derived type, with its
/// generic parameters bound by `b`.
pub open spec fn render_body(d: TypeDef, m: Mode, b: Seq<BindingView>, cfg: ConfigView) -> Option<
    Seq<char>,
>
    decreases d, 0nat,
{
    if d.attr.type_override is Some {
        let s = d.attr.type_override.unwrap()@;
        match m {
            Mode::Flat => Some("("@ + s + ")"@),
            _ => Some(s),
        }
    } else if d.type_as is Some {
        match m {
            Mode::Flat => wrap("("@, render(d.type_as.unwrap(), Mode::Inline, b, cfg), ")"@),
            _ => render(d.type_as.unwrap(), Mode::Inline, b, cfg),
        }
    } else {
        match d.data {
            Data::Struct(Fields::Named(fs)) => match field_entries(
                fs,
                fs@.len() as int,
                struct_field_ctx(d.attr),
                b,
                cfg,
            ) {
                Some((fd, fl)) => match m {
                    Mode::Flat => Some(struct_flat(fd, fl)),
                    _ => Some(struct_inline(fd, fl)),
                },
                None => None,
            },
            Data::Struct(Fields::Unnamed(ts)) => if ts@.len() == 1 {
                match m {
                    Mode::Flat => wrap("("@, render(ts@[0], Mode::Inline, b, cfg), ")"@),
                    _ => render(ts@[0], Mode::Inline, b, cfg),
                }
            } else {
                match m {
                    Mode::Flat => wrap(
                        "("@,
                        tuple_text(render_list(ts, ts@.len() as int, Mode::Inline, b, cfg)),
                        ")"@,
                    ),
                    _ => tuple_text(render_list(ts, ts@.len() as int, Mode::Inline, b, cfg)),
                }
            },
            Data::Struct(Fields::Unit) => Some("null"@),
            Data::Enum(vs) => if d.attr.flow_enum is Some {
                match flow_enum_members(d, vs@.len() as int) {
                    Ok(st) => if st.members.len() == 0 {
                        Some("empty"@)
                    } else {
                        match m {
                            Mode::Flat => Some("("@ + flow_name(d) + ")"@),
                            _ => Some(flow_name(d)),
                        }
                    },
                    Err(_) => None,
                }
            } else {
                let inl = if vs@.len() == 0 {
                    Some("empty"@)
                } else {
                    match variant_defs(vs, vs@.len() as int, d.attr, b, cfg) {
                        Some(defs) => if defs.len() == 0 {
                            Some("empty"@)
                        } else {
                            Some(join(defs, " | "@))
                        },
                        None => None,
                    }
                };
                match m {
                    Mode::Flat => wrap("("@, inl, ")"@),
                    _ => inl,
                }
            },
            Data::Union => None,
        }
    }
}

/// A named field's text, without the struct-style indentation.
pub open spec fn field_core(f: FieldDef, ctx: FieldCtx, b: Seq<BindingView>, cfg: ConfigView) -> Option<
    Seq<char>,
>
    decreases f, 0nat,
{
    let m = if f.attr.inline || ctx.force_inline {
        Mode::Inline
    } else {
        Mode::Name
    };
    if f.attr.type_override is Some {
        Some(field_head(f, ctx) + f.attr.type_override.unwrap()@)
    } else if f.type_as is Some {
        wrap(field_head(f, ctx), render(f.type_as.unwrap(), m, b, cfg), ""@)
    } else {
        wrap(field_head(f, ctx), render(f.ty, m, b, cfg), ""@)
    }
}

/// The written fields and the flattened types among the first `n` fields.
pub open spec fn field_entries(
    fs: Vec<FieldDef>,
    n: int,
    ctx: FieldCtx,
    b: Seq<BindingView>,
    cfg: ConfigView,
) -> Option<(Seq<Seq<char>>, Seq<Seq<char>>)>
    decreases fs, n,
{
    if n <= 0 || n > fs@.len() {
        Some((Seq::empty(), Seq::empty()))
    } else {
        let f = fs@[n - 1];
        match field_entries(fs, n - 1, ctx, b, cfg) {
            Some((fd, fl)) => if f.attr.skip {
                Some((fd, fl))
            } else if f.attr.flatten {
                match render(f.ty, Mode::Flat, b, cfg) {
                    Some(s) => Some((fd, fl.push(s))),
                    None => None,
                }
            } else {
                match field_core(f, ctx, b, cfg) {
                    Some(s) => Some((fd.push(s), fl)),
                    None => None,
                }
            },
            None => None,
        }
    }
}

/// The texts of the variants among the first `n` that are not skipped.
pub open spec fn variant_defs(
    vs: Vec<VariantDef>,
    n: int,
    c: ContainerAttr,
    b: Seq<BindingView>,
    cfg: ConfigView,
) -> Option<Seq<Seq<char>>>
    decreases vs, n,
{
    if n <= 0 || n > vs@.len() {
        Some(Seq::empty())
    } else {
        match variant_defs(vs, n - 1, c, b, cfg) {
            Some(p) => if vs@[n - 1].attr.skip {
                Some(p)
            } else {
                match variant_def(vs@[n - 1], c, b, cfg) {
                    Some(s) => Some(p.push(s)),
                    None => None,
                }
            },
            None => None,
        }
    }
}

/// The text of one variant of an enum.
pub open spec fn variant_def(v: VariantDef, c: ContainerAttr, b: Seq<BindingView>, cfg: ConfigView) -> Option<
    Seq<char>,
>
    decreases v, 0nat,
{
    let raw = variant_raw_name(v, c);
    let vn = escaped(raw);
    let key = quoted_property(raw);
    let untagged = c.untagged || v.attr.untagged;
    let tag = quoted_opt(c.tag);
    let content = quoted_opt(c.content);
    if v.attr.type_override is Some {
        Some(variant_shape(untagged, tag, vn, key, v.attr.type_override.unwrap()@))
    } else if v.type_as is Some {
        match render(v.type_as.unwrap(), Mode::Inline, b, cfg) {
            Some(s) => Some(variant_shape(untagged, tag, vn, key, s)),
            None => None,
        }
    } else {
        match v.fields {
            Fields::Unit => if untagged {
                Some("null"@)
            } else if tag is Some {
                Some("{| "@ + tag.unwrap() + ": '"@ + vn + "' |}"@)
            } else {
                Some("'"@ + vn + "'"@)
            },
            Fields::Unnamed(ts) => if ts@.len() == 1 {
                match render(ts@[0], Mode::Inline, b, cfg) {
                    Some(s) => Some(tuple_variant_shape(untagged, tag, content, true, vn, key, s)),
                    None => None,
                }
            } else {
                match tuple_text(render_list(ts, ts@.len() as int, Mode::Inline, b, cfg)) {
                    Some(s) => Some(tuple_variant_shape(untagged, tag, content, false, vn, key, s)),
                    None => None,
                }
            },
            Fields::Named(fs) => match field_entries(
                fs,
                fs@.len() as int,
                variant_field_ctx(v, c),
                b,
                cfg,
            ) {
                Some((fd, fl)) => Some(named_variant_shape(untagged, tag, content, vn, key, fd, fl)),
                None => None,
            },
        }
    }
}

// ── Derive validation and Flow enums ────────────────────────────────────

/// Why the derive rejects a type.
#[derive(Clone, Copy, Debug, PartialEq, Eq, Structural)]
pub enum DeriveError {
    /// Unions have no Flow representation.
    Union,
    /// `flow_enum` on a generic enum.
    FlowEnumGenerics,
    /// `flow_enum` together with `tag`.
    FlowEnumTag,
    /// `flow_enum` together with `content`.
    FlowEnumContent,
    /// `flow_enum` together with `untagged`.
    FlowEnumUntagged,
    /// `flow_enum` together with `opaque`.
    FlowEnumOpaque,
    /// A `flow_enum` variant with fields.
    FlowEnumFields,
    /// A boolean `flow_enum` without exactly two variants.
    FlowEnumBooleanCount,
    /// A `number` discriminant that does not fit an `i64`.
    InvalidDiscriminant,
    /// A `number` discriminant that is not an integer literal.
    NonLiteralDiscriminant,
    /// A `number` discriminant of `i64::MAX`: the next one would overflow.
    DiscriminantOverflow,
}

/// The message the derive reports for a rejected type.
pub open spec fn derive_error_text(e: DeriveError) -> Seq<char> {
    match e {
        DeriveError::Union => "Flow cannot be derived for unions"@,
        DeriveError::FlowEnumGenerics => "#[flow(flow_enum)] cannot be used on generic enums"@,
        DeriveError::FlowEnumTag => "#[flow(flow_enum)] cannot be combined with #[flow(tag = \"...\")]"@,
        DeriveError::FlowEnumContent => "#[flow(flow_enum)] cannot be combined with #[flow(content = \"...\")]"@,
        DeriveError::FlowEnumUntagged => "#[flow(flow_enum)] cannot be combined with #[flow(untagged)]"@,
        DeriveError::FlowEnumOpaque => "#[flow(flow_enum)] cannot be combined with #[flow(opaque)]"@,
        DeriveError::FlowEnumFields => "#[flow(flow_enum)] requires all variants to be unit (no fields)"@,
        DeriveError::FlowEnumBooleanCount => "#[flow(flow_enum = \"boolean\")] requires exactly 2 non-skipped variants"@,
        DeriveError::InvalidDiscriminant => "invalid discriminant: number too large to fit in target type"@,
        DeriveError::NonLiteralDiscriminant => "flow_enum = \"number\" requires integer literal discriminants"@,
        DeriveError::DiscriminantOverflow => "invalid discriminant: the next implicit discriminant overflows"@,
    }
}

impl DeriveError {
    /// The error's message.
    pub fn message(&self) -> (r: String)
        ensures
            r@ == derive_error_text(*self),
    {
        let text: &str = match self {
            DeriveError::Union => "Flow cannot be derived for unions",
            DeriveError::FlowEnumGenerics => "#[flow(flow_enum)] cannot be used on generic enums",
            DeriveError::FlowEnumTag => "#[flow(flow_enum)] cannot be combined with #[flow(tag = \"...\")]",
            DeriveError::FlowEnumContent => "#[flow(flow_enum)] cannot be combined with #[flow(content = \"...\")]",
            DeriveError::FlowEnumUntagged => "#[flow(flow_enum)] cannot be combined with #[flow(untagged)]",
            DeriveError::FlowEnumOpaque => "#[flow(flow_enum)] cannot be combined with #[flow(opaque)]",
            DeriveError::FlowEnumFields => "#[flow(flow_enum)] requires all variants to be unit (no fields)",
            DeriveError::FlowEnumBooleanCount => "#[flow(flow_enum = \"boolean\")] requires exactly 2 non-skipped variants",
            DeriveError::InvalidDiscriminant => "invalid discriminant: number too large to fit in target type",
            DeriveError::NonLiteralDiscriminant => "flow_enum = \"number\" requires integer literal discriminants",
            DeriveError::DiscriminantOverflow => "invalid discriminant: the next implicit discriminant overflows",
        };
        crate::strings::to_owned_string(text)
    }
}

/// The members written so far, the next implicit discriminant, and how many
/// boolean members were written.
pub struct MembersState {
    pub members: Seq<Seq<char>>,
    pub next: int,
    pub bools: nat,
}

/// The value of a `number` member: its discriminant, or the next implicit one.
pub open spec fn member_value(disc: Option<Discriminant>, next: int) -> Result<int, DeriveError> {
    match disc {
        None => Ok(next),
        Some(Discriminant::Int { negative, magnitude }) => if magnitude > i64::MAX {
            Err(DeriveError::InvalidDiscriminant)
        } else if negative {
            Ok(-(magnitude as int))
        } else {
            Ok(magnitude as int)
        },
        Some(Discriminant::Other) => Err(DeriveError::NonLiteralDiscriminant),
    }
}

/// The Flow enum members of the first `n` variants of `d`.
pub open spec fn flow_enum_members(d: TypeDef, n: int) -> Result<MembersState, DeriveError>
    decreases n,
{
    if n <= 0 {
        Ok(MembersState { members: Seq::empty(), next: 0, bools: 0 })
    } else {
        match flow_enum_members(d, n - 1) {
            Ok(st) => match d.data {
                Data::Enum(vs) => if n > vs@.len() || vs@[n - 1].attr.skip {
                    Ok(st)
                } else {
                    let v = vs@[n - 1];
                    let id = v.ident@;
                    match d.attr.flow_enum {
                        Some(FlowEnumRepr::Symbol) => Ok(
                            MembersState { members: st.members.push("  "@ + id + ","@), ..st },
                        ),
                        Some(FlowEnumRepr::String) => Ok(
                            MembersState {
                                members: st.members.push(
                                    "  "@ + id + " = '"@ + escaped(variant_raw_name(v, d.attr))
                                        + "',"@,
                                ),
                                ..st
                            },
                        ),
                        Some(FlowEnumRepr::Number) => match member_value(v.discriminant, st.next) {
                            Ok(val) => if val == i64::MAX {
                                Err(DeriveError::DiscriminantOverflow)
                            } else {
                                Ok(
                                    MembersState {
                                        members: st.members.push(
                                            "  "@ + id + " = "@ + decimal_int(val) + ","@,
                                        ),
                                        next: val + 1,
                                        bools: st.bools,
                                    },
                                )
                            },
                            Err(e) => Err(e),
                        },
                        Some(FlowEnumRepr::Boolean) => Ok(
                            MembersState {
                                members: st.members.push(
                                    "  "@ + id + " = "@ + (if st.bools == 0 {
                                        "true"@
                                    } else {
                                        "false"@
                                    }) + ","@,
                                ),
                                next: st.next,
                                bools: st.bools + 1,
                            },
                        ),
                        None => Ok(st),
                    }
                },
                _ => Ok(st),
            },
            Err(e) => Err(e),
        }
    }
}

/// The number of variants that are not skipped.
pub open spec fn active_variants(vs: Seq<VariantDef>) -> nat
    decreases vs.len(),
{
    if vs.len() == 0 {
        0
    } else {
        active_variants(vs.drop_last()) + if vs.last().attr.skip {
            0nat
        } else {
            1nat
        }
    }
}

/// Whether every variant is a unit variant.
pub open spec fn all_unit(vs: Seq<VariantDef>) -> bool {
    forall|i: int| 0 <= i < vs.len() ==> #[trigger] vs[i].fields is Unit
}

/// The first reason, in the derive's order of checks, why `d` is rejected.
pub open spec fn derive_error(d: TypeDef) -> Option<DeriveError> {
    if d.attr.type_override is Some || d.type_as is Some {
        None
    } else {
        match d.data {
            Data::Struct(_) => None,
            Data::Union => Some(DeriveError::Union),
            Data::Enum(vs) => match d.attr.flow_enum {
                None => None,
                Some(repr) => if d.generics@.len() > 0 {
                    Some(DeriveError::FlowEnumGenerics)
                } else if d.attr.tag is Some {
                    Some(DeriveError::FlowEnumTag)
                } else if d.attr.content is Some {
                    Some(DeriveError::FlowEnumContent)
                } else if d.attr.untagged {
                    Some(DeriveError::FlowEnumUntagged)
                } else if d.attr.opaque is Some {
                    Some(DeriveError::FlowEnumOpaque)
                } else if !all_unit(vs@) {
                    Some(DeriveError::FlowEnumFields)
                } else if repr == FlowEnumRepr::Boolean && active_variants(vs@) != 2 {
                    Some(DeriveError::FlowEnumBooleanCount)
                } else {
                    match flow_enum_members(d, vs@.len() as int) {
                        Ok(_) => None,
                        Err(e) => Some(e),
                    }
                },
            },
        }
    }
}

} // verus!
