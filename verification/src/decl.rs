//! Declarations, identifiers, docs and output paths of Flow types, and the
//! public methods of [`FlowType`] that mirror the `Flow` trait.

use vstd::prelude::*;
use crate::attr::FlowEnumRepr;
use crate::config::{Config, ConfigView};
use crate::model::{
    FlowType, GenericParam, Fields, Data, TypeDef, Mode, BindingView, DeriveError, sv,
    placeholder, flow_name, defined_name, render, bind_args, render_body, flow_enum_members,
    derive_error,
};
use crate::render::{Binding, env_view, render_type, render_body_exec, flow_name_exec, check_derive, flow_enum_members_exec};
use crate::strings::{join, views, join_strings, to_owned_string, trim, trim_str};

verus! {

/// The part of `s` before its first `<`.
pub open spec fn before_angle(s: Seq<char>) -> Seq<char>
    decreases s.len(),
{
    if s.len() == 0 || s[0] == '<' {
        Seq::empty()
    } else {
        seq![s[0]] + before_angle(s.drop_first())
    }
}

/// The identifier of a type: its name without generic arguments.
pub open spec fn ident_of(t: FlowType, cfg: ConfigView) -> Option<Seq<char>> {
    match t {
        FlowType::ReadOnlyArray(_) => Some("$ReadOnlyArray"@),
        FlowType::Dictionary(_, _) => None,
        FlowType::Range(_) => None,
        _ => match render(t, Mode::Name, Seq::empty(), cfg) {
            Some(s) => Some(before_angle(s)),
            None => None,
        },
    }
}

/// Whether a derived type is declared as a Flow `enum`.
pub open spec fn is_flow_enum(d: TypeDef) -> bool {
    &&& d.attr.type_override is None
    &&& d.type_as is None
    &&& d.attr.flow_enum is Some
    &&& d.data is Enum
}

/// Whether a derived type is a newtype (a tuple struct of one field).
pub open spec fn is_newtype(d: TypeDef) -> bool {
    match d.data {
        Data::Struct(Fields::Unnamed(ts)) => ts@.len() == 1,
        _ => false,
    }
}

/// Whether a derived type is declared `opaque`: by its attribute, or as a
/// newtype when the project makes newtypes opaque.
pub open spec fn is_opaque(d: TypeDef) -> bool {
    &&& d.attr.type_override is None
    &&& d.type_as is None
    &&& (d.attr.opaque is Some || (d.opaque_newtypes && is_newtype(d)))
}

/// The supertype of an opaque type: the attribute's bound, or for an
/// automatically opaque newtype the name of the wrapped type (`None` when
/// that name has no text).
pub open spec fn opaque_bound(d: TypeDef, b: Seq<BindingView>, cfg: ConfigView) -> Option<Option<Seq<char>>> {
    match d.attr.opaque {
        Some(o) => Some(sv(o)),
        None => match d.data {
            Data::Struct(Fields::Unnamed(ts)) => if ts@.len() == 1 {
                match render(ts@[0], Mode::Name, b, cfg) {
                    Some(s) => Some(Some(s)),
                    None => None,
                }
            } else {
                Some(None)
            },
            _ => Some(None),
        },
    }
}

/// `: bound`, or nothing.
pub open spec fn bound_text(o: Option<Seq<char>>) -> Seq<char> {
    match o {
        Some(s) => ": "@ + s,
        None => Seq::empty(),
    }
}

/// The bindings used to declare a generic type: each parameter stands for
/// itself, or for its concrete type when it has one.
pub open spec fn declaration_env(gens: Seq<GenericParam>, cfg: ConfigView) -> Seq<BindingView> {
    Seq::new(
        gens.len(),
        |i: int|
            match gens[i].concrete {
                Some(c) => BindingView {
                    param: gens[i].ident@,
                    name: render(c, Mode::Name, Seq::empty(), cfg),
                    inline: render(c, Mode::Inline, Seq::empty(), cfg),
                    flat: render(c, Mode::Flat, Seq::empty(), cfg),
                },
                None => placeholder(gens[i].ident@),
            },
    )
}

/// The bindings used to declare a generic opaque type: every parameter
/// stands for itself.
pub open spec fn placeholder_env(gens: Seq<GenericParam>) -> Seq<BindingView> {
    Seq::new(gens.len(), |i: int| placeholder(gens[i].ident@))
}

/// The names of all generic parameters.
pub open spec fn param_names(gens: Seq<GenericParam>) -> Seq<Seq<char>> {
    gens.map_values(|g: GenericParam| g.ident@)
}

/// The names of the generic parameters without a concrete type, among the first `n`.
pub open spec fn open_param_names(gens: Seq<GenericParam>, n: int) -> Seq<Seq<char>>
    decreases n,
{
    if n <= 0 || n > gens.len() {
        Seq::empty()
    } else if gens[n - 1].concrete is None {
        open_param_names(gens, n - 1).push(gens[n - 1].ident@)
    } else {
        open_param_names(gens, n - 1)
    }
}

/// The keyword suffix of a Flow enum declaration.
pub open spec fn enum_suffix(r: FlowEnumRepr) -> Seq<char> {
    match r {
        FlowEnumRepr::Symbol => Seq::empty(),
        FlowEnumRepr::String => " of string"@,
        FlowEnumRepr::Number => " of number"@,
        FlowEnumRepr::Boolean => " of boolean"@,
    }
}

/// `type N = T;`
pub open spec fn alias(name: Seq<char>, inline: Option<Seq<char>>) -> Option<Seq<char>> {
    match inline {
        Some(s) => Some("type "@ + name + " = "@ + s + ";"@),
        None => None,
    }
}

/// The declaration of a derived type with the given arguments.
pub open spec fn decl_defined(d: TypeDef, args: Vec<FlowType>, cfg: ConfigView) -> Option<Seq<char>> {
    if derive_error(d) is Some || args@.len() != d.generics@.len() {
        None
    } else {
        let b = bind_args(d.generics, args, args@.len() as int, Seq::empty(), cfg);
        if is_flow_enum(d) {
            match flow_enum_members(d, d.data->Enum_0@.len() as int) {
                Ok(st) => if st.members.len() == 0 {
                    Some("type "@ + before_angle(flow_name(d)) + " = empty;"@)
                } else {
                    Some(
                        "enum "@ + before_angle(flow_name(d)) + enum_suffix(d.attr.flow_enum.unwrap())
                            + " {\n"@ + join(st.members, "\n"@) + "\n}"@,
                    )
                },
                Err(_) => None,
            }
        } else if is_opaque(d) {
            match opaque_bound(d, b, cfg) {
                Some(bound) => if d.generics@.len() > 0 {
                    match render_body(d, Mode::Inline, placeholder_env(d.generics@), cfg) {
                        Some(inl) => Some(
                            "opaque type "@ + flow_name(d) + "<"@ + join(param_names(d.generics@), ", "@)
                                + ">"@ + bound_text(bound) + " = "@ + inl + ";"@,
                        ),
                        None => None,
                    }
                } else {
                    match render_body(d, Mode::Inline, b, cfg) {
                        Some(inl) => Some(
                            "opaque type "@ + flow_name(d) + bound_text(bound) + " = "@ + inl + ";"@,
                        ),
                        None => None,
                    }
                },
                None => None,
            }
        } else if d.generics@.len() > 0 {
            let names = open_param_names(d.generics@, d.generics@.len() as int);
            let inl = render_body(d, Mode::Inline, declaration_env(d.generics@, cfg), cfg);
            if names.len() == 0 {
                alias(flow_name(d), inl)
            } else {
                alias(flow_name(d) + "<"@ + join(names, ", "@) + ">"@, inl)
            }
        } else {
            match defined_name(d, b) {
                Some(n) => alias(n, render_body(d, Mode::Inline, b, cfg)),
                None => None,
            }
        }
    }
}

/// The declaration of a type (`Flow::decl`): `None` for the types that have none.
pub open spec fn decl_of(t: FlowType, cfg: ConfigView) -> Option<Seq<char>> {
    match t {
        FlowType::Json => Some("type JsonValue = mixed;"@),
        FlowType::Defined(d, args) => decl_defined(*d, args, cfg),
        _ => None,
    }
}

/// The declaration of a type with its own arguments (`Flow::decl_concrete`).
pub open spec fn decl_concrete_of(t: FlowType, cfg: ConfigView) -> Option<Seq<char>> {
    match t {
        FlowType::Json => Some("type JsonValue = mixed;"@),
        FlowType::Defined(d, args) => if derive_error(*d) is Some || args@.len() != d.generics@.len() {
            None
        } else if is_opaque(*d) || is_flow_enum(*d) {
            decl_defined(*d, args, cfg)
        } else {
            match render(t, Mode::Name, Seq::empty(), cfg) {
                Some(n) => alias(n, render(t, Mode::Inline, Seq::empty(), cfg)),
                None => None,
            }
        },
        _ => None,
    }
}

/// The doc comment of a derived type: its lines, each trimmed, joined by newlines.
pub open spec fn docs_of(t: FlowType) -> Option<Seq<char>> {
    match t {
        FlowType::Defined(d, _) => if d.docs@.len() == 0 {
            None
        } else {
            Some(join(d.docs@.map_values(|s: String| trim(s@)), "\n"@))
        },
        _ => None,
    }
}

/// Where a type is exported, relative to the export directory and without
/// extension: `export_to` when it names a file, `export_to` followed by the
/// type's name when it names a directory (ends with `/`), else the name.
pub open spec fn output_path_of(t: FlowType) -> Option<Seq<char>> {
    match t {
        FlowType::Json => Some("JsonValue"@),
        FlowType::Defined(d, _) => match d.attr.export_to {
            Some(p) => if p@.len() > 0 && p@.last() == '/' {
                Some(p@ + flow_name(*d))
            } else {
                Some(p@)
            },
            None => Some(flow_name(*d)),
        },
        _ => None,
    }
}

/// Whether a type is an enum for Flow's purposes (`Flow::IS_ENUM`).
pub open spec fn is_enum_of(t: FlowType) -> bool {
    match t {
        FlowType::Defined(d, _) => d.attr.type_override is None && d.type_as is None && d.data is Enum,
        _ => false,
    }
}

fn cat3(a: &str, b: &str, c: &str) -> (r: String)
    ensures
        r@ == a@ + b@ + c@,
{
    let mut s = to_owned_string(a);
    s.append(b);
    s.append(c);
    s
}

fn before_angle_exec(s: &str) -> (r: String)
    ensures
        r@ == before_angle(s@),
{
    let n = s.unicode_len();
    let mut i: usize = 0;
    while i < n && s.get_char(i) != '<'
        invariant
            n == s@.len(),
            i <= n,
            forall|j: int| 0 <= j < i ==> s@[j] != '<',
        decreases n - i,
    {
        i = i + 1;
    }
    proof {
        lemma_before_angle(s@, i as int);
    }
    s.substring_char(0, i).to_owned()
}

proof fn lemma_before_angle(s: Seq<char>, i: int)
    requires
        0 <= i <= s.len(),
        forall|j: int| 0 <= j < i ==> s[j] != '<',
        i == s.len() || s[i] == '<',
    ensures
        before_angle(s) == s.subrange(0, i),
    decreases i,
{
    if i == 0 {
        assert(s.subrange(0, 0) =~= Seq::<char>::empty());
    } else {
        let t = s.drop_first();
        assert forall|j: int| 0 <= j < i - 1 implies t[j] != '<' by {
            assert(t[j] == s[j + 1]);
        }
        lemma_before_angle(t, i - 1);
        assert(seq![s[0]] + t.subrange(0, i - 1) =~= s.subrange(0, i));
    }
}

fn placeholder_binding(ident: &String) -> (r: Binding)
    ensures
        r@ == placeholder(ident@),
{
    Binding { param: ident.clone(), name: Some(ident.clone()), inline: Some(ident.clone()), flat: None }
}

fn declaration_env_exec(gens: &Vec<GenericParam>, cfg: &Config) -> (r: Vec<Binding>)
    ensures
        env_view(r@) =~= declaration_env(gens@, cfg@),
{
    let empty: Vec<Binding> = Vec::new();
    let mut out: Vec<Binding> = Vec::new();
    let n = gens.len();
    let mut i: usize = 0;
    while i < n
        invariant
            n == gens@.len(),
            i <= n,
            empty@.len() == 0,
            env_view(out@) =~= declaration_env(gens@, cfg@).take(i as int),
        decreases n - i,
    {
        let g = &gens[i];
        let b = match &g.concrete {
            Some(c) => {
                proof {
                    assert(env_view(empty@) =~= Seq::<BindingView>::empty());
                }
                Binding {
                    param: g.ident.clone(),
                    name: render_type(c, Mode::Name, &empty, cfg),
                    inline: render_type(c, Mode::Inline, &empty, cfg),
                    flat: render_type(c, Mode::Flat, &empty, cfg),
                }
            },
            None => placeholder_binding(&g.ident),
        };
        proof {
            assert(env_view(out@.push(b)) =~= env_view(out@).push(b@));
        }
        out.push(b);
        i = i + 1;
    }
    out
}

fn placeholder_env_exec(gens: &Vec<GenericParam>) -> (r: Vec<Binding>)
    ensures
        env_view(r@) =~= placeholder_env(gens@),
{
    let mut out: Vec<Binding> = Vec::new();
    let n = gens.len();
    let mut i: usize = 0;
    while i < n
        invariant
            n == gens@.len(),
            i <= n,
            env_view(out@) =~= placeholder_env(gens@).take(i as int),
        decreases n - i,
    {
        let b = placeholder_binding(&gens[i].ident);
        proof {
            assert(env_view(out@.push(b)) =~= env_view(out@).push(b@));
        }
        out.push(b);
        i = i + 1;
    }
    out
}

fn param_names_exec(gens: &Vec<GenericParam>, open_only: bool) -> (r: Vec<String>)
    ensures
        open_only ==> views(r@) =~= open_param_names(gens@, gens@.len() as int),
        !open_only ==> views(r@) =~= param_names(gens@),
{
    let mut out: Vec<String> = Vec::new();
    let n = gens.len();
    let mut i: usize = 0;
    while i < n
        invariant
            n == gens@.len(),
            i <= n,
            open_only ==> views(out@) =~= open_param_names(gens@, i as int),
            !open_only ==> views(out@) =~= param_names(gens@).take(i as int),
        decreases n - i,
    {
        if !open_only || gens[i].concrete.is_none() {
            let c = gens[i].ident.clone();
            proof {
                assert(views(out@.push(c)) =~= views(out@).push(c@));
            }
            out.push(c);
        }
        i = i + 1;
    }
    out
}

fn alias_exec(name: &str, inline: Option<String>) -> (r: Option<String>)
    ensures
        sv(r) == alias(name@, sv(inline)),
{
    match inline {
        Some(s) => {
            let mut t = cat3("type ", name, " = ");
            t.append(s.as_str());
            t.append(";");
            Some(t)
        },
        None => None,
    }
}

fn enum_suffix_exec(r: FlowEnumRepr) -> (s: &'static str)
    ensures
        s@ == enum_suffix(r),
{
    match r {
        FlowEnumRepr::Symbol => {
            proof {
                reveal_strlit("");
            }
            ""
        },
        FlowEnumRepr::String => " of string",
        FlowEnumRepr::Number => " of number",
        FlowEnumRepr::Boolean => " of boolean",
    }
}

fn bind_top(d: &TypeDef, args: &Vec<FlowType>, cfg: &Config) -> (r: Vec<Binding>)
    requires
        args@.len() == d.generics@.len(),
    ensures
        env_view(r@) == bind_args(d.generics, *args, args@.len() as int, Seq::empty(), cfg@),
        r@.len() == args@.len(),
{
    let empty: Vec<Binding> = Vec::new();
    proof {
        assert(env_view(empty@) =~= Seq::<BindingView>::empty());
    }
    let mut out: Vec<Binding> = Vec::new();
    let n = args.len();
    let mut i: usize = 0;
    while i < n
        invariant
            n == args@.len(),
            n == d.generics@.len(),
            i <= n,
            out@.len() == i,
            env_view(empty@) == Seq::<BindingView>::empty(),
            env_view(out@) == bind_args(d.generics, *args, i as int, Seq::empty(), cfg@),
        decreases n - i,
    {
        let a = &args[i];
        let b = Binding {
            param: d.generics[i].ident.clone(),
            name: render_type(a, Mode::Name, &empty, cfg),
            inline: render_type(a, Mode::Inline, &empty, cfg),
            flat: render_type(a, Mode::Flat, &empty, cfg),
        };
        proof {
            assert(env_view(out@.push(b)) =~= env_view(out@).push(b@));
        }
        out.push(b);
        i = i + 1;
    }
    out
}


fn is_newtype_exec(d: &TypeDef) -> (r: bool)
    ensures
        r == is_newtype(*d),
{
    match &d.data {
        Data::Struct(Fields::Unnamed(ts)) => ts.len() == 1,
        _ => false,
    }
}

fn opaque_bound_exec(d: &TypeDef, b: &Vec<Binding>, cfg: &Config) -> (r: Option<Option<String>>)
    ensures
        match r {
            Some(o) => opaque_bound(*d, env_view(b@), cfg@) == Some(sv(o)),
            None => opaque_bound(*d, env_view(b@), cfg@) is None,
        },
{
    match &d.attr.opaque {
        Some(Some(s)) => Some(Some(s.clone())),
        Some(None) => Some(None),
        None => match &d.data {
            Data::Struct(Fields::Unnamed(ts)) => {
                if ts.len() == 1 {
                    match render_type(&ts[0], Mode::Name, b, cfg) {
                        Some(s) => Some(Some(s)),
                        None => None,
                    }
                } else {
                    Some(None)
                }
            },
            _ => Some(None),
        },
    }
}

fn decl_defined_exec(d: &TypeDef, args: &Vec<FlowType>, cfg: &Config) -> (r: Option<String>)
    ensures
        sv(r) == decl_defined(*d, *args, cfg@),
{
    if check_derive(d).is_some() || args.len() != d.generics.len() {
        return None;
    }
    let b = bind_top(d, args, cfg);
    let plain = d.attr.type_override.is_none() && d.type_as.is_none();
    if plain && d.attr.flow_enum.is_some() {
        if let Data::Enum(vs) = &d.data {
            let ident = before_angle_exec(flow_name_exec(d).as_str());
            return match flow_enum_members_exec(d, vs) {
                Ok(members) => {
                    if members.len() == 0 {
                        Some(cat3("type ", ident.as_str(), " = empty;"))
                    } else {
                        let repr = d.attr.flow_enum.unwrap();
                        let mut s = cat3("enum ", ident.as_str(), enum_suffix_exec(repr));
                        s.append(" {\n");
                        let j = join_strings(&members, "\n");
                        s.append(j.as_str());
                        s.append("\n}");
                        Some(s)
                    }
                },
                Err(_) => None,
            };
        }
    }
    let opaque = plain && (d.attr.opaque.is_some() || (d.opaque_newtypes && is_newtype_exec(d)));
    if opaque {
        let bound = match opaque_bound_exec(d, &b, cfg) {
            Some(o) => o,
            None => {
                return None;
            },
        };
        let bound_str = match &bound {
            Some(s) => {
                let mut t = to_owned_string(": ");
                t.append(s.as_str());
                t
            },
            None => String::new(),
        };
        let fname = flow_name_exec(d);
        if d.generics.len() > 0 {
            let env = placeholder_env_exec(&d.generics);
            let names = param_names_exec(&d.generics, false);
            return match render_body_exec(d, Mode::Inline, &env, cfg) {
                Some(inl) => {
                    let mut s = cat3("opaque type ", fname.as_str(), "<");
                    let j = join_strings(&names, ", ");
                    s.append(j.as_str());
                    s.append(">");
                    s.append(bound_str.as_str());
                    s.append(" = ");
                    s.append(inl.as_str());
                    s.append(";");
                    Some(s)
                },
                None => None,
            };
        } else {
            return match render_body_exec(d, Mode::Inline, &b, cfg) {
                Some(inl) => {
                    let mut s = cat3("opaque type ", fname.as_str(), bound_str.as_str());
                    s.append(" = ");
                    s.append(inl.as_str());
                    s.append(";");
                    Some(s)
                },
                None => None,
            };
        }
    }
    if d.generics.len() > 0 {
        let names = param_names_exec(&d.generics, true);
        let env = declaration_env_exec(&d.generics, cfg);
        let inl = render_body_exec(d, Mode::Inline, &env, cfg);
        let fname = flow_name_exec(d);
        if names.len() == 0 {
            alias_exec(fname.as_str(), inl)
        } else {
            let j = join_strings(&names, ", ");
            let head = cat3(fname.as_str(), "<", j.as_str());
            let mut h = head;
            h.append(">");
            alias_exec(h.as_str(), inl)
        }
    } else {
        match crate::render::defined_name_exec(d, &b) {
            Some(n) => alias_exec(n.as_str(), render_body_exec(d, Mode::Inline, &b, cfg)),
            None => None,
        }
    }
}

/// Whether a type has text in the given mode.
pub open spec fn has_text(t: FlowType, m: Mode, cfg: ConfigView) -> bool {
    render(t, m, Seq::empty(), cfg) is Some
}

/// The text of a type in the given mode (meaningful where `has_text`).
pub open spec fn text_of(t: FlowType, m: Mode, cfg: ConfigView) -> Seq<char> {
    render(t, m, Seq::empty(), cfg).unwrap()
}

impl FlowType {
    /// The text of this type in the given mode, when it has one.
    pub fn try_render(&self, m: Mode, cfg: &Config) -> (r: Option<String>)
        ensures
            sv(r) == render(*self, m, Seq::empty(), cfg@),
    {
        let empty: Vec<Binding> = Vec::new();
        proof {
            assert(env_view(empty@) =~= Seq::<BindingView>::empty());
        }
        render_type(self, m, &empty, cfg)
    }

    fn text(&self, m: Mode, cfg: &Config) -> (r: String)
        requires
            has_text(*self, m, cfg@),
        ensures
            r@ == text_of(*self, m, cfg@),
    {
        match self.try_render(m, cfg) {
            Some(s) => s,
            None => String::new(),
        }
    }

    /// Flow type name, including generic parameters.
    pub fn name(&self, cfg: &Config) -> (r: String)
        requires
            has_text(*self, Mode::Name, cfg@),
        ensures
            r@ == text_of(*self, Mode::Name, cfg@),
    {
        self.text(Mode::Name, cfg)
    }

    /// Inline Flow type definition (the right-hand side of `type X = ...`).
    pub fn inline(&self, cfg: &Config) -> (r: String)
        requires
            has_text(*self, Mode::Inline, cfg@),
        ensures
            r@ == text_of(*self, Mode::Inline, cfg@),
    {
        self.text(Mode::Inline, cfg)
    }

    /// The form of this type flattened into another object.
    pub fn inline_flattened(&self, cfg: &Config) -> (r: String)
        requires
            has_text(*self, Mode::Flat, cfg@),
        ensures
            r@ == text_of(*self, Mode::Flat, cfg@),
    {
        self.text(Mode::Flat, cfg)
    }

    /// Identifier of this type, excluding generic parameters, when it has one.
    pub fn try_ident(&self, cfg: &Config) -> (r: Option<String>)
        ensures
            sv(r) == ident_of(*self, cfg@),
    {
        match self {
            FlowType::ReadOnlyArray(_) => Some(to_owned_string("$ReadOnlyArray")),
            FlowType::Dictionary(_, _) => None,
            FlowType::Range(_) => None,
            _ => match self.try_render(Mode::Name, cfg) {
                Some(s) => Some(before_angle_exec(s.as_str())),
                None => None,
            },
        }
    }

    /// Identifier of this type, excluding generic parameters.
    pub fn ident(&self, cfg: &Config) -> (r: String)
        requires
            ident_of(*self, cfg@) is Some,
        ensures
            r@ == ident_of(*self, cfg@).unwrap(),
    {
        match self.try_ident(cfg) {
            Some(s) => s,
            None => String::new(),
        }
    }

    /// Declaration of this type, e.g. `type User = {| user_id: number |};`,
    /// when it has one. A generic type is declared with its parameters.
    pub fn try_decl(&self, cfg: &Config) -> (r: Option<String>)
        ensures
            sv(r) == decl_of(*self, cfg@),
    {
        match self {
            FlowType::Json => Some(to_owned_string("type JsonValue = mixed;")),
            FlowType::Defined(d, args) => decl_defined_exec(d, args, cfg),
            _ => None,
        }
    }

    /// Declaration of this type, e.g. `type User = {| user_id: number |};`.
    pub fn decl(&self, cfg: &Config) -> (r: String)
        requires
            decl_of(*self, cfg@) is Some,
        ensures
            r@ == decl_of(*self, cfg@).unwrap(),
    {
        match self.try_decl(cfg) {
            Some(s) => s,
            None => String::new(),
        }
    }

    /// Declaration of this type using its own generic arguments, when it has one.
    pub fn try_decl_concrete(&self, cfg: &Config) -> (r: Option<String>)
        ensures
            sv(r) == decl_concrete_of(*self, cfg@),
    {
        match self {
            FlowType::Json => Some(to_owned_string("type JsonValue = mixed;")),
            FlowType::Defined(d, args) => {
                if check_derive(d).is_some() || args.len() != d.generics.len() {
                    return None;
                }
                let plain = d.attr.type_override.is_none() && d.type_as.is_none();
                let fe = plain && d.attr.flow_enum.is_some() && matches!(d.data, Data::Enum(_));
                let opaque = plain && (d.attr.opaque.is_some() || (d.opaque_newtypes && is_newtype_exec(d)));
                if opaque || fe {
                    decl_defined_exec(d, args, cfg)
                } else {
                    match self.try_render(Mode::Name, cfg) {
                        Some(n) => alias_exec(n.as_str(), self.try_render(Mode::Inline, cfg)),
                        None => None,
                    }
                }
            },
            _ => None,
        }
    }

    /// Declaration of this type using its own generic arguments.
    pub fn decl_concrete(&self, cfg: &Config) -> (r: String)
        requires
            decl_concrete_of(*self, cfg@) is Some,
        ensures
            r@ == decl_concrete_of(*self, cfg@).unwrap(),
    {
        match self.try_decl_concrete(cfg) {
            Some(s) => s,
            None => String::new(),
        }
    }

    /// JSDoc comment text of this type: the doc lines of a derived type.
    pub fn docs(&self) -> (r: Option<String>)
        ensures
            sv(r) == docs_of(*self),
    {
        match self {
            FlowType::Defined(d, _) => {
                if d.docs.len() == 0 {
                    return None;
                }
                let mut lines: Vec<String> = Vec::new();
                let n = d.docs.len();
                let mut i: usize = 0;
                while i < n
                    invariant
                        n == d.docs@.len(),
                        i <= n,
                        views(lines@) =~= d.docs@.map_values(|s: String| trim(s@)).take(i as int),
                    decreases n - i,
                {
                    let t = trim_str(d.docs[i].as_str());
                    proof {
                        assert(views(lines@.push(t)) =~= views(lines@).push(t@));
                    }
                    lines.push(t);
                    i = i + 1;
                }
                proof {
                    assert(d.docs@.map_values(|s: String| trim(s@)).take(n as int) =~= d.docs@.map_values(|s: String| trim(s@)));
                }
                Some(join_strings(&lines, "\n"))
            },
            _ => None,
        }
    }

    /// Output file path relative to the export directory, without extension.
    pub fn output_path(&self) -> (r: Option<String>)
        ensures
            sv(r) == output_path_of(*self),
    {
        match self {
            FlowType::Json => Some(to_owned_string("JsonValue")),
            FlowType::Defined(d, _) => {
                let fname = flow_name_exec(d);
                match &d.attr.export_to {
                    Some(p) => {
                        let n = p.as_str().unicode_len();
                        if n > 0 && p.as_str().get_char(n - 1) == '/' {
                            let mut s = p.clone();
                            s.append(fname.as_str());
                            Some(s)
                        } else {
                            Some(p.clone())
                        }
                    },
                    None => Some(fname),
                }
            },
            _ => None,
        }
    }

    /// Whether this is an enum type (`IS_ENUM`).
    pub fn is_enum(&self) -> (r: bool)
        ensures
            r == is_enum_of(*self),
    {
        match self {
            FlowType::Defined(d, _) => d.attr.type_override.is_none() && d.type_as.is_none() && matches!(d.data, Data::Enum(_)),
            _ => false,
        }
    }

    /// Whether this is `Option<T>` (`IS_OPTION`).
    pub fn is_option(&self) -> (r: bool)
        ensures
            r == (*self is Nullable),
    {
        matches!(self, FlowType::Nullable(_))
    }
}

} // verus!
