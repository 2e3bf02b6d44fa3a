//! Rendering of Flow type text: the executable counterpart of the
//! specification in [`crate::model`].

use vstd::prelude::*;
use crate::attr::{ContainerAttr, FlowEnumRepr, Optional, apply_renaming};
use crate::config::Config;
use crate::model::{FlowType, GenericParam, Discriminant, Fields, FieldDef, VariantDef, Data, TypeDef, Mode, BindingView, FieldCtx, DeriveError, sv, wrap, prim, lookup, dict_text, result_text, tuple_text, range_text, fn_params, fn_text, repeat_text, flow_name, named_args, all_some, binding_names, unwrap_all, defined_name, field_key, field_head, variant_shape, tuple_variant_shape, variant_object, named_variant_shape, variant_raw_name, variant_field_ctx, struct_field_ctx, quoted_opt, exact_object, struct_inline, struct_flat, strip_parens, render, render_list, bind_args, render_defined, render_body, field_core, field_entries, variant_defs, variant_def, MembersState, member_value, flow_enum_members, active_variants, all_unit, derive_error};
use crate::strings::{views, join_strings, format_u64, format_i64, to_owned_string, trim_str};
use crate::utils::{escape_string_literal, quote_property_name};

verus! {

/// What a generic parameter stands for while a derived type is rendered:
/// the parameter's name and the texts of the argument bound to it.
pub struct Binding {
    pub param: String,
    pub name: Option<String>,
    pub inline: Option<String>,
    pub flat: Option<String>,
}

impl View for Binding {
    type V = BindingView;

    open spec fn view(&self) -> BindingView {
        BindingView { param: self.param@, name: sv(self.name), inline: sv(self.inline), flat: sv(self.flat) }
    }
}

/// The views of a sequence of bindings.
pub open spec fn env_view(env: Seq<Binding>) -> Seq<BindingView> {
    env.map_values(|b: Binding| b@)
}

/// The views of an optional list of strings.
pub open spec fn svs(o: Option<Vec<String>>) -> Option<Seq<Seq<char>>> {
    match o {
        Some(v) => Some(views(v@)),
        None => None,
    }
}

fn own(s: &str) -> (r: String)
    ensures
        r@ == s@,
{
    to_owned_string(s)
}

fn cat3(a: &str, b: &str, c: &str) -> (r: String)
    ensures
        r@ == a@ + b@ + c@,
{
    let mut s = own(a);
    s.append(b);
    s.append(c);
    s
}

fn opt_clone(o: &Option<String>) -> (r: Option<String>)
    ensures
        sv(r) == sv(*o),
{
    match o {
        Some(s) => Some(s.clone()),
        None => None,
    }
}

fn prim_exec(m: Mode, s: &str) -> (r: Option<String>)
    ensures
        sv(r) == prim(m, s@),
{
    match m {
        Mode::Flat => None,
        _ => Some(own(s)),
    }
}

fn wrap_exec(pre: &str, o: Option<String>, post: &str) -> (r: Option<String>)
    ensures
        sv(r) == wrap(pre@, sv(o), post@),
{
    match o {
        Some(s) => Some(cat3(pre, s.as_str(), post)),
        None => None,
    }
}

fn lookup_exec(env: &Vec<Binding>, x: &str, m: Mode) -> (r: Option<String>)
    ensures
        sv(r) == lookup(env_view(env@), x@, m),
{
    let ghost ev = env_view(env@);
    let n = env.len();
    let mut i: usize = 0;
    proof {
        assert(ev.subrange(0, n as int) =~= ev);
    }
    while i < n
        invariant
            n == env@.len(),
            ev == env_view(env@),
            i <= n,
            lookup(ev, x@, m) == lookup(ev.subrange(i as int, n as int), x@, m),
        decreases n - i,
    {
        proof {
            assert(ev.subrange(i as int, n as int).drop_first() =~= ev.subrange(i + 1, n as int));
            assert(ev.subrange(i as int, n as int)[0] == env@[i as int]@);
        }
        let b = &env[i];
        if crate::strings::str_equal(b.param.as_str(), x) {
            return match m {
                Mode::Name => opt_clone(&b.name),
                Mode::Inline => opt_clone(&b.inline),
                Mode::Flat => opt_clone(&b.flat),
            };
        }
        i = i + 1;
    }
    prim_exec(m, x)
}

fn dict_exec(k: Option<String>, v: Option<String>) -> (r: Option<String>)
    ensures
        sv(r) == dict_text(sv(k), sv(v)),
{
    match (k, v) {
        (Some(a), Some(b)) => {
            let mut s = cat3("{ [key: ", a.as_str(), "]: ");
            s.append(b.as_str());
            s.append(" }");
            Some(s)
        },
        _ => None,
    }
}

fn result_exec(a: Option<String>, e: Option<String>) -> (r: Option<String>)
    ensures
        sv(r) == result_text(sv(a), sv(e)),
{
    match (a, e) {
        (Some(x), Some(y)) => {
            let mut s = cat3("{| Ok: ", x.as_str(), " |} | {| Err: ");
            s.append(y.as_str());
            s.append(" |}");
            Some(s)
        },
        _ => None,
    }
}

fn tuple_exec(parts: Option<Vec<String>>) -> (r: Option<String>)
    ensures
        sv(r) == tuple_text(svs(parts)),
{
    match parts {
        Some(p) => {
            let j = join_strings(&p, ", ");
            Some(cat3("[", j.as_str(), "]"))
        },
        None => None,
    }
}

fn range_exec(a: Option<String>) -> (r: Option<String>)
    ensures
        sv(r) == range_text(sv(a)),
{
    match a {
        Some(s) => {
            let mut t = cat3("{ +start: ", s.as_str(), ", +end: ");
            t.append(s.as_str());
            t.append(" }");
            Some(t)
        },
        None => None,
    }
}

fn fn_exec(args: Option<Vec<String>>, r: Option<String>) -> (out: Option<String>)
    ensures
        sv(out) == fn_text(svs(args), sv(r)),
{
    match (args, r) {
        (Some(p), Some(ret)) => {
            let mut params: Vec<String> = Vec::new();
            let n = p.len();
            let mut i: usize = 0;
            while i < n
                invariant
                    n == p@.len(),
                    i <= n,
                    views(params@) =~= fn_params(views(p@)).take(i as int),
                decreases n - i,
            {
                let num = format_u64(i as u64);
                let mut one = cat3("arg", num.as_str(), ": ");
                one.append(p[i].as_str());
                proof {
                    assert(views(params@.push(one)) =~= views(params@).push(one@));
                    assert(fn_params(views(p@)).take(i + 1) =~= fn_params(views(p@)).take(i as int).push(
                        fn_params(views(p@))[i as int],
                    ));
                }
                params.push(one);
                i = i + 1;
            }
            let j = join_strings(&params, ", ");
            let mut s = cat3("(", j.as_str(), ") => ");
            s.append(ret.as_str());
            proof {
                assert(fn_params(views(p@)).take(n as int) =~= fn_params(views(p@)));
            }
            Some(s)
        },
        _ => None,
    }
}

fn repeat_exec(o: Option<String>, n: usize) -> (r: Option<String>)
    ensures
        sv(r) == repeat_text(sv(o), n as nat),
{
    match o {
        Some(s) => {
            let mut parts: Vec<String> = Vec::new();
            let mut i: usize = 0;
            while i < n
                invariant
                    i <= n,
                    views(parts@) =~= Seq::new(i as nat, |k: int| s@),
                decreases n - i,
            {
                let c = s.clone();
                proof {
                    assert(views(parts@.push(c)) =~= views(parts@).push(c@));
                    assert(Seq::new((i + 1) as nat, |k: int| s@) =~= Seq::new(i as nat, |k: int| s@).push(s@));
                }
                parts.push(c);
                i = i + 1;
            }
            let j = join_strings(&parts, ", ");
            Some(cat3("[", j.as_str(), "]"))
        },
        None => None,
    }
}

/// The text of `t` in mode `m`, with generic parameters bound by `env`.
pub fn render_type(t: &FlowType, m: Mode, env: &Vec<Binding>, cfg: &Config) -> (r: Option<String>)
    ensures
        sv(r) == render(*t, m, env_view(env@), cfg@),
    decreases t, 1nat,
{
    match t {
        FlowType::Boolean => prim_exec(m, "boolean"),
        FlowType::Number => prim_exec(m, "number"),
        FlowType::LargeInt => prim_exec(m, cfg.large_int()),
        FlowType::Text => prim_exec(m, "string"),
        FlowType::Null => prim_exec(m, "null"),
        FlowType::Never => prim_exec(m, "empty"),
        FlowType::Void => prim_exec(m, "void"),
        FlowType::Any => prim_exec(m, "any"),
        FlowType::Json => match m {
            Mode::Name => Some(own("JsonValue")),
            Mode::Inline => Some(own("mixed")),
            Mode::Flat => None,
        },
        FlowType::Duration => prim_exec(m, "{| +secs: number, +nanos: number |}"),
        FlowType::Param(x) => lookup_exec(env, x.as_str(), m),
        FlowType::Nullable(a) => match m {
            Mode::Flat => None,
            _ => wrap_exec("?", render_type(a, m, env, cfg), ""),
        },
        FlowType::ReadOnlyArray(a) => match m {
            Mode::Flat => None,
            _ => wrap_exec("$ReadOnlyArray<", render_type(a, m, env, cfg), ">"),
        },
        FlowType::Dictionary(k, v) => match m {
            Mode::Flat => {
                let kk = render_type(k, Mode::Inline, env, cfg);
                let vv = render_type(v, Mode::Inline, env, cfg);
                wrap_exec("(", dict_exec(kk, vv), ")")
            },
            _ => {
                let kk = render_type(k, m, env, cfg);
                let vv = render_type(v, m, env, cfg);
                dict_exec(kk, vv)
            },
        },
        FlowType::Tuple(ts) => match m {
            Mode::Flat => wrap_exec("(", tuple_exec(render_types(ts, Mode::Inline, env, cfg)), ")"),
            _ => tuple_exec(render_types(ts, m, env, cfg)),
        },
        FlowType::Array(a, n) => match m {
            Mode::Flat => None,
            _ => if *n > cfg.array_tuple_limit() {
                wrap_exec("$ReadOnlyArray<", render_type(a, m, env, cfg), ">")
            } else {
                repeat_exec(render_type(a, m, env, cfg), *n)
            },
        },
        FlowType::ResultOf(a, e) => match m {
            Mode::Flat => None,
            _ => {
                let aa = render_type(a, m, env, cfg);
                let ee = render_type(e, m, env, cfg);
                result_exec(aa, ee)
            },
        },
        FlowType::Transparent(a) => render_type(a, m, env, cfg),
        FlowType::Range(a) => match m {
            Mode::Flat => wrap_exec("(", range_exec(render_type(a, Mode::Inline, env, cfg)), ")"),
            _ => range_exec(render_type(a, m, env, cfg)),
        },
        FlowType::Function(args, r) => match m {
            Mode::Flat => None,
            _ => {
                let aa = render_types(args, m, env, cfg);
                let rr = render_type(r, m, env, cfg);
                fn_exec(aa, rr)
            },
        },
        FlowType::Defined(_, _) => render_defined_exec(t, m, env, cfg),
    }
}

/// The texts of all of `ts` in mode `m`, when all exist.
pub fn render_types(ts: &Vec<FlowType>, m: Mode, env: &Vec<Binding>, cfg: &Config) -> (r: Option<Vec<String>>)
    ensures
        svs(r) == render_list(*ts, ts@.len() as int, m, env_view(env@), cfg@),
    decreases ts, 0nat,
{
    let mut out: Vec<String> = Vec::new();
    let mut ok = true;
    let n = ts.len();
    let mut i: usize = 0;
    while i < n
        invariant
            n == ts@.len(),
            i <= n,
            ok ==> render_list(*ts, i as int, m, env_view(env@), cfg@) == Some(views(out@)),
            !ok ==> render_list(*ts, i as int, m, env_view(env@), cfg@) is None,
        decreases n - i,
    {
        proof {
            assert(decreases_to!(*ts => ts@));
            assert(decreases_to!(ts@ => ts@[i as int]));
        }
        let s = render_type(&ts[i], m, env, cfg);
        match s {
            Some(x) => {
                if ok {
                    proof {
                        assert(views(out@.push(x)) =~= views(out@).push(x@));
                    }
                    out.push(x);
                }
            },
            None => {
                ok = false;
            },
        }
        i = i + 1;
    }
    if ok {
        Some(out)
    } else {
        None
    }
}


/// The Flow name of a derived type, without generic arguments.
pub fn flow_name_exec(d: &TypeDef) -> (r: String)
    ensures
        r@ == flow_name(*d),
{
    match &d.attr.rename {
        Some(n) => n.clone(),
        None => d.ident.clone(),
    }
}

fn bind_args_exec(gens: &Vec<GenericParam>, args: &Vec<FlowType>, env: &Vec<Binding>, cfg: &Config) -> (r: Vec<Binding>)
    requires
        gens@.len() == args@.len(),
    ensures
        r@.len() == args@.len(),
        env_view(r@) == bind_args(*gens, *args, args@.len() as int, env_view(env@), cfg@),
    decreases args, 0nat,
{
    let mut out: Vec<Binding> = Vec::new();
    let n = args.len();
    let mut i: usize = 0;
    while i < n
        invariant
            n == args@.len(),
            n == gens@.len(),
            i <= n,
            out@.len() == i,
            env_view(out@) == bind_args(*gens, *args, i as int, env_view(env@), cfg@),
        decreases n - i,
    {
        proof {
            assert(decreases_to!(*args => args@));
            assert(decreases_to!(args@ => args@[i as int]));
        }
        let a = &args[i];
        let name = render_type(a, Mode::Name, env, cfg);
        let inline = render_type(a, Mode::Inline, env, cfg);
        let flat = render_type(a, Mode::Flat, env, cfg);
        let b = Binding { param: gens[i].ident.clone(), name, inline, flat };
        proof {
            assert(env_view(out@.push(b)) =~= env_view(out@).push(b@));
        }
        out.push(b);
        i = i + 1;
    }
    out
}

proof fn lemma_push_shown(s: Seq<Option<Seq<char>>>, x: Option<Seq<char>>)
    ensures
        all_some(s.push(x)) == (all_some(s) && x is Some),
        x is Some ==> unwrap_all(s.push(x)) =~= unwrap_all(s).push(x.unwrap()),
{
    if all_some(s) && x is Some {
        assert forall|j: int| 0 <= j < s.push(x).len() implies #[trigger] s.push(x)[j] is Some by {
            if j < s.len() {
                assert(s.push(x)[j] == s[j]);
            }
        }
    }
    if all_some(s.push(x)) {
        assert forall|j: int| 0 <= j < s.len() implies #[trigger] s[j] is Some by {
            assert(s.push(x)[j] == s[j]);
        }
        assert(s.push(x)[s.len() as int] == x);
    }
}

pub(crate) fn defined_name_exec(d: &TypeDef, b: &Vec<Binding>) -> (r: Option<String>)
    requires
        b@.len() == d.generics@.len(),
    ensures
        sv(r) == defined_name(*d, env_view(b@)),
{
    let ghost bv = env_view(b@);
    let mut names: Vec<String> = Vec::new();
    let mut ok = true;
    let n = b.len();
    let mut i: usize = 0;
    while i < n
        invariant
            bv == env_view(b@),
            n == b@.len(),
            n == d.generics@.len(),
            i <= n,
            ok ==> all_some(binding_names(named_args(d.generics@, bv, i as int))),
            ok ==> views(names@) == unwrap_all(binding_names(named_args(d.generics@, bv, i as int))),
            !ok ==> !all_some(binding_names(named_args(d.generics@, bv, i as int))),
        decreases n - i,
    {
        let ghost before = binding_names(named_args(d.generics@, bv, i as int));
        if d.generics[i].concrete.is_none() {
            proof {
                assert(named_args(d.generics@, bv, i + 1) == named_args(d.generics@, bv, i as int).push(bv[i as int]));
                assert(binding_names(named_args(d.generics@, bv, i + 1)) =~= before.push(bv[i as int].name));
                lemma_push_shown(before, bv[i as int].name);
            }
            match &b[i].name {
                Some(s) => {
                    if ok {
                        let c = s.clone();
                        proof {
                            assert(views(names@.push(c)) =~= views(names@).push(c@));
                        }
                        names.push(c);
                    }
                },
                None => {
                    ok = false;
                },
            }
        } else {
            proof {
                assert(named_args(d.generics@, bv, i + 1) == named_args(d.generics@, bv, i as int));
            }
        }
        i = i + 1;
    }
    proof {
        assert(bv.len() == n);
    }
    let fname = flow_name_exec(d);
    if !ok {
        proof {
            assert(binding_names(named_args(d.generics@, bv, n as int)).len() > 0) by {
                if binding_names(named_args(d.generics@, bv, n as int)).len() == 0 {
                    assert(all_some(binding_names(named_args(d.generics@, bv, n as int))));
                }
            }
        }
        None
    } else if names.len() == 0 {
        Some(fname)
    } else {
        let j = join_strings(&names, ", ");
        let mut s = fname;
        s.append("<");
        s.append(j.as_str());
        s.append(">");
        Some(s)
    }
}

/// The text of a derived type `t` (a `FlowType::Defined`).
fn render_defined_exec(t: &FlowType, m: Mode, env: &Vec<Binding>, cfg: &Config) -> (r: Option<String>)
    ensures
        sv(r) == render_defined(*t, m, env_view(env@), cfg@),
    decreases t, 0nat,
{
    match t {
        FlowType::Defined(d, args) => {
            if check_derive(d).is_some() || args.len() != d.generics.len() {
                return None;
            }
            proof {
                assert(decreases_to!(*t => (*t)->Defined_1));
            }
            let b = bind_args_exec(&d.generics, args, env, cfg);
            match m {
                Mode::Name => defined_name_exec(d, &b),
                _ => {
                    proof {
                        assert(decreases_to!(*t => (*t)->Defined_0));
                    }
                    render_body_exec(d, m, &b, cfg)
                },
            }
        },
        _ => None,
    }
}

fn struct_inline_exec(fd: &Vec<String>, fl: &Vec<String>) -> (r: String)
    ensures
        r@ == struct_inline(views(fd@), views(fl@)),
{
    if fd.len() == 0 && fl.len() == 0 {
        own("{||}")
    } else if fl.len() == 0 {
        exact_object_exec(fd)
    } else if fd.len() == 0 && fl.len() == 1 {
        strip_parens_exec(fl[0].as_str())
    } else if fd.len() == 0 {
        join_strings(fl, " & ")
    } else {
        let mut s = exact_object_exec(fd);
        s.append(" & ");
        let j = join_strings(fl, " & ");
        s.append(j.as_str());
        s
    }
}

fn struct_flat_exec(fd: &Vec<String>, fl: &Vec<String>) -> (r: String)
    ensures
        r@ == struct_flat(views(fd@), views(fl@)),
{
    if fl.len() == 0 {
        exact_object_exec(fd)
    } else if fd.len() == 0 {
        join_strings(fl, " & ")
    } else {
        let mut s = exact_object_exec(fd);
        s.append(" & ");
        let j = join_strings(fl, " & ");
        s.append(j.as_str());
        s
    }
}

fn exact_object_exec(fd: &Vec<String>) -> (r: String)
    ensures
        r@ == exact_object(views(fd@)),
{
    let j = join_strings(fd, ", ");
    cat3("{| ", j.as_str(), " |}")
}

fn strip_parens_exec(f: &str) -> (r: String)
    ensures
        r@ == strip_parens(f@),
{
    let n = f.unicode_len();
    if n >= 2 && f.get_char(0) == '(' && f.get_char(n - 1) == ')' {
        let inner = f.substring_char(1, n - 1);
        trim_str(inner)
    } else {
        trim_str(f)
    }
}

fn struct_ctx(c: &ContainerAttr) -> (r: FieldCtx)
    ensures
        r == struct_field_ctx(*c),
{
    FieldCtx { inflection: c.rename_all, optional: c.optional_fields, force_inline: false }
}

fn variant_ctx(v: &VariantDef, c: &ContainerAttr) -> (r: FieldCtx)
    ensures
        r == variant_field_ctx(*v, *c),
{
    let inflection = match v.attr.rename_all {
        Some(i) => Some(i),
        None => match c.rename_all_fields {
            Some(i) => Some(i),
            None => c.rename_all,
        },
    };
    let optional = match v.attr.optional_fields {
        Optional::Inherit => c.optional_fields,
        o => o,
    };
    FieldCtx { inflection, optional, force_inline: v.attr.inline }
}

/// The inline (or flattened) text of the body of a derived type.
pub(crate) fn render_body_exec(d: &TypeDef, m: Mode, b: &Vec<Binding>, cfg: &Config) -> (r: Option<String>)
    ensures
        sv(r) == render_body(*d, m, env_view(b@), cfg@),
    decreases d, 0nat,
{
    if let Some(s) = &d.attr.type_override {
        return match m {
            Mode::Flat => Some(cat3("(", s.as_str(), ")")),
            _ => Some(s.clone()),
        };
    }
    if let Some(ta) = &d.type_as {
        proof {
            assert(decreases_to!(*d => d.type_as));
            assert(decreases_to!(d.type_as => d.type_as->Some_0));
        }
        let s = render_type(ta, Mode::Inline, b, cfg);
        return match m {
            Mode::Flat => wrap_exec("(", s, ")"),
            _ => s,
        };
    }
    match &d.data {
        Data::Struct(Fields::Named(fs)) => {
            proof {
                assert(decreases_to!(*d => d.data));
                assert(decreases_to!(d.data => d.data->Struct_0));
                assert(decreases_to!(d.data->Struct_0 => d.data->Struct_0->Named_0));
            }
            let ctx = struct_ctx(&d.attr);
            match field_entries_exec(fs, ctx, b, cfg) {
                Some((fd, fl)) => match m {
                    Mode::Flat => Some(struct_flat_exec(&fd, &fl)),
                    _ => Some(struct_inline_exec(&fd, &fl)),
                },
                None => None,
            }
        },
        Data::Struct(Fields::Unnamed(ts)) => {
            proof {
                assert(decreases_to!(*d => d.data));
                assert(decreases_to!(d.data => d.data->Struct_0));
                assert(decreases_to!(d.data->Struct_0 => d.data->Struct_0->Unnamed_0));
                assert(decreases_to!(*ts => ts@));
            }
            if ts.len() == 1 {
                proof {
                    assert(decreases_to!(ts@ => ts@[0]));
                }
                let s = render_type(&ts[0], Mode::Inline, b, cfg);
                match m {
                    Mode::Flat => wrap_exec("(", s, ")"),
                    _ => s,
                }
            } else {
                let s = tuple_exec(render_types(ts, Mode::Inline, b, cfg));
                match m {
                    Mode::Flat => wrap_exec("(", s, ")"),
                    _ => s,
                }
            }
        },
        Data::Struct(Fields::Unit) => Some(own("null")),
        Data::Enum(vs) => {
            if d.attr.flow_enum.is_some() {
                match flow_enum_members_exec(d, vs) {
                    Ok(members) => {
                        if members.len() == 0 {
                            Some(own("empty"))
                        } else {
                            let n = flow_name_exec(d);
                            match m {
                                Mode::Flat => Some(cat3("(", n.as_str(), ")")),
                                _ => Some(n),
                            }
                        }
                    },
                    Err(_) => None,
                }
            } else {
                proof {
                    assert(decreases_to!(*d => d.data));
                    assert(decreases_to!(d.data => d.data->Enum_0));
                }
                let inl = if vs.len() == 0 {
                    Some(own("empty"))
                } else {
                    match variant_defs_exec(vs, &d.attr, b, cfg) {
                        Some(defs) => if defs.len() == 0 {
                            Some(own("empty"))
                        } else {
                            Some(join_strings(&defs, " | "))
                        },
                        None => None,
                    }
                };
                match m {
                    Mode::Flat => wrap_exec("(", inl, ")"),
                    _ => inl,
                }
            }
        },
        Data::Union => None,
    }
}

fn field_head_exec(f: &FieldDef, ctx: FieldCtx) -> (r: String)
    ensures
        r@ == field_head(*f, ctx),
{
    let raw = match &f.attr.rename {
        Some(r) => r.clone(),
        None => apply_renaming(&ctx.inflection, f.ident.as_str()),
    };
    let key = quote_property_name(raw.as_str());
    let mut s = if f.attr.readonly { own("+") } else { String::new() };
    s.append(key.as_str());
    if f.attr.is_optional(&ctx.optional) {
        s.append("?");
    }
    s.append(": ");
    s
}

fn field_core_exec(f: &FieldDef, ctx: FieldCtx, b: &Vec<Binding>, cfg: &Config) -> (r: Option<String>)
    ensures
        sv(r) == field_core(*f, ctx, env_view(b@), cfg@),
    decreases f, 0nat,
{
    let m = if f.attr.inline || ctx.force_inline {
        Mode::Inline
    } else {
        Mode::Name
    };
    let head = field_head_exec(f, ctx);
    if let Some(s) = &f.attr.type_override {
        let mut out = head;
        out.append(s.as_str());
        Some(out)
    } else if let Some(ta) = &f.type_as {
        proof {
            assert(decreases_to!(*f => f.type_as));
            assert(decreases_to!(f.type_as => f.type_as->Some_0));
        }
        wrap_exec(head.as_str(), render_type(ta, m, b, cfg), "")
    } else {
        wrap_exec(head.as_str(), render_type(&f.ty, m, b, cfg), "")
    }
}

fn field_entries_exec(fs: &Vec<FieldDef>, ctx: FieldCtx, b: &Vec<Binding>, cfg: &Config) -> (r: Option<(Vec<String>, Vec<String>)>)
    ensures
        match r {
            Some((fd, fl)) => field_entries(*fs, fs@.len() as int, ctx, env_view(b@), cfg@) == Some((views(fd@), views(fl@))),
            None => field_entries(*fs, fs@.len() as int, ctx, env_view(b@), cfg@) is None,
        },
    decreases fs, 0nat,
{
    let mut fd: Vec<String> = Vec::new();
    let mut fl: Vec<String> = Vec::new();
    let mut ok = true;
    let n = fs.len();
    let mut i: usize = 0;
    while i < n
        invariant
            n == fs@.len(),
            i <= n,
            ok ==> field_entries(*fs, i as int, ctx, env_view(b@), cfg@) == Some((views(fd@), views(fl@))),
            !ok ==> field_entries(*fs, i as int, ctx, env_view(b@), cfg@) is None,
        decreases n - i,
    {
        proof {
            assert(decreases_to!(*fs => fs@));
            assert(decreases_to!(fs@ => fs@[i as int]));
        }
        let f = &fs[i];
        if f.attr.skip {
        } else if f.attr.flatten {
            match render_type(&f.ty, Mode::Flat, b, cfg) {
                Some(s) => {
                    if ok {
                        proof {
                            assert(views(fl@.push(s)) =~= views(fl@).push(s@));
                        }
                        fl.push(s);
                    }
                },
                None => {
                    ok = false;
                },
            }
        } else {
            match field_core_exec(f, ctx, b, cfg) {
                Some(core) => {
                    if ok {
                        proof {
                            assert(views(fd@.push(core)) =~= views(fd@).push(core@));
                        }
                        fd.push(core);
                    }
                },
                None => {
                    ok = false;
                },
            }
        }
        i = i + 1;
    }
    if ok {
        Some((fd, fl))
    } else {
        None
    }
}

fn quoted_opt_exec(o: &Option<String>) -> (r: Option<String>)
    ensures
        sv(r) == quoted_opt(*o),
{
    match o {
        Some(s) => Some(quote_property_name(s.as_str())),
        None => None,
    }
}

fn variant_shape_exec(untagged: bool, tag: &Option<String>, vn: &str, key: &str, t: &str) -> (r: String)
    ensures
        r@ == variant_shape(untagged, sv(*tag), vn@, key@, t@),
{
    if untagged {
        own(t)
    } else {
        match tag {
            Some(tg) => {
                let mut s = cat3("{| ", tg.as_str(), ": '");
                s.append(vn);
                s.append("' |} & ");
                s.append(t);
                s
            },
            None => {
                let mut s = cat3("{| ", key, ": ");
                s.append(t);
                s.append(" |}");
                s
            },
        }
    }
}

fn tuple_variant_shape_exec(
    untagged: bool,
    tag: &Option<String>,
    content: &Option<String>,
    single: bool,
    vn: &str,
    key: &str,
    t: &str,
) -> (r: String)
    ensures
        r@ == tuple_variant_shape(untagged, sv(*tag), sv(*content), single, vn@, key@, t@),
{
    if untagged {
        own(t)
    } else if tag.is_some() && content.is_some() {
        let tg = tag.as_ref().unwrap();
        let ct = content.as_ref().unwrap();
        let mut s = cat3("{| ", tg.as_str(), ": '");
        s.append(vn);
        s.append("', ");
        s.append(ct.as_str());
        s.append(": ");
        s.append(t);
        s.append(" |}");
        s
    } else if single && tag.is_some() {
        let tg = tag.as_ref().unwrap();
        let mut s = cat3("{| ", tg.as_str(), ": '");
        s.append(vn);
        s.append("' |} & ");
        s.append(t);
        s
    } else {
        let mut s = cat3("{| ", key, ": ");
        s.append(t);
        s.append(" |}");
        s
    }
}

fn variant_object_exec(fd: &Vec<String>, fl: &Vec<String>) -> (r: String)
    ensures
        r@ == variant_object(views(fd@), views(fl@)),
{
    if fl.len() == 0 {
        let j = join_strings(fd, ", ");
        cat3("{| ", j.as_str(), " |}")
    } else if fd.len() == 0 {
        join_strings(fl, " & ")
    } else {
        let j = join_strings(fd, ", ");
        let mut s = cat3("{| ", j.as_str(), " |} & ");
        let k = join_strings(fl, " & ");
        s.append(k.as_str());
        s
    }
}

fn named_variant_shape_exec(
    untagged: bool,
    tag: &Option<String>,
    content: &Option<String>,
    vn: &str,
    key: &str,
    fd: &Vec<String>,
    fl: &Vec<String>,
) -> (r: String)
    ensures
        r@ == named_variant_shape(untagged, sv(*tag), sv(*content), vn@, key@, views(fd@), views(fl@)),
{
    if untagged {
        variant_object_exec(fd, fl)
    } else if tag.is_some() && content.is_some() {
        let tg = tag.as_ref().unwrap();
        let ct = content.as_ref().unwrap();
        let obj = variant_object_exec(fd, fl);
        let mut s = cat3("{| ", tg.as_str(), ": '");
        s.append(vn);
        s.append("', ");
        s.append(ct.as_str());
        s.append(": ");
        s.append(obj.as_str());
        s.append(" |}");
        s
    } else if tag.is_some() {
        let tg = tag.as_ref().unwrap();
        let mut first = cat3(tg.as_str(), ": '", vn);
        first.append("'");
        let ghost g = first@;
        let mut all: Vec<String> = Vec::new();
        all.push(first);
        let mut i: usize = 0;
        proof {
            assert(views(all@) =~= seq![g] + views(fd@).take(0));
        }
        while i < fd.len()
            invariant
                i <= fd@.len(),
                views(all@) =~= seq![g] + views(fd@).take(i as int),
            decreases fd@.len() - i,
        {
            let c = fd[i].clone();
            proof {
                assert(views(all@.push(c)) =~= views(all@).push(c@));
                assert((seq![g] + views(fd@).take(i as int)).push(views(fd@)[i as int]) =~= seq![g] + views(fd@).take(i + 1));
            }
            all.push(c);
            i = i + 1;
        }
        proof {
            assert(views(fd@).take(fd@.len() as int) =~= views(fd@));
        }
        variant_object_exec(&all, fl)
    } else {
        let obj = variant_object_exec(fd, fl);
        let mut s = cat3("{| ", key, ": ");
        s.append(obj.as_str());
        s.append(" |}");
        s
    }
}

fn variant_defs_exec(vs: &Vec<VariantDef>, c: &ContainerAttr, b: &Vec<Binding>, cfg: &Config) -> (r: Option<Vec<String>>)
    ensures
        svs(r) == variant_defs(*vs, vs@.len() as int, *c, env_view(b@), cfg@),
    decreases vs, 0nat,
{
    let mut out: Vec<String> = Vec::new();
    let mut ok = true;
    let n = vs.len();
    let mut i: usize = 0;
    while i < n
        invariant
            n == vs@.len(),
            i <= n,
            ok ==> variant_defs(*vs, i as int, *c, env_view(b@), cfg@) == Some(views(out@)),
            !ok ==> variant_defs(*vs, i as int, *c, env_view(b@), cfg@) is None,
        decreases n - i,
    {
        proof {
            assert(decreases_to!(*vs => vs@));
            assert(decreases_to!(vs@ => vs@[i as int]));
        }
        if !vs[i].attr.skip {
            match variant_def_exec(&vs[i], c, b, cfg) {
                Some(s) => {
                    if ok {
                        proof {
                            assert(views(out@.push(s)) =~= views(out@).push(s@));
                        }
                        out.push(s);
                    }
                },
                None => {
                    ok = false;
                },
            }
        }
        i = i + 1;
    }
    if ok {
        Some(out)
    } else {
        None
    }
}

fn variant_def_exec(v: &VariantDef, c: &ContainerAttr, b: &Vec<Binding>, cfg: &Config) -> (r: Option<String>)
    ensures
        sv(r) == variant_def(*v, *c, env_view(b@), cfg@),
    decreases v, 0nat,
{
    let raw = match &v.attr.rename {
        Some(r) => r.clone(),
        None => c.rename_variant(v.ident.as_str()),
    };
    let vn = escape_string_literal(raw.as_str());
    let key = quote_property_name(raw.as_str());
    let untagged = c.untagged || v.attr.untagged;
    let tag = quoted_opt_exec(&c.tag);
    let content = quoted_opt_exec(&c.content);
    if let Some(s) = &v.attr.type_override {
        return Some(variant_shape_exec(untagged, &tag, vn.as_str(), key.as_str(), s.as_str()));
    }
    if let Some(ta) = &v.type_as {
        proof {
            assert(decreases_to!(*v => v.type_as));
            assert(decreases_to!(v.type_as => v.type_as->Some_0));
        }
        return match render_type(ta, Mode::Inline, b, cfg) {
            Some(s) => Some(variant_shape_exec(untagged, &tag, vn.as_str(), key.as_str(), s.as_str())),
            None => None,
        };
    }
    match &v.fields {
        Fields::Unit => {
            if untagged {
                Some(own("null"))
            } else if tag.is_some() {
                let tg = tag.as_ref().unwrap();
                let mut s = cat3("{| ", tg.as_str(), ": '");
                s.append(vn.as_str());
                s.append("' |}");
                Some(s)
            } else {
                Some(cat3("'", vn.as_str(), "'"))
            }
        },
        Fields::Unnamed(ts) => {
            proof {
                assert(decreases_to!(*v => v.fields));
                assert(decreases_to!(v.fields => v.fields->Unnamed_0));
                assert(decreases_to!(*ts => ts@));
            }
            if ts.len() == 1 {
                proof {
                    assert(decreases_to!(ts@ => ts@[0]));
                }
                match render_type(&ts[0], Mode::Inline, b, cfg) {
                    Some(s) => Some(tuple_variant_shape_exec(untagged, &tag, &content, true, vn.as_str(), key.as_str(), s.as_str())),
                    None => None,
                }
            } else {
                match tuple_exec(render_types(ts, Mode::Inline, b, cfg)) {
                    Some(s) => Some(tuple_variant_shape_exec(untagged, &tag, &content, false, vn.as_str(), key.as_str(), s.as_str())),
                    None => None,
                }
            }
        },
        Fields::Named(fs) => {
            proof {
                assert(decreases_to!(*v => v.fields));
                assert(decreases_to!(v.fields => v.fields->Named_0));
            }
            let ctx = variant_ctx(v, c);
            match field_entries_exec(fs, ctx, b, cfg) {
                Some((fd, fl)) => Some(named_variant_shape_exec(untagged, &tag, &content, vn.as_str(), key.as_str(), &fd, &fl)),
                None => None,
            }
        },
    }
}

// ── Flow enums and derive validation ────────────────────────────────────

proof fn lemma_members_err(d: TypeDef, k: int, j: int)
    requires
        0 <= k <= j,
        flow_enum_members(d, k) is Err,
    ensures
        flow_enum_members(d, j) == flow_enum_members(d, k),
    decreases j - k,
{
    if j > k {
        lemma_members_err(d, k, j - 1);
    }
}

/// The members of a Flow enum declaration, or why the derive rejects them.
pub fn flow_enum_members_exec(d: &TypeDef, vs: &Vec<VariantDef>) -> (r: Result<Vec<String>, DeriveError>)
    requires
        d.data == Data::Enum(*vs),
    ensures
        match r {
            Ok(members) => flow_enum_members(*d, vs@.len() as int) is Ok
                && flow_enum_members(*d, vs@.len() as int)->Ok_0.members == views(members@),
            Err(e) => flow_enum_members(*d, vs@.len() as int) == Err::<MembersState, DeriveError>(e),
        },
{
    let mut members: Vec<String> = Vec::new();
    let mut next: i64 = 0;
    let mut bools: usize = 0;
    let n = vs.len();
    let mut i: usize = 0;
    while i < n
        invariant
            n == vs@.len(),
            d.data == Data::Enum(*vs),
            i <= n,
            bools <= i,
            flow_enum_members(*d, i as int) is Ok,
            flow_enum_members(*d, i as int)->Ok_0.members == views(members@),
            flow_enum_members(*d, i as int)->Ok_0.next == next as int,
            flow_enum_members(*d, i as int)->Ok_0.bools == bools as nat,
        decreases n - i,
    {
        let v = &vs[i];
        if !v.attr.skip {
            let line: String;
            match d.attr.flow_enum {
                Some(FlowEnumRepr::Symbol) => {
                    line = cat3("  ", v.ident.as_str(), ",");
                },
                Some(FlowEnumRepr::String) => {
                    let raw = match &v.attr.rename {
                        Some(r) => r.clone(),
                        None => d.attr.rename_variant(v.ident.as_str()),
                    };
                    let esc = escape_string_literal(raw.as_str());
                    let mut s = cat3("  ", v.ident.as_str(), " = '");
                    s.append(esc.as_str());
                    s.append("',");
                    line = s;
                },
                Some(FlowEnumRepr::Number) => {
                    let val: i64 = match &v.discriminant {
                        None => next,
                        Some(Discriminant::Int { negative, magnitude }) => {
                            if *magnitude > 9223372036854775807u128 {
                                proof {
                                    lemma_members_err(*d, i + 1, n as int);
                                }
                                return Err(DeriveError::InvalidDiscriminant);
                            }
                            let mag = *magnitude as i64;
                            if *negative { -mag } else { mag }
                        },
                        Some(Discriminant::Other) => {
                            proof {
                                lemma_members_err(*d, i + 1, n as int);
                            }
                            return Err(DeriveError::NonLiteralDiscriminant);
                        },
                    };
                    if val == i64::MAX {
                        proof {
                            lemma_members_err(*d, i + 1, n as int);
                        }
                        return Err(DeriveError::DiscriminantOverflow);
                    }
                    let num = format_i64(val);
                    let mut s = cat3("  ", v.ident.as_str(), " = ");
                    s.append(num.as_str());
                    s.append(",");
                    line = s;
                    next = val + 1;
                },
                Some(FlowEnumRepr::Boolean) => {
                    let word = if bools == 0 { "true" } else { "false" };
                    let mut s = cat3("  ", v.ident.as_str(), " = ");
                    s.append(word);
                    s.append(",");
                    line = s;
                    bools = bools + 1;
                },
                None => {
                    i = i + 1;
                    continue;
                },
            }
            proof {
                assert(views(members@.push(line)) =~= views(members@).push(line@));
            }
            members.push(line);
        }
        i = i + 1;
    }
    Ok(members)
}

/// Why the derive rejects `d`, if it does.
pub fn check_derive(d: &TypeDef) -> (r: Option<DeriveError>)
    ensures
        r == derive_error(*d),
{
    if d.attr.type_override.is_some() || d.type_as.is_some() {
        return None;
    }
    match &d.data {
        Data::Struct(_) => None,
        Data::Union => Some(DeriveError::Union),
        Data::Enum(vs) => {
            match d.attr.flow_enum {
                None => None,
                Some(repr) => {
                    if d.generics.len() > 0 {
                        return Some(DeriveError::FlowEnumGenerics);
                    }
                    if d.attr.tag.is_some() {
                        return Some(DeriveError::FlowEnumTag);
                    }
                    if d.attr.content.is_some() {
                        return Some(DeriveError::FlowEnumContent);
                    }
                    if d.attr.untagged {
                        return Some(DeriveError::FlowEnumUntagged);
                    }
                    if d.attr.opaque.is_some() {
                        return Some(DeriveError::FlowEnumOpaque);
                    }
                    let n = vs.len();
                    let mut i: usize = 0;
                    let mut active: usize = 0;
                    while i < n
                        invariant
                            n == vs@.len(),
                            i <= n,
                            active <= i,
                            d.attr.type_override is None,
                            d.type_as is None,
                            d.data == Data::Enum(*vs),
                            d.attr.flow_enum == Some(repr),
                            d.generics@.len() == 0,
                            d.attr.tag is None,
                            d.attr.content is None,
                            !d.attr.untagged,
                            d.attr.opaque is None,
                            all_unit(vs@.take(i as int)),
                            active == active_variants(vs@.take(i as int)),
                        decreases n - i,
                    {
                        proof {
                            assert(vs@.take(i + 1).drop_last() =~= vs@.take(i as int));
                        }
                        match vs[i].fields {
                            Fields::Unit => {},
                            _ => {
                                proof {
                                    assert(!all_unit(vs@)) by {
                                        assert(!(vs@[i as int].fields is Unit));
                                    }
                                }
                                return Some(DeriveError::FlowEnumFields);
                            },
                        }
                        if !vs[i].attr.skip {
                            active = active + 1;
                        }
                        proof {
                            assert(all_unit(vs@.take(i + 1))) by {
                                assert forall|j: int| 0 <= j < i + 1 implies #[trigger] vs@.take(i + 1)[j].fields is Unit by {
                                    if j < i {
                                        assert(vs@.take(i + 1)[j] == vs@.take(i as int)[j]);
                                    }
                                }
                            }
                        }
                        i = i + 1;
                    }
                    proof {
                        assert(vs@.take(n as int) =~= vs@);
                    }
                    if repr == FlowEnumRepr::Boolean && active != 2 {
                        return Some(DeriveError::FlowEnumBooleanCount);
                    }
                    match flow_enum_members_exec(d, vs) {
                        Ok(_) => None,
                        Err(e) => Some(e),
                    }
                },
            }
        },
    }
}

} // verus!
