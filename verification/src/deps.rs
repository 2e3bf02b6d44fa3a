//! Dependencies of a type: the exportable types it refers to, found as the
//! derived `visit_dependencies` and `visit_generics` walk them.
//!
//! Visiting a type `T` reports three lists of exportable types: `T` itself
//! (what `visit::<T>()` reports), what its `visit_generics` reports, and
//! what its `visit_dependencies` reports. Only types with an output path
//! and an identifier are reported, as [`Dependency::from_ty`] keeps them.

use vstd::prelude::*;
use crate::config::{Config, ConfigView};
use crate::decl::{ident_of, output_path_of};
use crate::paths::{import_path, relative_import_path};
use crate::strings::to_owned_string;
use crate::export::{Dependency, ExportNode, graph_ok, reported_name};
use crate::model::{Data, FieldDef, Fields, FlowType, GenericParam, Mode, TypeDef, VariantDef};

verus! {

/// A reported dependency: its Flow name and its output path.
pub struct DepView {
    pub name: Seq<char>,
    pub path: Seq<char>,
}

/// The dependency a type reports when it is visited: itself, when it can be
/// exported.
pub open spec fn self_dep(t: FlowType, cfg: ConfigView) -> Seq<DepView> {
    match (output_path_of(t), ident_of(t, cfg)) {
        (Some(p), Some(n)) => seq![DepView { name: n, path: p }],
        _ => Seq::empty(),
    }
}

/// What visiting a type reports.
pub struct Visits {
    /// What `visit::<T>()` reports.
    pub itself: Seq<DepView>,
    /// What `T::visit_generics` reports.
    pub generics: Seq<DepView>,
    /// What `T::visit_dependencies` reports.
    pub deps: Seq<DepView>,
}

/// Nothing reported.
pub open spec fn no_visits() -> Visits {
    Visits { itself: Seq::empty(), generics: Seq::empty(), deps: Seq::empty() }
}

/// What a generic parameter stands for: the visits of the type bound to it
/// (nothing for a parameter that is not bound).
pub open spec fn bound_visits(env: Seq<(Seq<char>, Visits)>, p: Seq<char>) -> Visits
    decreases env.len(),
{
    if env.len() == 0 {
        no_visits()
    } else if env[0].0 == p {
        env[0].1
    } else {
        bound_visits(env.drop_first(), p)
    }
}

/// The generic parameters of a derived type bound to the visits of its
/// arguments, in order.
pub open spec fn bindings(gs: Seq<GenericParam>, vs: Seq<Visits>) -> Seq<(Seq<char>, Visits)> {
    Seq::new(if gs.len() < vs.len() { gs.len() } else { vs.len() }, |i: int| (gs[i].ident@, vs[i]))
}

/// A type reported as an element whose generics follow it
/// (`v.visit::<T>(); T::visit_generics(v)`): for each of `vs`, in order.
pub open spec fn itself_then_generics(vs: Seq<Visits>) -> Seq<DepView>
    decreases vs.len(),
{
    if vs.len() == 0 {
        Seq::empty()
    } else {
        itself_then_generics(vs.drop_last()) + vs.last().itself + vs.last().generics
    }
}

/// The same, for the generic parameters that are not given a concrete type.
pub open spec fn free_params_visits(gs: Seq<GenericParam>, vs: Seq<Visits>) -> Seq<DepView>
    decreases vs.len(),
{
    if vs.len() == 0 {
        Seq::empty()
    } else {
        let i = vs.len() - 1;
        free_params_visits(gs, vs.drop_last()) + if i < gs.len() && gs[i].concrete is None {
            vs.last().itself + vs.last().generics
        } else {
            Seq::<DepView>::empty()
        }
    }
}

/// Each of `vs` reported as itself alone, in order.
pub open spec fn itselves(vs: Seq<Visits>) -> Seq<DepView>
    decreases vs.len(),
{
    if vs.len() == 0 {
        Seq::empty()
    } else {
        itselves(vs.drop_last()) + vs.last().itself
    }
}

/// What a derived type's `visit_dependencies` collects: the types it visits
/// with their generics (pushed), and the types whose dependencies it visits
/// (inlined or flattened), each in order.
pub struct Collected {
    pub pushed_itself: Seq<DepView>,
    pub pushed_generics: Seq<DepView>,
    pub appended: Seq<DepView>,
}

/// Nothing collected.
pub open spec fn nothing_collected() -> Collected {
    Collected { pushed_itself: Seq::empty(), pushed_generics: Seq::empty(), appended: Seq::empty() }
}

/// `c` with a type pushed.
pub open spec fn push_visits(c: Collected, v: Visits) -> Collected {
    Collected { pushed_itself: c.pushed_itself + v.itself, pushed_generics: c.pushed_generics + v.generics, ..c }
}

/// `c` with a type's dependencies appended.
pub open spec fn append_visits(c: Collected, v: Visits) -> Collected {
    Collected { appended: c.appended + v.deps, ..c }
}

/// `visit_dependencies` of what was collected: the pushed types, then their
/// generics, then the appended dependencies.
pub open spec fn collected_deps(c: Collected) -> Seq<DepView> {
    c.pushed_itself + c.pushed_generics + c.appended
}

/// The visits of each of `ts`.
pub open spec fn visits_list(ts: Seq<FlowType>, env: Seq<(Seq<char>, Visits)>, cfg: ConfigView) -> Seq<Visits>
    decreases ts, 0nat,
{
    if ts.len() == 0 {
        Seq::empty()
    } else {
        visits_list(ts.drop_last(), env, cfg).push(visits(ts.last(), env, cfg))
    }
}

/// What the named fields of a struct collect: a skipped field nothing; a
/// flattened one its type's dependencies (unless its type is overridden);
/// another, unless its type is overridden, its effective type (the `as`
/// type, or its own), whose dependencies are appended when it is inlined
/// and which is pushed otherwise.
pub open spec fn struct_fields_collect(fs: Seq<FieldDef>, env: Seq<(Seq<char>, Visits)>, cfg: ConfigView) -> Collected
    decreases fs, 0nat,
{
    if fs.len() == 0 {
        nothing_collected()
    } else {
        let c = struct_fields_collect(fs.drop_last(), env, cfg);
        let f = fs.last();
        if f.attr.skip {
            c
        } else if f.attr.flatten {
            if f.attr.type_override is None {
                append_visits(c, visits(f.ty, env, cfg))
            } else {
                c
            }
        } else if f.attr.type_override is None {
            let v = match f.type_as {
                Some(a) => visits(a, env, cfg),
                None => visits(f.ty, env, cfg),
            };
            if f.attr.inline {
                append_visits(c, v)
            } else {
                push_visits(c, v)
            }
        } else {
            c
        }
    }
}

/// What the named fields of an enum variant collect: as for a struct, but
/// by the field's own type, and inlined also when the variant is.
pub open spec fn variant_fields_collect(
    fs: Seq<FieldDef>,
    inline: bool,
    env: Seq<(Seq<char>, Visits)>,
    cfg: ConfigView,
) -> Collected
    decreases fs, 0nat,
{
    if fs.len() == 0 {
        nothing_collected()
    } else {
        let c = variant_fields_collect(fs.drop_last(), inline, env, cfg);
        let f = fs.last();
        if f.attr.skip || f.attr.type_override is Some {
            c
        } else if f.attr.flatten || f.attr.inline || inline {
            append_visits(c, visits(f.ty, env, cfg))
        } else {
            push_visits(c, visits(f.ty, env, cfg))
        }
    }
}

/// `c` with each of `vs` pushed, in order.
pub open spec fn push_all(c: Collected, vs: Seq<Visits>) -> Collected
    decreases vs.len(),
{
    if vs.len() == 0 {
        c
    } else {
        push_visits(push_all(c, vs.drop_last()), vs.last())
    }
}

/// `a` followed by `b`.
pub open spec fn then_collect(a: Collected, b: Collected) -> Collected {
    Collected {
        pushed_itself: a.pushed_itself + b.pushed_itself,
        pushed_generics: a.pushed_generics + b.pushed_generics,
        appended: a.appended + b.appended,
    }
}

/// What the variants of an enum collect: a skipped variant, or one whose
/// type is overridden, nothing; one with an `as` type pushes it; otherwise
/// its fields are collected (each type of a tuple variant pushed).
pub open spec fn variants_collect(vs: Seq<VariantDef>, env: Seq<(Seq<char>, Visits)>, cfg: ConfigView) -> Collected
    decreases vs, 0nat,
{
    if vs.len() == 0 {
        nothing_collected()
    } else {
        let c = variants_collect(vs.drop_last(), env, cfg);
        let v = vs.last();
        if v.attr.skip || v.attr.type_override is Some {
            c
        } else {
            match v.type_as {
                Some(a) => push_visits(c, visits(a, env, cfg)),
                None => match v.fields {
                    Fields::Unit => c,
                    Fields::Unnamed(ts) => push_all(c, visits_list(ts@, env, cfg)),
                    Fields::Named(fs) => then_collect(c, variant_fields_collect(fs@, v.attr.inline, env, cfg)),
                },
            }
        }
    }
}

/// What a derived type's `visit_dependencies` reports, its generic
/// parameters standing for what `env` binds them to.
pub open spec fn derived_deps(d: TypeDef, env: Seq<(Seq<char>, Visits)>, cfg: ConfigView) -> Seq<DepView>
    decreases d, 0nat,
{
    if d.attr.type_override is Some {
        Seq::empty()
    } else {
        match d.type_as {
            Some(a) => {
                let v = visits(a, env, cfg);
                v.itself + v.generics
            },
            None => match d.data {
                Data::Struct(Fields::Named(fs)) => collected_deps(struct_fields_collect(fs@, env, cfg)),
                Data::Struct(Fields::Unnamed(ts)) => collected_deps(push_all(nothing_collected(), visits_list(ts@, env, cfg))),
                Data::Enum(vs) => if d.attr.flow_enum is Some {
                    Seq::empty()
                } else {
                    collected_deps(variants_collect(vs@, env, cfg))
                },
                _ => Seq::empty(),
            },
        }
    }
}

/// What visiting a type reports, its generic parameters standing for what
/// `env` binds them to.
pub open spec fn visits(t: FlowType, env: Seq<(Seq<char>, Visits)>, cfg: ConfigView) -> Visits
    decreases t, 0nat,
{
    match t {
        FlowType::Param(p) => bound_visits(env, p@),
        FlowType::Nullable(a) => {
            let va = visits(*a, env, cfg);
            Visits { itself: self_dep(t, cfg), generics: va.generics + va.itself, deps: va.deps }
        },
        FlowType::ReadOnlyArray(a) => {
            let va = visits(*a, env, cfg);
            Visits { itself: self_dep(t, cfg), generics: va.generics + va.itself, deps: va.deps }
        },
        FlowType::Array(a, _) => {
            let va = visits(*a, env, cfg);
            Visits { itself: self_dep(t, cfg), generics: va.generics + va.itself, deps: va.deps }
        },
        FlowType::Transparent(a) => {
            let va = visits(*a, env, cfg);
            Visits { itself: self_dep(t, cfg), generics: va.generics + va.itself, deps: va.deps }
        },
        FlowType::Range(a) => {
            let va = visits(*a, env, cfg);
            Visits { itself: self_dep(t, cfg), generics: va.generics + va.itself, deps: va.deps }
        },
        FlowType::Dictionary(k, v) => {
            let vk = visits(*k, env, cfg);
            let vv = visits(*v, env, cfg);
            Visits {
                itself: self_dep(t, cfg),
                generics: vk.generics + vk.itself + vv.generics + vv.itself,
                deps: vk.deps + vv.deps,
            }
        },
        FlowType::ResultOf(a, b) => {
            let va = visits(*a, env, cfg);
            let vb = visits(*b, env, cfg);
            Visits {
                itself: self_dep(t, cfg),
                generics: va.generics + va.itself + vb.generics + vb.itself,
                deps: va.deps + vb.deps,
            }
        },
        FlowType::Tuple(ts) => Visits {
            itself: self_dep(t, cfg),
            generics: itself_then_generics(visits_list(ts@, env, cfg)),
            deps: Seq::empty(),
        },
        FlowType::Function(args, r) => Visits {
            itself: self_dep(t, cfg),
            generics: itselves(visits_list(args@, env, cfg)) + visits(*r, env, cfg).itself,
            deps: Seq::empty(),
        },
        FlowType::Defined(d, args) => {
            let avs = visits_list(args@, env, cfg);
            Visits {
                itself: self_dep(t, cfg),
                generics: free_params_visits(d.generics@, avs),
                deps: derived_deps(*d, bindings(d.generics@, avs), cfg),
            }
        },
        _ => Visits { itself: self_dep(t, cfg), generics: Seq::empty(), deps: Seq::empty() },
    }
}

/// The dependencies of a type (`Flow::dependencies`): what its
/// `visit_dependencies` reports.
pub open spec fn dependencies_of(t: FlowType, cfg: ConfigView) -> Seq<DepView> {
    visits(t, Seq::empty(), cfg).deps
}


// ── Computing the dependencies ──────────────────────────────────────────

/// The reported dependencies of a list of [`Dependency`] values.
pub open spec fn dep_views(v: Seq<Dependency>) -> Seq<DepView> {
    v.map_values(|d: Dependency| DepView { name: d.flow_name@, path: d.output_path@ })
}

/// What visiting a type reports, as values.
pub struct VisitsExec {
    pub itself: Vec<Dependency>,
    pub generics: Vec<Dependency>,
    pub deps: Vec<Dependency>,
}

impl View for VisitsExec {
    type V = Visits;

    open spec fn view(&self) -> Visits {
        Visits { itself: dep_views(self.itself@), generics: dep_views(self.generics@), deps: dep_views(self.deps@) }
    }
}

/// The bindings of generic parameters, as reported.
pub open spec fn env_view(env: Seq<(String, VisitsExec)>) -> Seq<(Seq<char>, Visits)> {
    env.map_values(|b: (String, VisitsExec)| (b.0@, b.1@))
}

/// The reported views of a list of visits.
pub open spec fn visits_view(vs: Seq<VisitsExec>) -> Seq<Visits> {
    vs.map_values(|v: VisitsExec| v@)
}

fn copy_dep(d: &Dependency) -> (r: Dependency)
    ensures
        r.flow_name@ == d.flow_name@,
        r.output_path@ == d.output_path@,
{
    Dependency { flow_name: d.flow_name.clone(), output_path: d.output_path.clone() }
}

/// `b` appended to `a`.
fn append_deps(a: &mut Vec<Dependency>, b: &Vec<Dependency>)
    ensures
        dep_views(final(a)@) == dep_views(old(a)@) + dep_views(b@),
{
    let ghost a0 = a@;
    let n = b.len();
    let mut i: usize = 0;
    while i < n
        invariant
            n == b@.len(),
            i <= n,
            dep_views(a@) == dep_views(a0) + dep_views(b@.take(i as int)),
        decreases n - i,
    {
        let d = copy_dep(&b[i]);
        let ghost before = a@;
        a.push(d);
        proof {
            assert(a@ == before.push(d));
            assert(dep_views(a@) =~= dep_views(before).push(DepView { name: d.flow_name@, path: d.output_path@ }));
            assert(dep_views(b@.take(i + 1)) =~= dep_views(b@.take(i as int)).push(
                DepView { name: b@[i as int].flow_name@, path: b@[i as int].output_path@ },
            ));
        }
        i = i + 1;
    }
    proof {
        assert(b@.take(n as int) =~= b@);
    }
}

fn copy_deps(v: &Vec<Dependency>) -> (r: Vec<Dependency>)
    ensures
        dep_views(r@) == dep_views(v@),
{
    let mut r: Vec<Dependency> = Vec::new();
    append_deps(&mut r, v);
    proof {
        assert(dep_views(Seq::<Dependency>::empty()) =~= Seq::<DepView>::empty());
        assert(Seq::<DepView>::empty() + dep_views(v@) =~= dep_views(v@));
    }
    r
}

fn copy_visits(v: &VisitsExec) -> (r: VisitsExec)
    ensures
        r@ == v@,
{
    VisitsExec { itself: copy_deps(&v.itself), generics: copy_deps(&v.generics), deps: copy_deps(&v.deps) }
}

fn empty_visits() -> (r: VisitsExec)
    ensures
        r@ == no_visits(),
{
    let r = VisitsExec { itself: Vec::new(), generics: Vec::new(), deps: Vec::new() };
    proof {
        assert(dep_views(Seq::<Dependency>::empty()) =~= Seq::<DepView>::empty());
    }
    r
}

/// The dependency a type reports when it is visited.
fn self_dep_exec(t: &FlowType, cfg: &Config) -> (r: Vec<Dependency>)
    ensures
        dep_views(r@) == self_dep(*t, cfg@),
{
    let mut r: Vec<Dependency> = Vec::new();
    match Dependency::from_ty(t, cfg) {
        Some(d) => {
            r.push(d);
            proof {
                assert(dep_views(r@) =~= self_dep(*t, cfg@));
            }
        },
        None => {
            proof {
                assert(dep_views(r@) =~= self_dep(*t, cfg@));
            }
        },
    }
    r
}

fn bound_visits_exec(env: &Vec<(String, VisitsExec)>, p: &str) -> (r: VisitsExec)
    ensures
        r@ == bound_visits(env_view(env@), p@),
{
    let ghost e = env_view(env@);
    let n = env.len();
    let mut i: usize = 0;
    proof {
        assert(e.subrange(0, n as int) =~= e);
    }
    while i < n
        invariant
            n == env@.len(),
            e == env_view(env@),
            i <= n,
            bound_visits(e, p@) == bound_visits(e.subrange(i as int, n as int), p@),
        decreases n - i,
    {
        proof {
            assert(e.subrange(i as int, n as int).drop_first() =~= e.subrange(i + 1, n as int));
            assert(e.subrange(i as int, n as int)[0] == e[i as int]);
        }
        if crate::strings::str_equal(env[i].0.as_str(), p) {
            return copy_visits(&env[i].1);
        }
        i = i + 1;
    }
    empty_visits()
}

/// `v.visit::<T>(); T::visit_generics(v)` for each of `vs`.
fn itself_then_generics_exec(vs: &Vec<VisitsExec>) -> (r: Vec<Dependency>)
    ensures
        dep_views(r@) == itself_then_generics(visits_view(vs@)),
{
    let mut r: Vec<Dependency> = Vec::new();
    let n = vs.len();
    let mut i: usize = 0;
    proof {
        assert(visits_view(vs@).take(0) =~= Seq::<Visits>::empty());
        assert(dep_views(r@) =~= Seq::<DepView>::empty());
    }
    while i < n
        invariant
            n == vs@.len(),
            i <= n,
            dep_views(r@) == itself_then_generics(visits_view(vs@).take(i as int)),
        decreases n - i,
    {
        append_deps(&mut r, &vs[i].itself);
        append_deps(&mut r, &vs[i].generics);
        proof {
            assert(visits_view(vs@).take(i + 1).drop_last() =~= visits_view(vs@).take(i as int));
        }
        i = i + 1;
    }
    proof {
        assert(visits_view(vs@).take(n as int) =~= visits_view(vs@));
    }
    r
}

/// `v.visit::<T>()` for each of `vs`.
fn itselves_exec(vs: &Vec<VisitsExec>) -> (r: Vec<Dependency>)
    ensures
        dep_views(r@) == itselves(visits_view(vs@)),
{
    let mut r: Vec<Dependency> = Vec::new();
    let n = vs.len();
    let mut i: usize = 0;
    proof {
        assert(visits_view(vs@).take(0) =~= Seq::<Visits>::empty());
        assert(dep_views(r@) =~= Seq::<DepView>::empty());
    }
    while i < n
        invariant
            n == vs@.len(),
            i <= n,
            dep_views(r@) == itselves(visits_view(vs@).take(i as int)),
        decreases n - i,
    {
        append_deps(&mut r, &vs[i].itself);
        proof {
            assert(visits_view(vs@).take(i + 1).drop_last() =~= visits_view(vs@).take(i as int));
        }
        i = i + 1;
    }
    proof {
        assert(visits_view(vs@).take(n as int) =~= visits_view(vs@));
    }
    r
}

/// The visits of the generic parameters not given a concrete type.
fn free_params_exec(gs: &Vec<GenericParam>, vs: &Vec<VisitsExec>) -> (r: Vec<Dependency>)
    ensures
        dep_views(r@) == free_params_visits(gs@, visits_view(vs@)),
{
    let mut r: Vec<Dependency> = Vec::new();
    let n = vs.len();
    let mut i: usize = 0;
    proof {
        assert(visits_view(vs@).take(0) =~= Seq::<Visits>::empty());
        assert(dep_views(r@) =~= Seq::<DepView>::empty());
    }
    while i < n
        invariant
            n == vs@.len(),
            i <= n,
            dep_views(r@) == free_params_visits(gs@, visits_view(vs@).take(i as int)),
        decreases n - i,
    {
        let ghost before = dep_views(r@);
        if i < gs.len() && gs[i].concrete.is_none() {
            append_deps(&mut r, &vs[i].itself);
            append_deps(&mut r, &vs[i].generics);
        } else {
            proof {
                assert(before + Seq::<DepView>::empty() =~= before);
            }
        }
        proof {
            assert(visits_view(vs@).take(i + 1).drop_last() =~= visits_view(vs@).take(i as int));
        }
        i = i + 1;
    }
    proof {
        assert(visits_view(vs@).take(n as int) =~= visits_view(vs@));
    }
    r
}

/// The parameters of a derived type bound to the visits of its arguments.
fn bindings_exec(gs: &Vec<GenericParam>, vs: &Vec<VisitsExec>) -> (r: Vec<(String, VisitsExec)>)
    ensures
        env_view(r@) == bindings(gs@, visits_view(vs@)),
{
    let m = if gs.len() < vs.len() { gs.len() } else { vs.len() };
    let mut r: Vec<(String, VisitsExec)> = Vec::new();
    let mut i: usize = 0;
    while i < m
        invariant
            m <= gs@.len(),
            m <= vs@.len(),
            m == (if gs@.len() < vs@.len() { gs@.len() } else { vs@.len() }),
            i <= m,
            r@.len() == i,
            forall|k: int| 0 <= k < i ==> #[trigger] env_view(r@)[k] == (gs@[k].ident@, vs@[k]@),
        decreases m - i,
    {
        let b = (gs[i].ident.clone(), copy_visits(&vs[i]));
        let ghost before = r@;
        r.push(b);
        proof {
            assert forall|k: int| 0 <= k < i + 1 implies #[trigger] env_view(r@)[k] == (gs@[k].ident@, vs@[k]@) by {
                if k < i {
                    assert(r@[k] == before[k]);
                    assert(env_view(before)[k] == (gs@[k].ident@, vs@[k]@));
                }
            }
        }
        i = i + 1;
    }
    proof {
        assert(env_view(r@) =~= bindings(gs@, visits_view(vs@)));
    }
    r
}

/// What a derived type's `visit_dependencies` collects, as values.
pub struct CollectedExec {
    pub pushed_itself: Vec<Dependency>,
    pub pushed_generics: Vec<Dependency>,
    pub appended: Vec<Dependency>,
}

impl View for CollectedExec {
    type V = Collected;

    open spec fn view(&self) -> Collected {
        Collected {
            pushed_itself: dep_views(self.pushed_itself@),
            pushed_generics: dep_views(self.pushed_generics@),
            appended: dep_views(self.appended@),
        }
    }
}

fn empty_collected() -> (r: CollectedExec)
    ensures
        r@ == nothing_collected(),
{
    let r = CollectedExec { pushed_itself: Vec::new(), pushed_generics: Vec::new(), appended: Vec::new() };
    proof {
        assert(dep_views(Seq::<Dependency>::empty()) =~= Seq::<DepView>::empty());
    }
    r
}

fn push_exec(c: &mut CollectedExec, v: &VisitsExec)
    ensures
        final(c)@ == push_visits(old(c)@, v@),
{
    append_deps(&mut c.pushed_itself, &v.itself);
    append_deps(&mut c.pushed_generics, &v.generics);
}

fn append_exec(c: &mut CollectedExec, v: &VisitsExec)
    ensures
        final(c)@ == append_visits(old(c)@, v@),
{
    append_deps(&mut c.appended, &v.deps);
}

fn then_exec(c: &mut CollectedExec, d: &CollectedExec)
    ensures
        final(c)@ == then_collect(old(c)@, d@),
{
    append_deps(&mut c.pushed_itself, &d.pushed_itself);
    append_deps(&mut c.pushed_generics, &d.pushed_generics);
    append_deps(&mut c.appended, &d.appended);
}

fn push_all_exec(c: &mut CollectedExec, vs: &Vec<VisitsExec>)
    ensures
        final(c)@ == push_all(old(c)@, visits_view(vs@)),
{
    let ghost c0 = c@;
    let n = vs.len();
    let mut i: usize = 0;
    proof {
        assert(visits_view(vs@).take(0) =~= Seq::<Visits>::empty());
    }
    while i < n
        invariant
            n == vs@.len(),
            i <= n,
            c@ == push_all(c0, visits_view(vs@).take(i as int)),
        decreases n - i,
    {
        push_exec(c, &vs[i]);
        proof {
            assert(visits_view(vs@).take(i + 1).drop_last() =~= visits_view(vs@).take(i as int));
        }
        i = i + 1;
    }
    proof {
        assert(visits_view(vs@).take(n as int) =~= visits_view(vs@));
    }
}

fn collected_deps_exec(c: CollectedExec) -> (r: Vec<Dependency>)
    ensures
        dep_views(r@) == collected_deps(c@),
{
    let mut r = c.pushed_itself;
    append_deps(&mut r, &c.pushed_generics);
    append_deps(&mut r, &c.appended);
    r
}


/// The visits of each of `ts`.
fn visits_list_exec(ts: &Vec<FlowType>, env: &Vec<(String, VisitsExec)>, cfg: &Config) -> (r: Vec<VisitsExec>)
    ensures
        visits_view(r@) == visits_list(ts@, env_view(env@), cfg@),
    decreases ts@, 1nat,
{
    let ghost e = env_view(env@);
    let mut r: Vec<VisitsExec> = Vec::new();
    let n = ts.len();
    let mut i: usize = 0;
    proof {
        assert(ts@.take(0) =~= Seq::<FlowType>::empty());
        assert(visits_view(r@) =~= Seq::<Visits>::empty());
    }
    while i < n
        invariant
            n == ts@.len(),
            e == env_view(env@),
            i <= n,
            visits_view(r@) == visits_list(ts@.take(i as int), e, cfg@),
        decreases n - i,
    {
        proof {
            assert(decreases_to!(ts@ => ts@[i as int]));
        }
        let v = visits_exec(&ts[i], env, cfg);
        let ghost before = r@;
        r.push(v);
        proof {
            assert(ts@.take(i + 1).drop_last() =~= ts@.take(i as int));
            assert(ts@.take(i + 1).last() == ts@[i as int]);
            assert(visits_view(r@) =~= visits_view(before).push(v@));
        }
        i = i + 1;
    }
    proof {
        assert(ts@.take(n as int) =~= ts@);
    }
    r
}

/// What the named fields of a struct collect.
fn struct_fields_exec(fs: &Vec<FieldDef>, env: &Vec<(String, VisitsExec)>, cfg: &Config) -> (r: CollectedExec)
    ensures
        r@ == struct_fields_collect(fs@, env_view(env@), cfg@),
    decreases fs@, 1nat,
{
    let ghost e = env_view(env@);
    let mut c = empty_collected();
    let n = fs.len();
    let mut i: usize = 0;
    proof {
        assert(fs@.take(0) =~= Seq::<FieldDef>::empty());
    }
    while i < n
        invariant
            n == fs@.len(),
            e == env_view(env@),
            i <= n,
            c@ == struct_fields_collect(fs@.take(i as int), e, cfg@),
        decreases n - i,
    {
        let f = &fs[i];
        proof {
            assert(fs@.take(i + 1).drop_last() =~= fs@.take(i as int));
            assert(fs@.take(i + 1).last() == fs@[i as int]);
            assert(decreases_to!(fs@ => fs@[i as int]));
        }
        if f.attr.skip {
        } else if f.attr.flatten {
            if f.attr.type_override.is_none() {
                let v = visits_exec(&f.ty, env, cfg);
                append_exec(&mut c, &v);
            }
        } else if f.attr.type_override.is_none() {
            let v = match &f.type_as {
                Some(a) => visits_exec(a, env, cfg),
                None => visits_exec(&f.ty, env, cfg),
            };
            if f.attr.inline {
                append_exec(&mut c, &v);
            } else {
                push_exec(&mut c, &v);
            }
        }
        i = i + 1;
    }
    proof {
        assert(fs@.take(n as int) =~= fs@);
    }
    c
}

/// What the named fields of an enum variant collect.
fn variant_fields_exec(fs: &Vec<FieldDef>, inline: bool, env: &Vec<(String, VisitsExec)>, cfg: &Config) -> (r: CollectedExec)
    ensures
        r@ == variant_fields_collect(fs@, inline, env_view(env@), cfg@),
    decreases fs@, 1nat,
{
    let ghost e = env_view(env@);
    let mut c = empty_collected();
    let n = fs.len();
    let mut i: usize = 0;
    proof {
        assert(fs@.take(0) =~= Seq::<FieldDef>::empty());
    }
    while i < n
        invariant
            n == fs@.len(),
            e == env_view(env@),
            i <= n,
            c@ == variant_fields_collect(fs@.take(i as int), inline, e, cfg@),
        decreases n - i,
    {
        let f = &fs[i];
        proof {
            assert(fs@.take(i + 1).drop_last() =~= fs@.take(i as int));
            assert(fs@.take(i + 1).last() == fs@[i as int]);
            assert(decreases_to!(fs@ => fs@[i as int]));
        }
        if f.attr.skip || f.attr.type_override.is_some() {
        } else if f.attr.flatten || f.attr.inline || inline {
            let v = visits_exec(&f.ty, env, cfg);
            append_exec(&mut c, &v);
        } else {
            let v = visits_exec(&f.ty, env, cfg);
            push_exec(&mut c, &v);
        }
        i = i + 1;
    }
    proof {
        assert(fs@.take(n as int) =~= fs@);
    }
    c
}

/// What the variants of an enum collect.
fn variants_exec(vs: &Vec<VariantDef>, env: &Vec<(String, VisitsExec)>, cfg: &Config) -> (r: CollectedExec)
    ensures
        r@ == variants_collect(vs@, env_view(env@), cfg@),
    decreases vs@, 1nat,
{
    let ghost e = env_view(env@);
    let mut c = empty_collected();
    let n = vs.len();
    let mut i: usize = 0;
    proof {
        assert(vs@.take(0) =~= Seq::<VariantDef>::empty());
    }
    while i < n
        invariant
            n == vs@.len(),
            e == env_view(env@),
            i <= n,
            c@ == variants_collect(vs@.take(i as int), e, cfg@),
        decreases n - i,
    {
        let v = &vs[i];
        proof {
            assert(vs@.take(i + 1).drop_last() =~= vs@.take(i as int));
            assert(vs@.take(i + 1).last() == vs@[i as int]);
            assert(decreases_to!(vs@ => vs@[i as int]));
        }
        if v.attr.skip || v.attr.type_override.is_some() {
        } else {
            match &v.type_as {
                Some(a) => {
                    let va = visits_exec(a, env, cfg);
                    push_exec(&mut c, &va);
                },
                None => match &v.fields {
                    Fields::Unit => {},
                    Fields::Unnamed(ts) => {
                        let l = visits_list_exec(ts, env, cfg);
                        push_all_exec(&mut c, &l);
                    },
                    Fields::Named(fs) => {
                        let d = variant_fields_exec(fs, v.attr.inline, env, cfg);
                        then_exec(&mut c, &d);
                    },
                },
            }
        }
        i = i + 1;
    }
    proof {
        assert(vs@.take(n as int) =~= vs@);
    }
    c
}

/// What a derived type's `visit_dependencies` reports.
fn derived_deps_exec(d: &TypeDef, env: &Vec<(String, VisitsExec)>, cfg: &Config) -> (r: Vec<Dependency>)
    ensures
        dep_views(r@) == derived_deps(*d, env_view(env@), cfg@),
    decreases *d, 1nat,
{
    if d.attr.type_override.is_some() {
        let r: Vec<Dependency> = Vec::new();
        proof {
            assert(dep_views(r@) =~= Seq::<DepView>::empty());
        }
        return r;
    }
    match &d.type_as {
        Some(a) => {
            let v = visits_exec(a, env, cfg);
            let mut r = copy_deps(&v.itself);
            append_deps(&mut r, &v.generics);
            r
        },
        None => match &d.data {
            Data::Struct(Fields::Named(fs)) => collected_deps_exec(struct_fields_exec(fs, env, cfg)),
            Data::Struct(Fields::Unnamed(ts)) => {
                let l = visits_list_exec(ts, env, cfg);
                let mut c = empty_collected();
                push_all_exec(&mut c, &l);
                collected_deps_exec(c)
            },
            Data::Enum(vs) => {
                if d.attr.flow_enum.is_some() {
                    let r: Vec<Dependency> = Vec::new();
                    proof {
                        assert(dep_views(r@) =~= Seq::<DepView>::empty());
                    }
                    r
                } else {
                    collected_deps_exec(variants_exec(vs, env, cfg))
                }
            },
            _ => {
                let r: Vec<Dependency> = Vec::new();
                proof {
                    assert(dep_views(r@) =~= Seq::<DepView>::empty());
                }
                r
            },
        },
    }
}

/// The visits of a type with one inner type: it reports itself, the inner
/// type's generics then the inner type, and the inner type's dependencies.
fn one_inner(t: &FlowType, inner: VisitsExec, cfg: &Config) -> (r: VisitsExec)
    ensures
        r@ == (Visits { itself: self_dep(*t, cfg@), generics: inner@.generics + inner@.itself, deps: inner@.deps }),
{
    let mut generics = inner.generics;
    append_deps(&mut generics, &inner.itself);
    VisitsExec { itself: self_dep_exec(t, cfg), generics, deps: inner.deps }
}

/// The visits of a type with two inner types (a map, a `Result`).
fn two_inner(t: &FlowType, a: VisitsExec, b: VisitsExec, cfg: &Config) -> (r: VisitsExec)
    ensures
        r@ == (Visits {
            itself: self_dep(*t, cfg@),
            generics: a@.generics + a@.itself + b@.generics + b@.itself,
            deps: a@.deps + b@.deps,
        }),
{
    let mut generics = a.generics;
    append_deps(&mut generics, &a.itself);
    append_deps(&mut generics, &b.generics);
    append_deps(&mut generics, &b.itself);
    let mut deps = a.deps;
    append_deps(&mut deps, &b.deps);
    VisitsExec { itself: self_dep_exec(t, cfg), generics, deps }
}

/// What visiting a type reports, its generic parameters standing for what
/// `env` binds them to.
pub fn visits_exec(t: &FlowType, env: &Vec<(String, VisitsExec)>, cfg: &Config) -> (r: VisitsExec)
    ensures
        r@ == visits(*t, env_view(env@), cfg@),
    decreases *t, 1nat,
{
    match t {
        FlowType::Param(p) => bound_visits_exec(env, p.as_str()),
        FlowType::Nullable(a) => one_inner(t, visits_exec(a, env, cfg), cfg),
        FlowType::ReadOnlyArray(a) => one_inner(t, visits_exec(a, env, cfg), cfg),
        FlowType::Array(a, _) => one_inner(t, visits_exec(a, env, cfg), cfg),
        FlowType::Transparent(a) => one_inner(t, visits_exec(a, env, cfg), cfg),
        FlowType::Range(a) => one_inner(t, visits_exec(a, env, cfg), cfg),
        FlowType::Dictionary(k, v) => {
            let vk = visits_exec(k, env, cfg);
            let vv = visits_exec(v, env, cfg);
            two_inner(t, vk, vv, cfg)
        },
        FlowType::ResultOf(a, b) => {
            let va = visits_exec(a, env, cfg);
            let vb = visits_exec(b, env, cfg);
            two_inner(t, va, vb, cfg)
        },
        FlowType::Tuple(ts) => {
            let l = visits_list_exec(ts, env, cfg);
            let deps: Vec<Dependency> = Vec::new();
            proof {
                assert(dep_views(deps@) =~= Seq::<DepView>::empty());
            }
            VisitsExec { itself: self_dep_exec(t, cfg), generics: itself_then_generics_exec(&l), deps }
        },
        FlowType::Function(args, ret) => {
            let l = visits_list_exec(args, env, cfg);
            let vr = visits_exec(ret, env, cfg);
            let mut generics = itselves_exec(&l);
            append_deps(&mut generics, &vr.itself);
            let deps: Vec<Dependency> = Vec::new();
            proof {
                assert(dep_views(deps@) =~= Seq::<DepView>::empty());
            }
            VisitsExec { itself: self_dep_exec(t, cfg), generics, deps }
        },
        FlowType::Defined(d, args) => {
            let avs = visits_list_exec(args, env, cfg);
            let generics = free_params_exec(&d.generics, &avs);
            let env2 = bindings_exec(&d.generics, &avs);
            let deps = derived_deps_exec(d, &env2, cfg);
            VisitsExec { itself: self_dep_exec(t, cfg), generics, deps }
        },
        _ => {
            let generics: Vec<Dependency> = Vec::new();
            let deps: Vec<Dependency> = Vec::new();
            proof {
                assert(dep_views(deps@) =~= Seq::<DepView>::empty());
            }
            VisitsExec { itself: self_dep_exec(t, cfg), generics, deps }
        },
    }
}

impl FlowType {
    /// Resolve the dependencies of this type (`Flow::dependencies`): the
    /// exportable types its `visit_dependencies` reports, in order.
    pub fn dependencies(&self, cfg: &Config) -> (r: Vec<Dependency>)
        ensures
            dep_views(r@) == dependencies_of(*self, cfg@),
    {
        let env: Vec<(String, VisitsExec)> = Vec::new();
        proof {
            assert(env_view(env@) =~= Seq::<(Seq<char>, Visits)>::empty());
        }
        visits_exec(self, &env, cfg).deps
    }
}


// ── The export graph of a set of types ─────────────────────────────────

/// The first of `types` exported to `path`.
pub open spec fn index_of_path(types: Seq<FlowType>, path: Seq<char>) -> Option<int>
    decreases types.len(),
{
    if types.len() == 0 {
        None
    } else {
        match index_of_path(types.drop_last(), path) {
            Some(i) => Some(i),
            None => if output_path_of(types.last()) == Some(path) {
                Some(types.len() - 1)
            } else {
                None
            },
        }
    }
}

/// The types among `types` that the dependencies `ds` name (by their
/// output path), in order; a dependency not among them is left out.
pub open spec fn resolved(types: Seq<FlowType>, ds: Seq<DepView>) -> Seq<int>
    decreases ds.len(),
{
    if ds.len() == 0 {
        Seq::empty()
    } else {
        match index_of_path(types, ds.last().path) {
            Some(j) => resolved(types, ds.drop_last()).push(j),
            None => resolved(types, ds.drop_last()),
        }
    }
}

proof fn lemma_index_of_path(types: Seq<FlowType>, path: Seq<char>)
    ensures
        index_of_path(types, path) matches Some(j) ==> 0 <= j < types.len() && output_path_of(types[j]) == Some(path),
        index_of_path(types, path) is None ==> forall|j: int| 0 <= j < types.len() ==> output_path_of(#[trigger] types[j]) != Some(path),
    decreases types.len(),
{
    if types.len() > 0 {
        lemma_index_of_path(types.drop_last(), path);
        assert forall|j: int| 0 <= j < types.len() - 1 implies types.drop_last()[j] == types[j] by {}
    }
}

fn index_of_path_exec(types: &Vec<FlowType>, paths: &Vec<Option<String>>, path: &str) -> (r: Option<usize>)
    requires
        paths@.len() == types@.len(),
        forall|i: int| 0 <= i < paths@.len() ==> crate::model::sv(#[trigger] paths@[i]) == output_path_of(types@[i]),
    ensures
        match r {
            Some(j) => index_of_path(types@, path@) == Some(j as int),
            None => index_of_path(types@, path@) is None,
        },
{
    let n = types.len();
    let mut i: usize = 0;
    proof {
        assert(types@.take(0) =~= Seq::<FlowType>::empty());
    }
    while i < n
        invariant
            n == types@.len(),
            paths@.len() == n,
            forall|k: int| 0 <= k < paths@.len() ==> crate::model::sv(#[trigger] paths@[k]) == output_path_of(types@[k]),
            i <= n,
            index_of_path(types@.take(i as int), path@) is None,
        decreases n - i,
    {
        proof {
            assert(types@.take(i + 1).drop_last() =~= types@.take(i as int));
            assert(types@.take(i + 1).last() == types@[i as int]);
            assert(crate::model::sv(paths@[i as int]) == output_path_of(types@[i as int]));
        }
        let hit = match &paths[i] {
            Some(p) => crate::strings::str_equal(p.as_str(), path),
            None => false,
        };
        if hit {
            proof {
                lemma_index_of_path_extends(types@, path@, i as int + 1);
            }
            return Some(i);
        }
        i = i + 1;
    }
    proof {
        assert(types@.take(n as int) =~= types@);
    }
    None
}

proof fn lemma_index_of_path_extends(types: Seq<FlowType>, path: Seq<char>, k: int)
    requires
        0 < k <= types.len(),
        index_of_path(types.take(k), path) is Some,
    ensures
        index_of_path(types, path) == index_of_path(types.take(k), path),
    decreases types.len() - k,
{
    if k < types.len() {
        assert(types.take(k + 1).drop_last() =~= types.take(k));
        lemma_index_of_path_extends(types, path, k + 1);
    } else {
        assert(types.take(k) =~= types);
    }
}

proof fn lemma_resolved_in_range(types: Seq<FlowType>, ds: Seq<DepView>)
    ensures
        forall|i: int| 0 <= i < resolved(types, ds).len() ==> 0 <= #[trigger] resolved(types, ds)[i] < types.len(),
    decreases ds.len(),
{
    if ds.len() > 0 {
        lemma_resolved_in_range(types, ds.drop_last());
        lemma_index_of_path(types, ds.last().path);
        let prev = resolved(types, ds.drop_last());
        match index_of_path(types, ds.last().path) {
            Some(j) => {
                assert forall|i: int| 0 <= i < prev.push(j).len() implies 0 <= #[trigger] prev.push(j)[i] < types.len() by {
                    if i < prev.len() {
                        assert(prev.push(j)[i] == prev[i]);
                    }
                }
            },
            None => {},
        }
    }
}

/// The export graph of `types`: for each, its name, its output path, and
/// the types among `types` it depends on.
pub fn export_graph(types: &Vec<FlowType>, cfg: &Config) -> (r: Vec<ExportNode>)
    ensures
        r@.len() == types@.len(),
        graph_ok(r@),
        forall|i: int| #![trigger r@[i]] 0 <= i < r@.len() ==> {
            &&& r@[i].rust_name@ == reported_name(types@[i], cfg@)
            &&& crate::model::sv(r@[i].output_path) == output_path_of(types@[i])
            &&& r@[i].deps@.map_values(|j: usize| j as int) == resolved(types@, dependencies_of(types@[i], cfg@))
        },
{
    let n = types.len();
    let mut paths: Vec<Option<String>> = Vec::new();
    let mut i: usize = 0;
    while i < n
        invariant
            n == types@.len(),
            i <= n,
            paths@.len() == i,
            forall|k: int| 0 <= k < i ==> crate::model::sv(#[trigger] paths@[k]) == output_path_of(types@[k]),
        decreases n - i,
    {
        let p = types[i].output_path();
        paths.push(p);
        i = i + 1;
    }
    let mut nodes: Vec<ExportNode> = Vec::new();
    let mut i: usize = 0;
    while i < n
        invariant
            n == types@.len(),
            paths@.len() == n,
            forall|k: int| 0 <= k < paths@.len() ==> crate::model::sv(#[trigger] paths@[k]) == output_path_of(types@[k]),
            i <= n,
            nodes@.len() == i,
            forall|k: int| #![trigger nodes@[k]] 0 <= k < i ==> {
                &&& nodes@[k].rust_name@ == reported_name(types@[k], cfg@)
                &&& crate::model::sv(nodes@[k].output_path) == output_path_of(types@[k])
                &&& nodes@[k].deps@.map_values(|j: usize| j as int) == resolved(types@, dependencies_of(types@[k], cfg@))
            },
        decreases n - i,
    {
        let ds = types[i].dependencies(cfg);
        let ghost dv = dep_views(ds@);
        let mut deps: Vec<usize> = Vec::new();
        let m = ds.len();
        let mut j: usize = 0;
        proof {
            assert(dv.take(0) =~= Seq::<DepView>::empty());
            assert(deps@.map_values(|x: usize| x as int) =~= Seq::<int>::empty());
        }
        while j < m
            invariant
                m == ds@.len(),
                dv == dep_views(ds@),
                n == types@.len(),
                paths@.len() == n,
                forall|k: int| 0 <= k < paths@.len() ==> crate::model::sv(#[trigger] paths@[k]) == output_path_of(types@[k]),
                j <= m,
                deps@.map_values(|x: usize| x as int) == resolved(types@, dv.take(j as int)),
            decreases m - j,
        {
            proof {
                assert(dv.take(j + 1).drop_last() =~= dv.take(j as int));
                assert(dv.take(j + 1).last().path == ds@[j as int].output_path@);
            }
            let ghost before = deps@;
            match index_of_path_exec(types, &paths, ds[j].output_path.as_str()) {
                Some(k) => {
                    deps.push(k);
                    proof {
                        assert(deps@.map_values(|x: usize| x as int) =~= before.map_values(|x: usize| x as int).push(k as int));
                    }
                },
                None => {},
            }
            j = j + 1;
        }
        proof {
            assert(dv.take(m as int) =~= dv);
        }
        proof {
            reveal_strlit("");
        }
        let name = match types[i].try_render(Mode::Name, cfg) {
            Some(s) => s,
            None => crate::strings::to_owned_string(""),
        };
        let path = match &paths[i] {
            Some(p) => Some(p.clone()),
            None => None,
        };
        let node = ExportNode { rust_name: name, output_path: path, deps };
        let ghost before_nodes = nodes@;
        nodes.push(node);
        proof {
            assert forall|k: int| #![trigger nodes@[k]] 0 <= k < i + 1 implies {
                &&& nodes@[k].rust_name@ == reported_name(types@[k], cfg@)
                &&& crate::model::sv(nodes@[k].output_path) == output_path_of(types@[k])
                &&& nodes@[k].deps@.map_values(|j: usize| j as int) == resolved(types@, dependencies_of(types@[k], cfg@))
            } by {
                if k < i {
                    assert(nodes@[k] == before_nodes[k]);
                }
            }
        }
        i = i + 1;
    }
    proof {
        assert forall|a: int, b: int|
            0 <= a < nodes@.len() && 0 <= b < nodes@[a].deps@.len() implies #[trigger] nodes@[a].deps@[b] < nodes@.len() by {
            lemma_resolved_in_range(types@, dependencies_of(types@[a], cfg@));
            let mapped = nodes@[a].deps@.map_values(|j: usize| j as int);
            assert(mapped[b] == nodes@[a].deps@[b] as int);
        }
    }
    nodes
}


// ── Import statements ───────────────────────────────────────────────────

/// Whether the dependency at `i` is the first with its output path.
pub open spec fn first_with_path(ds: Seq<DepView>, i: int) -> bool {
    forall|k: int| 0 <= k < i ==> ds[k].path != ds[i].path
}

/// The import statement of a dependency in the file of a type exported to
/// `own`.
pub open spec fn import_line(own: Seq<char>, d: DepView) -> Seq<char> {
    "import type { "@ + d.name + " } from '"@ + import_path(own, d.path) + "';\n"@
}

/// The import statements for the first `n` dependencies: one for each
/// output path other than `own`, where it first occurs.
pub open spec fn import_lines(own: Seq<char>, ds: Seq<DepView>, n: int) -> Seq<char>
    decreases n,
{
    if n <= 0 || n > ds.len() {
        Seq::empty()
    } else {
        import_lines(own, ds, n - 1) + if ds[n - 1].path != own && first_with_path(ds, n - 1) {
            import_line(own, ds[n - 1])
        } else {
            Seq::<char>::empty()
        }
    }
}

/// The import block of the file a type is exported to: its import
/// statements followed by a blank line, or nothing when it imports nothing.
pub open spec fn imports_of(t: FlowType, cfg: ConfigView) -> Seq<char> {
    match output_path_of(t) {
        Some(own) => {
            let ds = dependencies_of(t, cfg);
            let lines = import_lines(own, ds, ds.len() as int);
            if lines.len() == 0 {
                Seq::empty()
            } else {
                lines + "\n"@
            }
        },
        None => Seq::empty(),
    }
}

/// The import block of the file a type is exported to.
pub fn import_block(t: &FlowType, cfg: &Config) -> (r: String)
    ensures
        r@ == imports_of(*t, cfg@),
{
    proof {
        reveal_strlit("");
    }
    let own = match t.output_path() {
        Some(p) => p,
        None => {
            return to_owned_string("");
        },
    };
    let ds = t.dependencies(cfg);
    let ghost dv = dep_views(ds@);
    let n = ds.len();
    let mut lines = to_owned_string("");
    let mut i: usize = 0;
    while i < n
        invariant
            n == ds@.len(),
            dv == dep_views(ds@),
            dv.len() == n,
            i <= n,
            lines@ == import_lines(own@, dv, i as int),
        decreases n - i,
    {
        let mut first = true;
        let mut k: usize = 0;
        while k < i
            invariant
                n == ds@.len(),
                dv == dep_views(ds@),
                i < n,
                k <= i,
                first == (forall|m: int| 0 <= m < k ==> dv[m].path != dv[i as int].path),
            decreases i - k,
        {
            proof {
                assert(dv[k as int].path == ds@[k as int].output_path@);
                assert(dv[i as int].path == ds@[i as int].output_path@);
            }
            if crate::strings::str_equal(ds[k].output_path.as_str(), ds[i].output_path.as_str()) {
                first = false;
                proof {
                    assert(dv[k as int].path == dv[i as int].path);
                }
            }
            k = k + 1;
        }
        let same = crate::strings::str_equal(ds[i].output_path.as_str(), own.as_str());
        let ghost before = lines@;
        if !same && first {
            lines.append("import type { ");
            lines.append(ds[i].flow_name.as_str());
            lines.append(" } from '");
            let rel = relative_import_path(own.as_str(), ds[i].output_path.as_str());
            lines.append(rel.as_str());
            lines.append("';\n");
            proof {
                assert(lines@ =~= before + import_line(own@, dv[i as int]));
            }
        } else {
            proof {
                assert(before + Seq::<char>::empty() =~= before);
            }
        }
        i = i + 1;
    }
    if lines.as_str().unicode_len() == 0 {
        lines
    } else {
        lines.append("\n");
        lines
    }
}

} // verus!
