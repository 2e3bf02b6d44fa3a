//! Export of Flow declarations: the content of exported files, the paths
//! they are written to, and the order in which a type and its dependencies
//! are exported.

use vstd::prelude::*;
use crate::config::{Config, ConfigView};
use crate::deps::imports_of;
use crate::decl::{decl_of, output_path_of, ident_of};
use crate::model::{FlowType, Mode, render};
use crate::paths::with_extension;
use crate::strings::{join, views, join_strings, to_owned_string, trim};

verus! {

/// Export error.
pub enum ExportError {
    /// The type has no output path (or no declaration).
    CannotBeExported(String),
    /// Reading or writing a file failed, with the system's message.
    Io(String),
    /// Formatting failed.
    Fmt,
}

/// The message of an export error.
pub open spec fn export_error_text(e: ExportError) -> Seq<char> {
    match e {
        ExportError::CannotBeExported(t) => "type `"@ + t@ + "` cannot be exported"@,
        ExportError::Io(msg) => msg@,
        ExportError::Fmt => "an error occurred when formatting an argument"@,
    }
}

impl ExportError {
    /// The error's message, as it is displayed.
    pub fn message(&self) -> (r: String)
        ensures
            r@ == export_error_text(*self),
    {
        match self {
            ExportError::CannotBeExported(t) => {
                let mut s = to_owned_string("type `");
                s.append(t.as_str());
                s.append("` cannot be exported");
                s
            },
            ExportError::Io(msg) => msg.clone(),
            ExportError::Fmt => to_owned_string("an error occurred when formatting an argument"),
        }
    }
}

/// Configuration for type export.
pub struct ExportConfig {
    pub export_dir: String,
    pub file_extension: String,
    pub array_tuple_limit: usize,
    pub large_int_type: String,
}

impl Default for ExportConfig {
    fn default() -> (r: Self)
        ensures
            r.export_dir@ == "./bindings"@,
            r.file_extension@ == "js.flow"@,
            r.array_tuple_limit == 64,
            r.large_int_type@ == "bigint"@,
    {
        ExportConfig {
            export_dir: to_owned_string("./bindings"),
            file_extension: to_owned_string("js.flow"),
            array_tuple_limit: 64,
            large_int_type: to_owned_string("bigint"),
        }
    }
}

impl ExportConfig {
    /// Resolve a base path (without extension) to a full path with extension.
    pub fn resolve_path(&self, base: &str) -> (r: String)
        ensures
            r@ == with_extension(base@, self.file_extension@),
    {
        crate::paths::resolve_with_extension(base, self.file_extension.as_str())
    }
}

/// A Flow type which is depended upon by other types: what an import
/// statement needs.
pub struct Dependency {
    /// Name of the type in Flow.
    pub flow_name: String,
    /// Path to where the type would be exported, without base directory.
    pub output_path: String,
}

impl Dependency {
    /// Construct a [`Dependency`] from the given type. A type that is not
    /// exportable (it has no output path, or no identifier) gives `None`.
    pub fn from_ty(t: &FlowType, cfg: &Config) -> (r: Option<Dependency>)
        ensures
            r is Some <==> (output_path_of(*t) is Some && ident_of(*t, cfg@) is Some),
            r matches Some(d) ==> d.flow_name@ == ident_of(*t, cfg@).unwrap() && d.output_path@
                == output_path_of(*t).unwrap(),
    {
        let output_path = match t.output_path() {
            Some(p) => p,
            None => {
                return None;
            },
        };
        match t.try_ident(cfg) {
            Some(flow_name) => Some(Dependency { flow_name, output_path }),
            None => None,
        }
    }
}

/// The JSDoc block of a type: ` * line` for each doc line.
pub open spec fn jsdoc(lines: Seq<Seq<char>>) -> Seq<char> {
    "/**\n"@ + join(lines.map_values(|l: Seq<char>| " * "@ + l), "\n"@) + "\n */\n"@
}

/// The content of the file a type is exported to: the `@flow` header, the
/// imports of its dependencies, the JSDoc of its doc comment, and its
/// declaration, exported.
pub open spec fn file_content(t: FlowType, cfg: ConfigView) -> Option<Seq<char>> {
    match (decl_of(t, cfg), output_path_of(t)) {
        (Some(d), Some(_)) => Some(
            "// @flow\n"@ + imports_of(t, cfg) + (match t {
                FlowType::Defined(def, _) => if def.docs@.len() == 0 {
                    Seq::empty()
                } else {
                    jsdoc(def.docs@.map_values(|s: String| trim(s@)))
                },
                _ => Seq::empty(),
            }) + "export "@ + d + "\n"@,
        ),
        _ => None,
    }
}

/// The name an export error reports for a type: its Flow name when it has one.
pub open spec fn reported_name(t: FlowType, cfg: ConfigView) -> Seq<char> {
    match render(t, Mode::Name, Seq::empty(), cfg) {
        Some(n) => n,
        None => Seq::empty(),
    }
}

/// Render this type as a string, returning the full file content.
pub fn export_to_string(t: &FlowType, cfg: &Config) -> (r: Result<String, ExportError>)
    ensures
        match r {
            Ok(s) => file_content(*t, cfg@) == Some(s@),
            Err(e) => file_content(*t, cfg@) is None && e is CannotBeExported && e->CannotBeExported_0@
                == reported_name(*t, cfg@),
        },
{
    let decl = t.try_decl(cfg);
    let path = t.output_path();
    match (decl, path) {
        (Some(d), Some(_)) => {
            let mut s = to_owned_string("// @flow\n");
            let imports = crate::deps::import_block(t, cfg);
            s.append(imports.as_str());
            if let FlowType::Defined(def, _) = t {
                if def.docs.len() > 0 {
                    let mut lines: Vec<String> = Vec::new();
                    let n = def.docs.len();
                    let mut i: usize = 0;
                    let ghost trimmed = def.docs@.map_values(|s: String| trim(s@));
                    while i < n
                        invariant
                            n == def.docs@.len(),
                            i <= n,
                            trimmed == def.docs@.map_values(|s: String| trim(s@)),
                            views(lines@) =~= trimmed.map_values(|l: Seq<char>| " * "@ + l).take(i as int),
                        decreases n - i,
                    {
                        let line = crate::strings::trim_str(def.docs[i].as_str());
                        let mut one = to_owned_string(" * ");
                        one.append(line.as_str());
                        proof {
                            assert(views(lines@.push(one)) =~= views(lines@).push(one@));
                        }
                        lines.push(one);
                        i = i + 1;
                    }
                    proof {
                        assert(trimmed.map_values(|l: Seq<char>| " * "@ + l).take(n as int) =~= trimmed.map_values(|l: Seq<char>| " * "@ + l));
                    }
                    s.append("/**\n");
                    let j = join_strings(&lines, "\n");
                    s.append(j.as_str());
                    s.append("\n */\n");
                }
            }
            s.append("export ");
            s.append(d.as_str());
            s.append("\n");
            Ok(s)
        },
        _ => {
            let name = match t.try_render(Mode::Name, cfg) {
                Some(n) => n,
                None => String::new(),
            };
            Err(ExportError::CannotBeExported(name))
        },
    }
}


// ── Export order ────────────────────────────────────────────────────────

/// A type in an export graph: its name, where it is exported (relative, no
/// extension) if it is exportable, and the types it depends on (indices).
pub struct ExportNode {
    pub rust_name: String,
    pub output_path: Option<String>,
    pub deps: Vec<usize>,
}

/// Every dependency names a node of the graph.
pub open spec fn graph_ok(nodes: Seq<ExportNode>) -> bool {
    forall|i: int, j: int|
        0 <= i < nodes.len() && 0 <= j < nodes[i].deps@.len() ==> #[trigger] nodes[i].deps@[j] < nodes.len()
}

/// The number of nodes not yet seen.
pub open spec fn unseen(seen: Seq<bool>) -> nat
    decreases seen.len(),
{
    if seen.len() == 0 {
        0
    } else {
        unseen(seen.drop_last()) + if seen.last() {
            0nat
        } else {
            1nat
        }
    }
}

/// `b` has seen every node `a` has.
pub open spec fn grows(a: Seq<bool>, b: Seq<bool>) -> bool {
    a.len() == b.len() && forall|i: int| 0 <= i < a.len() && #[trigger] a[i] ==> b[i]
}

proof fn lemma_unseen_grows(a: Seq<bool>, b: Seq<bool>)
    requires
        grows(a, b),
    ensures
        unseen(b) <= unseen(a),
    decreases a.len(),
{
    if a.len() > 0 {
        assert(grows(a.drop_last(), b.drop_last())) by {
            assert forall|i: int| 0 <= i < a.drop_last().len() && #[trigger] a.drop_last()[i] implies b.drop_last()[i] by {
                assert(a[i]);
            }
        }
        lemma_unseen_grows(a.drop_last(), b.drop_last());
        if a.last() {
            assert(a[a.len() - 1]);
        }
    }
}

proof fn lemma_unseen_mark(a: Seq<bool>, t: int)
    requires
        0 <= t < a.len(),
        !a[t],
    ensures
        unseen(a.update(t, true)) < unseen(a),
    decreases a.len(),
{
    let b = a.update(t, true);
    if t == a.len() - 1 {
        assert(b.drop_last() =~= a.drop_last());
    } else {
        assert(b.drop_last() =~= a.drop_last().update(t, true));
        lemma_unseen_mark(a.drop_last(), t);
    }
}

/// The nodes planned after position `start` are distinct, exportable, and
/// were not seen in `before`.
pub open spec fn fresh_plan(nodes: Seq<ExportNode>, plan: Seq<usize>, start: int, before: Seq<bool>, after: Seq<bool>) -> bool {
    &&& forall|i: int| start <= i < plan.len() ==> #[trigger] plan[i] < nodes.len()
    &&& forall|i: int| start <= i < plan.len() ==> nodes[#[trigger] plan[i] as int].output_path is Some
    &&& forall|i: int| start <= i < plan.len() ==> !before[#[trigger] plan[i] as int] && after[plan[i] as int]
    &&& forall|i: int, j: int| start <= i < j < plan.len() ==> plan[i] != plan[j]
}

/// Node `k` is planned at or after position `start`.
pub open spec fn planned_after(plan: Seq<usize>, start: int, k: int) -> bool {
    exists|i: int| start <= i < plan.len() && #[trigger] plan[i] as int == k
}

/// Every exportable dependency of node `p` has been seen.
pub open spec fn deps_seen(nodes: Seq<ExportNode>, p: int, seen: Seq<bool>) -> bool {
    forall|j: int|
        0 <= j < nodes[p].deps@.len() && nodes[#[trigger] nodes[p].deps@[j] as int].output_path is Some
            ==> seen[nodes[p].deps@[j] as int]
}

proof fn lemma_deps_seen_grows(nodes: Seq<ExportNode>, p: int, a: Seq<bool>, b: Seq<bool>)
    requires
        graph_ok(nodes),
        0 <= p < nodes.len(),
        a.len() == nodes.len(),
        deps_seen(nodes, p, a),
        grows(a, b),
    ensures
        deps_seen(nodes, p, b),
{
    assert forall|j: int|
        0 <= j < nodes[p].deps@.len() && nodes[#[trigger] nodes[p].deps@[j] as int].output_path is Some implies b[nodes[p].deps@[j] as int] by {
        assert(nodes[p].deps@[j] < nodes.len());
        assert(a[nodes[p].deps@[j] as int]);
    }
}

/// Node `a` lists node `b` among its dependencies.
pub open spec fn has_dep(nodes: Seq<ExportNode>, a: int, b: int) -> bool {
    exists|j: int| 0 <= j < nodes[a].deps@.len() && #[trigger] nodes[a].deps@[j] as int == b
}

/// `ps` is a path of nodes, each a dependency of the one before it.
pub open spec fn is_path(nodes: Seq<ExportNode>, ps: Seq<usize>) -> bool {
    &&& ps.len() > 0
    &&& forall|k: int| 0 <= k < ps.len() ==> #[trigger] ps[k] < nodes.len()
    &&& forall|k: int| 0 <= k < ps.len() - 1 ==> has_dep(nodes, #[trigger] ps[k] as int, ps[k + 1] as int)
}

/// Node `b` can be reached from node `a` by following dependencies.
pub open spec fn reaches(nodes: Seq<ExportNode>, a: int, b: int) -> bool {
    exists|ps: Seq<usize>| #[trigger] is_path(nodes, ps) && ps[0] as int == a && ps.last() as int == b
}

/// Node `b` can be reached from node `a` by following dependencies through
/// exportable nodes only (every node after `a` is exportable).
pub open spec fn reaches_exportable(nodes: Seq<ExportNode>, a: int, b: int) -> bool {
    exists|ps: Seq<usize>|
        #[trigger] is_path(nodes, ps) && ps[0] as int == a && ps.last() as int == b && forall|k: int|
            1 <= k < ps.len() ==> nodes[#[trigger] ps[k] as int].output_path is Some
}

/// Node `k` is planned before position `i`.
pub open spec fn planned_before(plan: Seq<usize>, i: int, k: int) -> bool {
    exists|m: int| 0 <= m < i && #[trigger] plan[m] as int == k
}

/// Every exportable dependency of a node planned from position `start` on
/// is planned before it, unless it reaches back to that node.
pub open spec fn ordered_from(nodes: Seq<ExportNode>, plan: Seq<usize>, start: int) -> bool {
    forall|i: int, j: int|
        #![trigger plan[i], nodes[plan[i] as int].deps@[j]]
        start <= i < plan.len() && 0 <= j < nodes[plan[i] as int].deps@.len()
            && nodes[nodes[plan[i] as int].deps@[j] as int].output_path is Some ==> planned_before(
            plan,
            i,
            nodes[plan[i] as int].deps@[j] as int,
        ) || reaches(nodes, nodes[plan[i] as int].deps@[j] as int, plan[i] as int)
}

/// The nodes in progress: `stack` is the path of dependencies being
/// followed down to `t`.
pub open spec fn stack_ok(nodes: Seq<ExportNode>, stack: Seq<usize>, t: int) -> bool {
    stack.len() == 0 || (is_path(nodes, stack) && has_dep(nodes, stack.last() as int, t))
}

/// Every node seen is planned or in progress.
pub open spec fn accounted(plan: Seq<usize>, seen: Seq<bool>, stack: Seq<usize>) -> bool {
    forall|k: int| 0 <= k < seen.len() && #[trigger] seen[k] ==> planned_after(plan, 0, k) || stack.contains(k as usize)
}

proof fn lemma_planned_before_extends(a: Seq<usize>, b: Seq<usize>, i: int, k: int)
    requires
        planned_before(a, i, k),
        i <= a.len() <= b.len(),
        b.take(a.len() as int) == a,
    ensures
        planned_before(b, i, k),
{
    let m = choose|m: int| 0 <= m < i && #[trigger] a[m] as int == k;
    assert(b.take(a.len() as int)[m] == a[m]);
    assert(b[m] as int == k);
}

proof fn lemma_reaches_self(nodes: Seq<ExportNode>, t: usize)
    requires
        t < nodes.len(),
    ensures
        reaches_exportable(nodes, t as int, t as int),
{
    let ps = seq![t];
    assert(is_path(nodes, ps));
}

proof fn lemma_reaches_prepend(nodes: Seq<ExportNode>, t: usize, u: usize, x: int)
    requires
        t < nodes.len(),
        nodes[u as int].output_path is Some,
        has_dep(nodes, t as int, u as int),
        reaches_exportable(nodes, u as int, x),
    ensures
        reaches_exportable(nodes, t as int, x),
{
    let ps = choose|ps: Seq<usize>|
        #[trigger] is_path(nodes, ps) && ps[0] as int == u as int && ps.last() as int == x && forall|k: int|
            1 <= k < ps.len() ==> nodes[#[trigger] ps[k] as int].output_path is Some;
    let qs = seq![t] + ps;
    assert forall|k: int| 0 <= k < qs.len() implies #[trigger] qs[k] < nodes.len() by {
        if k > 0 {
            assert(qs[k] == ps[k - 1]);
        }
    }
    assert forall|k: int| 0 <= k < qs.len() - 1 implies has_dep(nodes, #[trigger] qs[k] as int, qs[k + 1] as int) by {
        if k == 0 {
            assert(qs[1] == ps[0]);
        } else {
            assert(qs[k] == ps[k - 1]);
            assert(qs[k + 1] == ps[k]);
        }
    }
    assert forall|k: int| 1 <= k < qs.len() implies nodes[#[trigger] qs[k] as int].output_path is Some by {
        assert(qs[k] == ps[k - 1]);
    }
    assert(is_path(nodes, qs));
    assert(qs[0] == t);
    assert(qs.last() == ps.last());
}

proof fn lemma_stack_reaches(nodes: Seq<ExportNode>, stack: Seq<usize>, t: usize, d: usize)
    requires
        stack_ok(nodes, stack, t as int),
        t < nodes.len(),
        stack.push(t).contains(d),
    ensures
        reaches(nodes, d as int, t as int),
{
    let full = stack.push(t);
    let m = choose|m: int| 0 <= m < full.len() && full[m] == d;
    let ps = full.subrange(m, full.len() as int);
    assert forall|k: int| 0 <= k < ps.len() implies #[trigger] ps[k] < nodes.len() by {
        if m + k < stack.len() {
            assert(ps[k] == stack[m + k]);
        }
    }
    assert forall|k: int| 0 <= k < ps.len() - 1 implies has_dep(nodes, #[trigger] ps[k] as int, ps[k + 1] as int) by {
        if m + k + 1 < stack.len() {
            assert(ps[k] == stack[m + k]);
            assert(ps[k + 1] == stack[m + k + 1]);
        } else {
            assert(ps[k] == stack.last());
            assert(ps[k + 1] == t);
        }
    }
    assert(is_path(nodes, ps));
    assert(ps[0] == d);
    assert(ps.last() == t);
}

/// Plans the export of node `t` and, before it, of its exportable
/// dependencies not yet seen, depth first: each node is planned once, after
/// its dependencies. A dependency that cannot be exported is skipped; `t`
/// itself must be exportable.
pub fn export_recursive(
    nodes: &Vec<ExportNode>,
    t: usize,
    seen: &mut Vec<bool>,
    plan: &mut Vec<usize>,
    Ghost(stack): Ghost<Seq<usize>>,
) -> (r: Result<(), ExportError>)
    requires
        graph_ok(nodes@),
        t < nodes@.len(),
        old(seen)@.len() == nodes@.len(),
        forall|i: int| 0 <= i < old(plan)@.len() ==> #[trigger] old(plan)@[i] < nodes@.len() && old(seen)@[old(plan)@[i] as int],
    ensures
        grows(old(seen)@, final(seen)@),
        final(seen)@[t as int],
        final(plan)@.len() >= old(plan)@.len(),
        final(plan)@.take(old(plan)@.len() as int) == old(plan)@,
        fresh_plan(nodes@, final(plan)@, old(plan)@.len() as int, old(seen)@, final(seen)@),
        forall|i: int| 0 <= i < final(plan)@.len() ==> #[trigger] final(plan)@[i] < nodes@.len() && final(seen)@[final(plan)@[i] as int],
        r is Ok && !old(seen)@[t as int] ==> final(plan)@.len() > old(plan)@.len() && final(plan)@.last() == t,
        old(seen)@[t as int] ==> r is Ok && final(plan)@ == old(plan)@ && final(seen)@ == old(seen)@,
        nodes@[t as int].output_path is Some ==> r is Ok,
        r matches Err(ExportError::CannotBeExported(n)) ==> n == nodes@[t as int].rust_name && nodes@[t as int].output_path is None,
        r is Err ==> r->Err_0 is CannotBeExported,
        r is Ok ==> forall|k: int|
            0 <= k < nodes@.len() && final(seen)@[k] && !old(seen)@[k] ==> planned_after(final(plan)@, old(plan)@.len() as int, k),
        forall|i: int|
            old(plan)@.len() <= i < final(plan)@.len() ==> deps_seen(nodes@, #[trigger] final(plan)@[i] as int, final(seen)@),
        stack_ok(nodes@, stack, t as int) && accounted(old(plan)@, old(seen)@, stack) ==> ordered_from(
            nodes@,
            final(plan)@,
            old(plan)@.len() as int,
        ),
        forall|i: int|
            old(plan)@.len() <= i < final(plan)@.len() ==> reaches_exportable(nodes@, t as int, #[trigger] final(plan)@[i] as int),
        forall|k: int|
            0 <= k < nodes@.len() && final(seen)@[k] && !old(seen)@[k] && k != t ==> planned_after(final(plan)@, old(plan)@.len() as int, k),
        !old(seen)@[t as int] ==> deps_seen(nodes@, t as int, final(seen)@),
    decreases unseen(old(seen)@),
{
    if seen[t] {
        return Ok(());
    }
    let ghost seen0 = seen@;
    let ghost plan0 = plan@;
    let ghost h = stack_ok(nodes@, stack, t as int) && accounted(plan0, seen0, stack);
    let ghost inner = stack.push(t);
    seen.set(t, true);
    proof {
        lemma_unseen_mark(seen0, t as int);
    }
    let ghost seen1 = seen@;
    let node = &nodes[t];
    let n = node.deps.len();
    let mut i: usize = 0;
    let mut error: Option<ExportError> = None;
    while i < n
        invariant
            graph_ok(nodes@),
            t < nodes@.len(),
            node == nodes@[t as int],
            n == node.deps@.len(),
            i <= n,
            seen0.len() == nodes@.len(),
            seen1 == seen0.update(t as int, true),
            unseen(seen1) < unseen(seen0),
            seen0 == old(seen)@,
            plan0 == old(plan)@,
            !seen0[t as int],
            grows(seen1, seen@),
            seen1[t as int],
            seen@.len() == nodes@.len(),
            plan@.len() >= plan0.len(),
            plan@.take(plan0.len() as int) == plan0,
            fresh_plan(nodes@, plan@, plan0.len() as int, seen0, seen@),
            forall|k: int| 0 <= k < plan@.len() ==> #[trigger] plan@[k] < nodes@.len() && seen@[plan@[k] as int],
            forall|k: int| plan0.len() <= k < plan@.len() ==> plan@[k] != t,
            error is None,
            forall|k: int| 0 <= k < nodes@.len() && seen@[k] && !seen1[k] ==> planned_after(plan@, plan0.len() as int, k),
            forall|k: int| plan0.len() <= k < plan@.len() ==> deps_seen(nodes@, #[trigger] plan@[k] as int, seen@),
            forall|j: int| 0 <= j < i && nodes@[#[trigger] node.deps@[j] as int].output_path is Some ==> seen@[node.deps@[j] as int],
            h == (stack_ok(nodes@, stack, t as int) && accounted(plan0, seen0, stack)),
            inner == stack.push(t),
            forall|k: int|
                plan0.len() <= k < plan@.len() ==> reaches_exportable(nodes@, t as int, #[trigger] plan@[k] as int),
            h ==> ordered_from(nodes@, plan@, plan0.len() as int),
            h ==> forall|j: int|
                0 <= j < i && nodes@[#[trigger] node.deps@[j] as int].output_path is Some ==> planned_after(plan@, 0, node.deps@[j] as int)
                    || inner.contains(node.deps@[j]),
        decreases n - i,
    {
        let u = node.deps[i];
        proof {
            assert(nodes@[t as int].deps@[i as int] < nodes@.len());
        }
        if error.is_none() && nodes[u].output_path.is_some() {
            proof {
                lemma_unseen_grows(seen1, seen@);
            }
            let ghost before = plan@;
            let ghost seen_before = seen@;
            proof {
                if h {
                    assert(stack_ok(nodes@, inner, u as int)) by {
                        assert(has_dep(nodes@, t as int, u as int)) by {
                            assert(nodes@[t as int].deps@[i as int] as int == u as int);
                        }
                        assert forall|k: int| 0 <= k < inner.len() implies #[trigger] inner[k] < nodes@.len() by {
                            if k < stack.len() {
                                assert(inner[k] == stack[k]);
                            }
                        }
                        assert forall|k: int| 0 <= k < inner.len() - 1 implies has_dep(nodes@, #[trigger] inner[k] as int, inner[k + 1] as int) by {
                            assert(inner[k] == stack[k]);
                            if k + 1 < stack.len() {
                                assert(inner[k + 1] == stack[k + 1]);
                            } else {
                                assert(inner[k + 1] == t);
                            }
                        }
                    }
                    assert(accounted(plan@, seen@, inner)) by {
                        assert forall|k: int| 0 <= k < seen@.len() && #[trigger] seen@[k] implies planned_after(plan@, 0, k) || inner.contains(k as usize) by {
                            if k == t {
                                assert(inner[stack.len() as int] == t);
                            } else if seen0[k] {
                                if stack.contains(k as usize) {
                                    let w = choose|w: int| 0 <= w < stack.len() && stack[w] == k as usize;
                                    assert(inner[w] == k as usize);
                                } else {
                                    let w = choose|w: int| 0 <= w < plan0.len() && #[trigger] plan0[w] as int == k;
                                    assert(plan@.take(plan0.len() as int)[w] == plan0[w]);
                                    assert(plan@[w] as int == k);
                                }
                            } else {
                                assert(!seen1[k]);
                                let w = choose|w: int| plan0.len() <= w < plan@.len() && #[trigger] plan@[w] as int == k;
                                assert(plan@[w] as int == k);
                            }
                        }
                    }
                }
            }
            let res = export_recursive(nodes, u, seen, plan, Ghost(inner));
            proof {
                assert forall|k: int| plan0.len() <= k < plan@.len() implies plan@[k] != t by {
                    if k < before.len() {
                        assert(plan@.take(before.len() as int)[k] == before[k]);
                    } else {
                        assert(!seen_before[plan@[k] as int]);
                        assert(seen1[t as int]);
                        assert(seen_before[t as int]);
                    }
                }
                assert(plan@.take(plan0.len() as int) =~= plan0) by {
                    assert forall|k: int| 0 <= k < plan0.len() implies plan@[k] == plan0[k] by {
                        assert(plan@.take(before.len() as int)[k] == before[k]);
                        assert(before.take(plan0.len() as int)[k] == plan0[k]);
                    }
                }
                assert forall|a: int, b: int| plan0.len() <= a < b < plan@.len() implies plan@[a] != plan@[b] by {
                    if b >= before.len() && a < before.len() {
                        assert(plan@.take(before.len() as int)[a] == before[a]);
                        assert(seen_before[before[a] as int]);
                    } else if b < before.len() {
                        assert(plan@.take(before.len() as int)[a] == before[a]);
                        assert(plan@.take(before.len() as int)[b] == before[b]);
                    }
                }
                assert forall|k: int| plan0.len() <= k < plan@.len() implies #[trigger] plan@[k] < nodes@.len()
                    && nodes@[plan@[k] as int].output_path is Some by {
                    if k < before.len() {
                        assert(plan@.take(before.len() as int)[k] == before[k]);
                    }
                }
                assert forall|k: int| plan0.len() <= k < plan@.len() implies !seen0[plan@[k] as int] && seen@[plan@[k] as int] by {
                    if k < before.len() {
                        assert(plan@.take(before.len() as int)[k] == before[k]);
                        assert(seen_before[before[k] as int]);
                    } else {
                        let x = plan@[k] as int;
                        assert(x < nodes@.len());
                        assert(!seen_before[x]);
                        if seen0[x] {
                            assert(seen1[x]);
                            assert(seen_before[x]);
                        }
                    }
                }
            }
            proof {
                assert forall|k: int| 0 <= k < nodes@.len() && seen@[k] && !seen1[k] implies planned_after(plan@, plan0.len() as int, k) by {
                    if seen_before[k] {
                        let w = choose|w: int| plan0.len() <= w < before.len() && #[trigger] before[w] as int == k;
                        assert(plan@.take(before.len() as int)[w] == before[w]);
                        assert(plan@[w] as int == k);
                    } else {
                        let w = choose|w: int| before.len() <= w < plan@.len() && #[trigger] plan@[w] as int == k;
                        assert(plan@[w] as int == k);
                    }
                }
                assert forall|k: int| plan0.len() <= k < plan@.len() implies deps_seen(nodes@, #[trigger] plan@[k] as int, seen@) by {
                    if k < before.len() {
                        assert(plan@.take(before.len() as int)[k] == before[k]);
                        assert(deps_seen(nodes@, before[k] as int, seen_before));
                        lemma_deps_seen_grows(nodes@, before[k] as int, seen_before, seen@);
                    }
                }
                assert forall|j: int| 0 <= j < i + 1 && nodes@[#[trigger] node.deps@[j] as int].output_path is Some implies seen@[node.deps@[j] as int] by {
                    if j < i {
                        assert(seen_before[node.deps@[j] as int]);
                    }
                }
                {
                    assert forall|k: int| plan0.len() <= k < plan@.len() implies reaches_exportable(nodes@, t as int, #[trigger] plan@[k] as int) by {
                        if k < before.len() {
                            assert(plan@.take(before.len() as int)[k] == before[k]);
                            assert(reaches_exportable(nodes@, t as int, before[k] as int));
                        } else {
                            assert(reaches_exportable(nodes@, u as int, plan@[k] as int));
                            assert(has_dep(nodes@, t as int, u as int)) by {
                                assert(nodes@[t as int].deps@[i as int] as int == u as int);
                            }
                            lemma_reaches_prepend(nodes@, t, u, plan@[k] as int);
                        }
                    }
                }
                if h {
                    assert forall|a: int, b: int|
                        #![trigger plan@[a], nodes@[plan@[a] as int].deps@[b]]
                        plan0.len() <= a < plan@.len() && 0 <= b < nodes@[plan@[a] as int].deps@.len()
                            && nodes@[nodes@[plan@[a] as int].deps@[b] as int].output_path is Some implies planned_before(
                            plan@,
                            a,
                            nodes@[plan@[a] as int].deps@[b] as int,
                        ) || reaches(nodes@, nodes@[plan@[a] as int].deps@[b] as int, plan@[a] as int) by {
                        if a < before.len() {
                            assert(plan@.take(before.len() as int)[a] == before[a]);
                            let d = nodes@[before[a] as int].deps@[b] as int;
                            if planned_before(before, a, d) {
                                lemma_planned_before_extends(before, plan@, a, d);
                            }
                        }
                    }
                    assert forall|j: int|
                        0 <= j < i + 1 && nodes@[#[trigger] node.deps@[j] as int].output_path is Some implies planned_after(plan@, 0, node.deps@[j] as int)
                            || inner.contains(node.deps@[j]) by {
                        let d = node.deps@[j] as int;
                        if j < i {
                            if planned_after(before, 0, d) {
                                let w = choose|w: int| 0 <= w < before.len() && #[trigger] before[w] as int == d;
                                assert(plan@.take(before.len() as int)[w] == before[w]);
                                assert(plan@[w] as int == d);
                            }
                        } else if seen_before[d] {
                            if !inner.contains(d as usize) {
                                assert(accounted(before, seen_before, inner));
                                let w = choose|w: int| 0 <= w < before.len() && #[trigger] before[w] as int == d;
                                assert(plan@.take(before.len() as int)[w] == before[w]);
                                assert(plan@[w] as int == d);
                            }
                        } else {
                            let w = choose|w: int| before.len() <= w < plan@.len() && #[trigger] plan@[w] as int == d;
                            assert(plan@[w] as int == d);
                        }
                    }
                }
            }
            match res {
                Ok(_) => {},
                Err(e) => {
                    error = Some(e);
                },
            }
        } else {
            proof {
                assert(error is None);
                assert(nodes@[u as int].output_path is None);
            }
        }
        i = i + 1;
    }
    proof {
        assert(seen@[t as int]);
        assert(grows(seen0, seen@)) by {
            assert forall|k: int| 0 <= k < seen0.len() && #[trigger] seen0[k] implies seen@[k] by {
                assert(seen1[k]);
            }
        }
    }
    if let Some(e) = error {
        return Err(e);
    }
    proof {
        assert forall|k: int| 0 <= k < nodes@.len() && seen@[k] && !seen0[k] && k != t implies planned_after(plan@, plan0.len() as int, k) by {
            assert(!seen1[k]);
        }
    }
    match &node.output_path {
        Some(_) => {
            let ghost before = plan@;
            plan.push(t);
            proof {
                assert(plan@.take(before.len() as int) =~= before);
                assert forall|k: int| 0 <= k < nodes@.len() && seen@[k] && !seen0[k] implies planned_after(plan@, plan0.len() as int, k) by {
                    if k == t {
                        assert(plan@[before.len() as int] as int == k);
                    } else {
                        assert(!seen1[k]);
                        let w = choose|w: int| plan0.len() <= w < before.len() && #[trigger] before[w] as int == k;
                        assert(plan@[w] == before[w]);
                    }
                }
                assert forall|k: int| plan0.len() <= k < plan@.len() implies deps_seen(nodes@, #[trigger] plan@[k] as int, seen@) by {
                    if k < before.len() {
                        assert(plan@[k] == before[k]);
                    } else {
                        assert(plan@[k] == t);
                    }
                }
                assert forall|k: int| plan0.len() <= k < plan@.len() implies reaches_exportable(nodes@, t as int, #[trigger] plan@[k] as int) by {
                    if k < before.len() {
                        assert(plan@[k] == before[k]);
                    } else {
                        assert(plan@[k] == t);
                        lemma_reaches_self(nodes@, t);
                    }
                }
                if h {
                    assert forall|a: int, b: int|
                        #![trigger plan@[a], nodes@[plan@[a] as int].deps@[b]]
                        plan0.len() <= a < plan@.len() && 0 <= b < nodes@[plan@[a] as int].deps@.len()
                            && nodes@[nodes@[plan@[a] as int].deps@[b] as int].output_path is Some implies planned_before(
                            plan@,
                            a,
                            nodes@[plan@[a] as int].deps@[b] as int,
                        ) || reaches(nodes@, nodes@[plan@[a] as int].deps@[b] as int, plan@[a] as int) by {
                        if a < before.len() {
                            assert(plan@[a] == before[a]);
                            let d = nodes@[before[a] as int].deps@[b] as int;
                            if planned_before(before, a, d) {
                                lemma_planned_before_extends(before, plan@, a, d);
                            }
                        } else {
                            assert(plan@[a] == t);
                            let d = node.deps@[b];
                            assert(nodes@[node.deps@[b] as int].output_path is Some);
                            if planned_after(before, 0, d as int) {
                                let w = choose|w: int| 0 <= w < before.len() && #[trigger] before[w] as int == d as int;
                                assert(plan@[w] == before[w]);
                                assert(planned_before(plan@, a, d as int));
                            } else {
                                assert(inner.contains(d));
                                lemma_stack_reaches(nodes@, stack, t, d);
                            }
                        }
                    }
                }
                assert(plan@.take(plan0.len() as int) =~= plan0) by {
                    assert forall|k: int| 0 <= k < plan0.len() implies plan@[k] == plan0[k] by {
                        assert(before.take(plan0.len() as int)[k] == plan0[k]);
                    }
                }
            }
            Ok(())
        },
        None => Err(ExportError::CannotBeExported(node.rust_name.clone())),
    }
}

/// The export plan of node `t`: every exportable type it depends on,
/// directly or through other exportable types, each once, then `t` itself;
/// nothing else. A dependency is planned before the type that depends on it,
/// unless it depends back on that type (a cycle).
///
/// When `t` cannot be exported its dependencies are still planned, and the
/// second part of the result is the refusal, to be reported once they are
/// written; otherwise it is `Ok` and `t` is planned last.
pub fn export_plan(nodes: &Vec<ExportNode>, t: usize) -> (r: (Vec<usize>, Result<(), ExportError>))
    requires
        graph_ok(nodes@),
        t < nodes@.len(),
    ensures
        r.1 is Ok <==> nodes@[t as int].output_path is Some,
        r.1 matches Err(e) ==> e matches ExportError::CannotBeExported(n) && n == nodes@[t as int].rust_name,
        r.1 is Ok ==> r.0@.len() > 0 && r.0@.last() == t,
        forall|i: int| 0 <= i < r.0@.len() ==> #[trigger] r.0@[i] < nodes@.len() && nodes@[r.0@[i] as int].output_path is Some,
        forall|i: int, j: int| 0 <= i < j < r.0@.len() ==> r.0@[i] != r.0@[j],
        forall|j: int|
            0 <= j < nodes@[t as int].deps@.len() && nodes@[#[trigger] nodes@[t as int].deps@[j] as int].output_path is Some
                ==> planned_after(r.0@, 0, nodes@[t as int].deps@[j] as int),
        forall|i: int, j: int|
            #![trigger r.0@[i], nodes@[r.0@[i] as int].deps@[j]]
            0 <= i < r.0@.len() && 0 <= j < nodes@[r.0@[i] as int].deps@.len()
                && nodes@[nodes@[r.0@[i] as int].deps@[j] as int].output_path is Some
                ==> planned_after(r.0@, 0, nodes@[r.0@[i] as int].deps@[j] as int),
        ordered_from(nodes@, r.0@, 0),
        forall|i: int| 0 <= i < r.0@.len() ==> reaches_exportable(nodes@, t as int, #[trigger] r.0@[i] as int),
{
    let mut seen: Vec<bool> = Vec::new();
    let n = nodes.len();
    let mut i: usize = 0;
    while i < n
        invariant
            n == nodes@.len(),
            i <= n,
            seen@.len() == i,
            forall|k: int| 0 <= k < i ==> !#[trigger] seen@[k],
        decreases n - i,
    {
        seen.push(false);
        i = i + 1;
    }
    let mut plan: Vec<usize> = Vec::new();
    let ghost seen0 = seen@;
    proof {
        assert(accounted(plan@, seen@, Seq::empty()));
        assert(stack_ok(nodes@, Seq::empty(), t as int));
    }
    let res = export_recursive(nodes, t, &mut seen, &mut plan, Ghost(Seq::empty()));
    proof {
        assert(plan@.take(0) =~= Seq::<usize>::empty());
        // A newly seen node is planned, but for `t` when it is refused.
        assert forall|d: int| 0 <= d < nodes@.len() && seen@[d] && nodes@[d].output_path is Some
            implies planned_after(plan@, 0, d) by {
            assert(!seen0[d]);
            if d == t as int {
                assert(res is Ok);
                assert(plan@[plan@.len() - 1] == t);
            }
        }
        assert forall|j: int|
            0 <= j < nodes@[t as int].deps@.len() && nodes@[#[trigger] nodes@[t as int].deps@[j] as int].output_path is Some
                implies planned_after(plan@, 0, nodes@[t as int].deps@[j] as int) by {
            assert(deps_seen(nodes@, t as int, seen@));
            let d = nodes@[t as int].deps@[j] as int;
            assert(d < nodes@.len());
            assert(seen@[d]);
        }
        assert forall|a: int, b: int|
            #![trigger plan@[a], nodes@[plan@[a] as int].deps@[b]]
            0 <= a < plan@.len() && 0 <= b < nodes@[plan@[a] as int].deps@.len()
                && nodes@[nodes@[plan@[a] as int].deps@[b] as int].output_path is Some
                implies planned_after(plan@, 0, nodes@[plan@[a] as int].deps@[b] as int) by {
            let p = plan@[a] as int;
            assert(deps_seen(nodes@, p, seen@));
            let d = nodes@[p].deps@[b] as int;
            assert(d < nodes@.len());
            assert(seen@[d]);
        }
    }
    (plan, res)
}

/// Where a node is written: the export directory joined with its path and
/// the configured extension.
pub open spec fn export_file(cfg: ExportConfig, base: Seq<char>) -> Seq<char> {
    crate::paths::push_text(cfg.export_dir@, with_extension(base, cfg.file_extension@))
}

impl ExportConfig {
    /// The file a type with the given base path is exported to.
    pub fn export_path(&self, base: &str) -> (r: String)
        ensures
            r@ == export_file(*self, base@),
    {
        let rel = self.resolve_path(base);
        let mut dir = self.export_dir.clone();
        crate::paths::push_path(&mut dir, rel.as_str());
        dir
    }
}


// ── Writing files ───────────────────────────────────────────────────────

/// Whether `s` contains `m` (at some position).
pub open spec fn contains(s: Seq<char>, m: Seq<char>) -> bool {
    exists|i: int| 0 <= i && i + m.len() <= s.len() && #[trigger] s.subrange(i, i + m.len()) == m
}

/// What writing an exported file does.
#[derive(Clone, Copy, Debug, PartialEq, Eq, Structural)]
pub enum WriteAction {
    /// Leave the file as it is.
    Keep,
    /// Create the file with the new content.
    Create,
    /// Replace the file with its content extended by the new part.
    Append,
}

/// The write to perform: a file already holding the marker is kept, an
/// existing file is extended when an extension is given (kept otherwise),
/// and a missing file is created.
pub open spec fn write_action_spec(existing: Option<Seq<char>>, marker: Seq<char>, can_append: bool) -> WriteAction {
    match existing {
        Some(e) => if contains(e, marker) {
            WriteAction::Keep
        } else if can_append {
            WriteAction::Append
        } else {
            WriteAction::Keep
        },
        None => WriteAction::Create,
    }
}

/// Whether `s` contains `m`.
pub fn contains_exec(s: &str, m: &str) -> (r: bool)
    ensures
        r == contains(s@, m@),
{
    let n = s.unicode_len();
    let k = m.unicode_len();
    if k > n {
        proof {
            assert forall|i: int| 0 <= i && i + m@.len() <= s@.len() implies #[trigger] s@.subrange(i, i + m@.len()) != m@ by {}
        }
        return false;
    }
    let last = n - k;
    let mut i: usize = 0;
    loop
        invariant
            n == s@.len(),
            k == m@.len(),
            k <= n,
            last == n - k,
            i <= last,
            forall|j: int| 0 <= j < i ==> #[trigger] s@.subrange(j, j + k) != m@,
        ensures
            forall|j: int| 0 <= j <= last ==> #[trigger] s@.subrange(j, j + k) != m@,
        decreases last - i,
    {
        let window = s.substring_char(i, i + k);
        if crate::strings::str_equal(window, m) {
            return true;
        }
        if i == last {
            break;
        }
        i = i + 1;
    }
    proof {
        assert forall|j: int| 0 <= j && j + m@.len() <= s@.len() implies #[trigger] s@.subrange(j, j + m@.len()) != m@ by {
            assert(j <= last);
        }
    }
    false
}

/// Decide how to write an exported file: `existing` is its current content,
/// if it exists; `marker` is what shows the type was written already.
pub fn write_action(existing: Option<&str>, marker: &str, can_append: bool) -> (r: WriteAction)
    ensures
        r == write_action_spec(
            match existing {
                Some(e) => Some(e@),
                None => None,
            },
            marker@,
            can_append,
        ),
{
    match existing {
        Some(e) => {
            if contains_exec(e, marker) {
                WriteAction::Keep
            } else if can_append {
                WriteAction::Append
            } else {
                WriteAction::Keep
            }
        },
        None => WriteAction::Create,
    }
}

} // verus!
