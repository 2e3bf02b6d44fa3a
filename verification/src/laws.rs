//! Properties that hold of the library as a whole, stated over the spec
//! functions that the operations' contracts use.

use vstd::prelude::*;
use crate::attr::{
    ContainerAttr, ContainerView, container_serde_step, FieldAttr, field_step, field_attr_default, renamed,
    variant_field_inflection, VariantAttr, variant_step, variant_attr_default,
};
use crate::config::ConfigView;
use crate::decl::{decl_of, decl_concrete_of, is_flow_enum, is_opaque, alias};
use crate::export::{WriteAction, write_action_spec, contains};
use crate::inflection::{
    Inflection, inflection_name, parse_inflection, snake_case, unicode_is_uppercase, unicode_str_upper, inflect,
    ascii_inflect, ascii_upper_str, all_ascii, dashed, no_ascii_upper, no_underscore, lemma_ascii_snake_is_ascii,
    lemma_ascii_snake_no_upper, lemma_ascii_snake_keeps, lemma_ascii_pascal_is_ascii, lemma_ascii_pascal_no_underscore,
    lemma_ascii_camel_idempotent, lemma_ascii_lower_char, words, joined_capitalized, unicode_upper, unicode_lower,
    lemma_pascal_is_joined_words, lemma_pascal_no_underscore,
};
use crate::meta::{Attribute, AttrError, Meta, fold_args, fold_attrs, meta_key};
use crate::model::{
    Data, FieldDef, Fields, TypeDef, VariantDef, field_key, variant_field_ctx, struct_field_ctx,
};
use crate::model::{FlowType, Mode, BindingView, render, render_defined, flow_name, bind_args, derive_error, flow_enum_members};
use crate::paths::{
    components, common_len, diff_text, import_path, starts_with, forward_slashes, diff_comps, push_all, is_name,
    normalize_comps, diff_list, joinable, lemma_components_of_join, lemma_push_all_concat,
    lemma_name_components_joinable, lemma_normalize_names, lemma_normalize_ups, lemma_common_prefix,
};
use crate::project::{first_config, text_config};
use crate::deps::{
    DepView, Visits, visits, dependencies_of, self_dep, struct_fields_collect, push_visits, collected_deps,
    visits_list, bindings, bound_visits, no_visits, derived_deps,
};
use crate::decl::output_path_of;
use crate::std_types::std_path_model;
use crate::utils::quoted_property;

verus! {

/// Every `rename_all` spelling parses back to its inflection.
pub proof fn law_inflection_names_parse(i: Inflection)
    ensures
        parse_inflection(inflection_name(i)) == Some(i),
{
    reveal_strlit("lowercase");
    reveal_strlit("UPPERCASE");
    reveal_strlit("camelCase");
    reveal_strlit("snake_case");
    reveal_strlit("PascalCase");
    reveal_strlit("SCREAMING_SNAKE_CASE");
    reveal_strlit("kebab-case");
    reveal_strlit("SCREAMING-KEBAB-CASE");
    match i {
        Inflection::Lower => {},
        Inflection::Upper => {
            assert("UPPERCASE"@[0] != "lowercase"@[0]);
        },
        Inflection::Camel => {
            assert("camelCase"@.len() != "lowercase"@.len() || "camelCase"@[0] != "lowercase"@[0]);
            assert("camelCase"@[0] != "UPPERCASE"@[0]);
        },
        Inflection::Snake => {
            assert("snake_case"@.len() != "lowercase"@.len());
            assert("snake_case"@.len() != "UPPERCASE"@.len());
            assert("snake_case"@.len() != "camelCase"@.len());
        },
        Inflection::Pascal => {
            assert("PascalCase"@.len() != "lowercase"@.len());
            assert("PascalCase"@.len() != "UPPERCASE"@.len());
            assert("PascalCase"@.len() != "camelCase"@.len());
            assert("PascalCase"@[0] != "snake_case"@[0]);
        },
        Inflection::ScreamingSnake => {
            assert("SCREAMING_SNAKE_CASE"@.len() != "lowercase"@.len());
            assert("SCREAMING_SNAKE_CASE"@.len() != "UPPERCASE"@.len());
            assert("SCREAMING_SNAKE_CASE"@.len() != "camelCase"@.len());
            assert("SCREAMING_SNAKE_CASE"@.len() != "snake_case"@.len());
            assert("SCREAMING_SNAKE_CASE"@.len() != "PascalCase"@.len());
        },
        Inflection::Kebab => {
            assert("kebab-case"@.len() != "lowercase"@.len());
            assert("kebab-case"@.len() != "UPPERCASE"@.len());
            assert("kebab-case"@.len() != "camelCase"@.len());
            assert("kebab-case"@[0] != "snake_case"@[0]);
            assert("kebab-case"@[0] != "PascalCase"@[0]);
            assert("kebab-case"@.len() != "SCREAMING_SNAKE_CASE"@.len());
        },
        Inflection::ScreamingKebab => {
            assert("SCREAMING-KEBAB-CASE"@.len() != "lowercase"@.len());
            assert("SCREAMING-KEBAB-CASE"@.len() != "UPPERCASE"@.len());
            assert("SCREAMING-KEBAB-CASE"@.len() != "camelCase"@.len());
            assert("SCREAMING-KEBAB-CASE"@.len() != "snake_case"@.len());
            assert("SCREAMING-KEBAB-CASE"@.len() != "PascalCase"@.len());
            assert("SCREAMING-KEBAB-CASE"@[9] != "SCREAMING_SNAKE_CASE"@[9]);
            assert("SCREAMING-KEBAB-CASE"@.len() != "kebab-case"@.len());
        },
    }
}

/// `parse` accepts exactly the `rename_all` spellings, each for its own inflection.
pub proof fn law_parse_accepts_exactly_the_names(s: Seq<char>)
    ensures
        parse_inflection(s) is Some <==> exists|i: Inflection| s == inflection_name(i),
        parse_inflection(s) matches Some(i) ==> s == inflection_name(i),
{
    if exists|i: Inflection| s == inflection_name(i) {
        let i = choose|i: Inflection| s == inflection_name(i);
        law_inflection_names_parse(i);
    }
    if parse_inflection(s) is Some {
        let i = parse_inflection(s).unwrap();
        assert(s == inflection_name(i));
    }
}

/// A name without uppercase characters is its own `snake_case`.
pub proof fn law_snake_case_keeps_lowercase(s: Seq<char>)
    requires
        forall|i: int| 0 <= i < s.len() ==> !unicode_is_uppercase(#[trigger] s[i]),
    ensures
        snake_case(s) == s,
    decreases s.len(),
{
    if s.len() > 0 {
        law_snake_case_keeps_lowercase(s.drop_last());
        assert(!unicode_is_uppercase(s[s.len() - 1]));
        assert(s.drop_last() + seq![s.last()] =~= s);
    }
}

/// The kebab and screaming forms are built from `snake_case`: kebab-case is
/// snake_case with `-` for `_`, SCREAMING_SNAKE_CASE is snake_case
/// uppercased, and SCREAMING-KEBAB-CASE is that with `-` for `_`. The same
/// holds of the ASCII forms that `apply` gives on ASCII text.
pub proof fn law_inflections_built_from_snake(s: Seq<char>)
    ensures
        inflect(Inflection::Kebab, s) == dashed(inflect(Inflection::Snake, s)),
        inflect(Inflection::ScreamingSnake, s) == unicode_str_upper(inflect(Inflection::Snake, s)),
        inflect(Inflection::ScreamingKebab, s) == dashed(inflect(Inflection::ScreamingSnake, s)),
        ascii_inflect(Inflection::Kebab, s) == dashed(ascii_inflect(Inflection::Snake, s)),
        ascii_inflect(Inflection::ScreamingSnake, s) == ascii_upper_str(ascii_inflect(Inflection::Snake, s)),
        ascii_inflect(Inflection::ScreamingKebab, s) == dashed(ascii_inflect(Inflection::ScreamingSnake, s)),
{
}

/// On ASCII text, `snake_case` gives ASCII text with no uppercase letter,
/// and applying it again changes nothing.
pub proof fn law_snake_case_ascii_idempotent(s: Seq<char>)
    requires
        all_ascii(s),
    ensures
        all_ascii(ascii_inflect(Inflection::Snake, s)),
        no_ascii_upper(ascii_inflect(Inflection::Snake, s)),
        ascii_inflect(Inflection::Snake, ascii_inflect(Inflection::Snake, s)) == ascii_inflect(Inflection::Snake, s),
{
    lemma_ascii_snake_is_ascii(s);
    lemma_ascii_snake_no_upper(s);
    lemma_ascii_snake_keeps(crate::inflection::ascii_snake_case(s));
}

/// `PascalCase` splits a name at `_` and writes each word with its first
/// character uppercased (by `char::to_uppercase`) and the rest kept, so it
/// holds no `_` unless uppercasing gives one; `camelCase` is `PascalCase`
/// with its first character lowercased (by `char::to_lowercase`).
pub proof fn law_pascal_and_camel_case_shape(s: Seq<char>)
    ensures
        inflect(Inflection::Pascal, s) == joined_capitalized(words(s)),
        (forall|c: char| c != '_' ==> no_underscore(#[trigger] unicode_upper(c))) ==> no_underscore(
            inflect(Inflection::Pascal, s),
        ),
        inflect(Inflection::Camel, s) == (if inflect(Inflection::Pascal, s).len() == 0 {
            Seq::<char>::empty()
        } else {
            unicode_lower(inflect(Inflection::Pascal, s)[0]) + inflect(Inflection::Pascal, s).drop_first()
        }),
{
    lemma_pascal_is_joined_words(s);
    if forall|c: char| c != '_' ==> no_underscore(#[trigger] unicode_upper(c)) {
        lemma_pascal_no_underscore(s);
    }
}

/// On ASCII text, `PascalCase` gives ASCII text with no `_`; `camelCase`
/// too, and applying `camelCase` again changes nothing.
pub proof fn law_pascal_and_camel_case_ascii(s: Seq<char>)
    requires
        all_ascii(s),
    ensures
        all_ascii(ascii_inflect(Inflection::Pascal, s)),
        no_underscore(ascii_inflect(Inflection::Pascal, s)),
        all_ascii(ascii_inflect(Inflection::Camel, s)),
        no_underscore(ascii_inflect(Inflection::Camel, s)),
        ascii_inflect(Inflection::Camel, ascii_inflect(Inflection::Camel, s)) == ascii_inflect(Inflection::Camel, s),
{
    lemma_ascii_pascal_is_ascii(s);
    lemma_ascii_pascal_no_underscore(s);
    lemma_ascii_camel_idempotent(s);
    let p = crate::inflection::ascii_pascal_case(s);
    let t = crate::inflection::ascii_camel_case(s);
    if p.len() > 0 {
        assert(crate::inflection::is_ascii_char(p[0]));
        lemma_ascii_lower_char(p[0]);
        assert forall|i: int| 0 <= i < t.len() implies #[trigger] crate::inflection::is_ascii_char(t[i]) by {
            if i > 0 {
                assert(t[i] == p[i]);
            }
        }
    } else {
        assert(t.len() == 0);
    }
}

/// For a type without generic parameters, the declaration with its own
/// arguments is the declaration.
pub proof fn law_decl_concrete_of_non_generic(t: FlowType, cfg: ConfigView)
    requires
        t matches FlowType::Defined(d, args) && d.generics@.len() == 0 && args@.len() == 0,
    ensures
        decl_concrete_of(t, cfg) == decl_of(t, cfg),
{
    let d = *t->Defined_0;
    let args = t->Defined_1;
    assert(bind_args(d.generics, args, 0, Seq::empty(), cfg) == Seq::<BindingView>::empty());
    assert(render(t, Mode::Name, Seq::empty(), cfg) == render_defined(t, Mode::Name, Seq::empty(), cfg));
    assert(render(t, Mode::Inline, Seq::empty(), cfg) == render_defined(t, Mode::Inline, Seq::empty(), cfg));
}

/// A plain type (not opaque, not a Flow enum, no generic parameters) is
/// declared as `type Name = <inline>;`.
pub proof fn law_plain_decl_is_alias(t: FlowType, cfg: ConfigView)
    requires
        t matches FlowType::Defined(d, args) && d.generics@.len() == 0 && args@.len() == 0
            && !is_opaque(*d) && !is_flow_enum(*d) && derive_error(*d) is None,
    ensures
        decl_of(t, cfg) == match render(t, Mode::Name, Seq::empty(), cfg) {
            Some(n) => alias(n, render(t, Mode::Inline, Seq::empty(), cfg)),
            None => None,
        },
{
    let d = *t->Defined_0;
    let args = t->Defined_1;
    assert(bind_args(d.generics, args, 0, Seq::empty(), cfg) == Seq::<BindingView>::empty());
    assert(render(t, Mode::Name, Seq::empty(), cfg) == render_defined(t, Mode::Name, Seq::empty(), cfg));
    assert(render(t, Mode::Inline, Seq::empty(), cfg) == render_defined(t, Mode::Inline, Seq::empty(), cfg));
}

/// A Flow enum with members is referenced by its name: its inline form is its name.
pub proof fn law_flow_enum_inline_is_name(t: FlowType, cfg: ConfigView)
    requires
        t matches FlowType::Defined(d, args) && args@.len() == 0 && is_flow_enum(*d) && derive_error(*d) is None
            && (flow_enum_members(*d, d.data->Enum_0@.len() as int) matches Ok(st) && st.members.len() > 0),
    ensures
        render(t, Mode::Inline, Seq::empty(), cfg) == Some(flow_name(*t->Defined_0)),
        render(t, Mode::Name, Seq::empty(), cfg) == Some(flow_name(*t->Defined_0)),
{
    let d = *t->Defined_0;
    assert(d.generics@.len() == 0);
    assert(render(t, Mode::Name, Seq::empty(), cfg) == render_defined(t, Mode::Name, Seq::empty(), cfg));
    assert(render(t, Mode::Inline, Seq::empty(), cfg) == render_defined(t, Mode::Inline, Seq::empty(), cfg));
}

/// Wrapper types (`Box`, `Arc`, references, cells, ...) are represented as
/// the type they wrap, in every form.
pub proof fn law_wrappers_are_transparent(inner: FlowType, m: Mode, env: Seq<BindingView>, cfg: ConfigView)
    ensures
        render(FlowType::Transparent(Box::new(inner)), m, env, cfg) == render(inner, m, env, cfg),
{
}

/// `Option<T>` is the nullable form of `T`: `?T`, by name and inline.
pub proof fn law_option_is_nullable(inner: FlowType, env: Seq<BindingView>, cfg: ConfigView)
    ensures
        render(FlowType::Nullable(Box::new(inner)), Mode::Name, env, cfg) == match render(inner, Mode::Name, env, cfg) {
            Some(s) => Some(seq!['?'] + s),
            None => None,
        },
{
    reveal_strlit("?");
    reveal_strlit("");
    match render(inner, Mode::Name, env, cfg) {
        Some(s) => {
            assert("?"@ + s + ""@ =~= seq!['?'] + s);
        },
        None => {},
    }
}

proof fn lemma_common_len_self(c: Seq<Seq<char>>)
    ensures
        common_len(c, c) == c.len(),
    decreases c.len(),
{
    if c.len() > 0 {
        lemma_common_len_self(c.drop_first());
    }
}

/// The relative path from a path to itself is `.`.
pub proof fn law_diff_paths_self(p: Seq<char>)
    ensures
        diff_text(p, p) == seq!['.'],
{
    let c = components(p);
    lemma_common_len_self(c);
    let ups = Seq::new((c.len() - c.len()) as nat, |i: int| seq!['.', '.']);
    assert(ups.len() == 0);
    assert(push_all(Seq::empty(), ups) == Seq::<char>::empty());
    assert(c.subrange(c.len() as int, c.len() as int).len() == 0);
    assert(push_all(Seq::empty(), c.subrange(c.len() as int, c.len() as int)) == Seq::<char>::empty());
}

/// For two relative paths whose components are all names, the relative
/// path from `base` to `target` has as components a `..` for each component
/// of `base` past their common prefix, then the rest of `target`'s (just `.`
/// when there are none); and the components of `base` followed by those,
/// normalized lexically, are the components of `target`.
pub proof fn law_diff_paths_round_trip(target: Seq<char>, base: Seq<char>)
    requires
        forall|i: int| 0 <= i < components(target).len() ==> is_name(#[trigger] components(target)[i]),
        forall|i: int| 0 <= i < components(base).len() ==> is_name(#[trigger] components(base)[i]),
    ensures
        components(diff_text(target, base)) == (if diff_list(components(target), components(base)).len() == 0 {
            seq![seq!['.']]
        } else {
            diff_list(components(target), components(base))
        }),
        normalize_comps(components(base) + components(diff_text(target, base))) == components(target),
{
    let tc = components(target);
    let bc = components(base);
    lemma_name_components_joinable(target);
    lemma_name_components_joinable(base);
    lemma_common_prefix(tc, bc);
    let k = common_len(tc, bc);
    let ups = Seq::new((bc.len() - k) as nat, |i: int| seq!['.', '.']);
    let rest = tc.subrange(k as int, tc.len() as int);
    let l = diff_list(tc, bc);
    assert(l == ups + rest);
    lemma_push_all_concat(Seq::empty(), ups, rest);
    assert(push_all(Seq::<char>::empty(), Seq::<Seq<char>>::empty()) == Seq::<char>::empty());
    assert forall|i: int| 0 <= i < rest.len() implies is_name(#[trigger] rest[i]) by {
        assert(rest[i] == tc[k + i]);
    }
    // The names of `base` past the common prefix are undone by the `..`s.
    lemma_normalize_ups(bc, (bc.len() - k) as nat);
    assert(bc.len() - (bc.len() - k) == k);
    lemma_normalize_names(bc + ups, rest);
    assert(bc.take(k as int) + rest =~= tc);
    if l.len() == 0 {
        assert(ups.len() == 0 && rest.len() == 0);
        assert(push_all(push_all(Seq::<char>::empty(), ups), rest) =~= Seq::<char>::empty()) by {
            assert(ups + rest =~= Seq::<Seq<char>>::empty());
        }
        let dot = seq!['.'];
        assert(diff_text(target, base) == dot);
        assert(crate::paths::split_slash(dot) =~= seq![dot]) by {
            assert(dot.drop_last() =~= Seq::<char>::empty());
        }
        assert(crate::paths::kept_pieces(seq![dot], 0, false) == Seq::<Seq<char>>::empty());
        assert(crate::paths::kept_pieces(seq![dot], 1, false) =~= seq![dot]);
        assert(components(dot) =~= seq![dot]);
        assert((bc + seq![dot]).drop_last() =~= bc);
        assert(bc + ups + rest =~= bc);
        assert(normalize_comps(bc + seq![dot]) == normalize_comps(bc));
    } else {
        assert forall|i: int| 0 <= i < l.len() implies joinable(#[trigger] l[i]) by {
            if i < ups.len() {
                assert(l[i] == seq!['.', '.']);
                assert(seq!['.', '.'] != seq!['.']) by {
                    assert(seq!['.', '.'].len() != seq!['.'].len());
                }
                assert(crate::paths::no_slash(l[i])) by {
                    assert forall|j: int| 0 <= j < l[i].len() implies #[trigger] l[i][j] != '/' by {}
                }
            } else {
                assert(l[i] == rest[i - ups.len()]);
                assert(l[i] == tc[k + i - ups.len()]);
            }
        }
        lemma_components_of_join(l);
        assert(diff_text(target, base) == push_all(Seq::empty(), l));
        assert(bc + l =~= bc + ups + rest);
    }
}

/// An import path is always explicitly relative: it starts with `./` or `../`.
pub proof fn law_import_paths_are_relative(from: Seq<char>, to: Seq<char>)
    ensures
        starts_with(import_path(from, to), seq!['.', '/']) || starts_with(import_path(from, to), seq!['.', '.', '/']),
{
    let s = forward_slashes(diff_comps(components(to), crate::paths::parent_comps(components(from))));
    if !(starts_with(s, seq!['.', '.', '/']) || starts_with(s, seq!['.', '/'])) {
        assert((seq!['.', '/'] + s).subrange(0, 2) =~= seq!['.', '/']);
    }
}

/// Normalized paths hold no backslash, and normalizing twice changes nothing.
pub proof fn law_forward_slashes(s: Seq<char>)
    ensures
        forall|i: int| 0 <= i < forward_slashes(s).len() ==> #[trigger] forward_slashes(s)[i] != '\\',
        forward_slashes(forward_slashes(s)) == forward_slashes(s),
{
    assert(forward_slashes(forward_slashes(s)) =~= forward_slashes(s));
}

/// Package-level configuration overrides workspace-level configuration.
pub proof fn law_package_config_wins(package: Seq<char>, ancestors: Seq<Seq<char>>)
    requires
        text_config(package, "package"@) is Some,
    ensures
        first_config(Some(package), ancestors) == text_config(package, "package"@),
{
}

/// A file that already holds the marker is never written again: writing
/// is idempotent.
pub proof fn law_marked_files_are_kept(content: Seq<char>, marker: Seq<char>, can_append: bool)
    requires
        contains(content, marker),
    ensures
        write_action_spec(Some(content), marker, can_append) == WriteAction::Keep,
{
}

/// A `#[serde(...)]` item never replaces a name that `#[flow(...)]` (or an
/// earlier item) has set.
pub proof fn law_serde_does_not_override_rename(c: ContainerView, m: Meta)
    requires
        c.rename is Some,
    ensures
        container_serde_step(c, m) matches Ok(next) ==> next.rename == c.rename,
{
}

/// The same holds of a field's name.
pub proof fn law_serde_does_not_override_field_rename(f: FieldAttr, m: Meta)
    requires
        f.rename is Some,
    ensures
        field_step(f, m, false) matches Ok(next) ==> next.rename == f.rename,
{
}


// ── What the derive and the dependency walk promise ─────────────────────

/// A map `{ [key: K]: V }` reports everything its key and value types
/// report: each of them and their generics among its generics, and their
/// dependencies among its dependencies.
pub proof fn law_map_reports_key_and_value(k: FlowType, v: FlowType, env: Seq<(Seq<char>, Visits)>, cfg: ConfigView)
    ensures
        ({
            let m = visits(FlowType::Dictionary(Box::new(k), Box::new(v)), env, cfg);
            let vk = visits(k, env, cfg);
            let vv = visits(v, env, cfg);
            &&& forall|d: DepView| vv.itself.contains(d) ==> m.generics.contains(d)
            &&& forall|d: DepView| vv.generics.contains(d) ==> m.generics.contains(d)
            &&& forall|d: DepView| vv.deps.contains(d) ==> m.deps.contains(d)
            &&& forall|d: DepView| vk.itself.contains(d) ==> m.generics.contains(d)
            &&& forall|d: DepView| vk.generics.contains(d) ==> m.generics.contains(d)
            &&& forall|d: DepView| vk.deps.contains(d) ==> m.deps.contains(d)
        }),
{
    let m = visits(FlowType::Dictionary(Box::new(k), Box::new(v)), env, cfg);
    let vk = visits(k, env, cfg);
    let vv = visits(v, env, cfg);
    let g = vk.generics + vk.itself + vv.generics + vv.itself;
    assert(m.generics == g);
    assert(m.deps == vk.deps + vv.deps);
    assert forall|d: DepView| vv.itself.contains(d) implies m.generics.contains(d) by {
        let i = choose|i: int| 0 <= i < vv.itself.len() && vv.itself[i] == d;
        assert(g[vk.generics.len() + vk.itself.len() + vv.generics.len() + i] == d);
    }
    assert forall|d: DepView| vv.generics.contains(d) implies m.generics.contains(d) by {
        let i = choose|i: int| 0 <= i < vv.generics.len() && vv.generics[i] == d;
        assert(g[vk.generics.len() + vk.itself.len() + i] == d);
    }
    assert forall|d: DepView| vk.itself.contains(d) implies m.generics.contains(d) by {
        let i = choose|i: int| 0 <= i < vk.itself.len() && vk.itself[i] == d;
        assert(g[vk.generics.len() + i] == d);
    }
    assert forall|d: DepView| vk.generics.contains(d) implies m.generics.contains(d) by {
        let i = choose|i: int| 0 <= i < vk.generics.len() && vk.generics[i] == d;
        assert(g[i] == d);
    }
    assert forall|d: DepView| vv.deps.contains(d) implies m.deps.contains(d) by {
        let i = choose|i: int| 0 <= i < vv.deps.len() && vv.deps[i] == d;
        assert(m.deps[vk.deps.len() + i] == d);
    }
    assert forall|d: DepView| vk.deps.contains(d) implies m.deps.contains(d) by {
        let i = choose|i: int| 0 <= i < vk.deps.len() && vk.deps[i] == d;
        assert(m.deps[i] == d);
    }
}

/// Everything `inner` reports, `outer` reports too: `inner` itself and its
/// generics among `outer`'s generics, its dependencies among `outer`'s.
pub open spec fn reports_all_of(outer: Visits, inner: Visits) -> bool {
    &&& forall|d: DepView| inner.itself.contains(d) ==> outer.generics.contains(d)
    &&& forall|d: DepView| inner.generics.contains(d) ==> outer.generics.contains(d)
    &&& forall|d: DepView| inner.deps.contains(d) ==> outer.deps.contains(d)
}

proof fn lemma_in_middle(a: Seq<DepView>, b: Seq<DepView>, c: Seq<DepView>)
    ensures
        forall|d: DepView| b.contains(d) ==> (a + b + c).contains(d),
{
    assert forall|d: DepView| b.contains(d) implies (a + b + c).contains(d) by {
        let i = choose|i: int| 0 <= i < b.len() && b[i] == d;
        assert((a + b + c)[a.len() + i] == d);
    }
}

proof fn lemma_wrapper_reports(outer: Visits, inner: Visits)
    requires
        outer.generics == inner.generics + inner.itself,
        outer.deps == inner.deps,
    ensures
        reports_all_of(outer, inner),
{
    lemma_in_middle(Seq::empty(), inner.generics, inner.itself);
    lemma_in_middle(inner.generics, inner.itself, Seq::empty());
    assert(Seq::<DepView>::empty() + inner.generics + inner.itself =~= outer.generics);
    assert(inner.generics + inner.itself + Seq::<DepView>::empty() =~= outer.generics);
}

/// `Option<T>`, `Vec<T>` (and the other sequences), `Box<T>` (and the other
/// wrappers) and `Result<T, E>` report everything their type arguments
/// report.
pub proof fn law_containers_report_their_contents(
    a: FlowType,
    b: FlowType,
    env: Seq<(Seq<char>, Visits)>,
    cfg: ConfigView,
)
    ensures
        reports_all_of(visits(FlowType::Nullable(Box::new(a)), env, cfg), visits(a, env, cfg)),
        reports_all_of(visits(FlowType::ReadOnlyArray(Box::new(a)), env, cfg), visits(a, env, cfg)),
        reports_all_of(visits(FlowType::Transparent(Box::new(a)), env, cfg), visits(a, env, cfg)),
        reports_all_of(visits(FlowType::ResultOf(Box::new(a), Box::new(b)), env, cfg), visits(a, env, cfg)),
        reports_all_of(visits(FlowType::ResultOf(Box::new(a), Box::new(b)), env, cfg), visits(b, env, cfg)),
{
    let va = visits(a, env, cfg);
    let vb = visits(b, env, cfg);
    lemma_wrapper_reports(visits(FlowType::Nullable(Box::new(a)), env, cfg), va);
    lemma_wrapper_reports(visits(FlowType::ReadOnlyArray(Box::new(a)), env, cfg), va);
    lemma_wrapper_reports(visits(FlowType::Transparent(Box::new(a)), env, cfg), va);
    let r = visits(FlowType::ResultOf(Box::new(a), Box::new(b)), env, cfg);
    assert(r.generics == va.generics + va.itself + vb.generics + vb.itself);
    assert(r.deps == va.deps + vb.deps);
    lemma_in_middle(Seq::empty(), va.generics, va.itself + vb.generics + vb.itself);
    assert(Seq::<DepView>::empty() + va.generics + (va.itself + vb.generics + vb.itself) =~= r.generics);
    lemma_in_middle(va.generics, va.itself, vb.generics + vb.itself);
    assert(va.generics + va.itself + (vb.generics + vb.itself) =~= r.generics);
    lemma_in_middle(va.generics + va.itself, vb.generics, vb.itself);
    lemma_in_middle(va.generics + va.itself + vb.generics, vb.itself, Seq::empty());
    assert(va.generics + va.itself + vb.generics + vb.itself + Seq::<DepView>::empty() =~= r.generics);
    lemma_in_middle(Seq::empty(), va.deps, vb.deps);
    assert(Seq::<DepView>::empty() + va.deps + vb.deps =~= r.deps);
    lemma_in_middle(va.deps, vb.deps, Seq::empty());
    assert(va.deps + vb.deps + Seq::<DepView>::empty() =~= r.deps);
}

/// A field written plainly (not skipped, flattened, inlined or overridden).
pub open spec fn plain_field(f: FieldDef) -> bool {
    !f.attr.skip && !f.attr.flatten && !f.attr.inline && f.attr.type_override is None && f.type_as is None
}

proof fn lemma_collect_grows(fs: Seq<FieldDef>, env: Seq<(Seq<char>, Visits)>, cfg: ConfigView)
    requires
        fs.len() > 0,
    ensures
        ({
            let a = struct_fields_collect(fs.drop_last(), env, cfg);
            let b = struct_fields_collect(fs, env, cfg);
            &&& forall|d: DepView| a.pushed_itself.contains(d) ==> b.pushed_itself.contains(d)
            &&& forall|d: DepView| a.pushed_generics.contains(d) ==> b.pushed_generics.contains(d)
        }),
{
    let a = struct_fields_collect(fs.drop_last(), env, cfg);
    let b = struct_fields_collect(fs, env, cfg);
    assert forall|d: DepView| a.pushed_itself.contains(d) implies b.pushed_itself.contains(d) by {
        let i = choose|i: int| 0 <= i < a.pushed_itself.len() && a.pushed_itself[i] == d;
        assert(b.pushed_itself[i] == d);
    }
    assert forall|d: DepView| a.pushed_generics.contains(d) implies b.pushed_generics.contains(d) by {
        let i = choose|i: int| 0 <= i < a.pushed_generics.len() && a.pushed_generics[i] == d;
        assert(b.pushed_generics[i] == d);
    }
}

proof fn lemma_plain_field_pushed(fs: Seq<FieldDef>, i: int, env: Seq<(Seq<char>, Visits)>, cfg: ConfigView)
    requires
        0 <= i < fs.len(),
        plain_field(fs[i]),
    ensures
        ({
            let c = struct_fields_collect(fs, env, cfg);
            let vf = visits(fs[i].ty, env, cfg);
            &&& forall|d: DepView| vf.itself.contains(d) ==> c.pushed_itself.contains(d)
            &&& forall|d: DepView| vf.generics.contains(d) ==> c.pushed_generics.contains(d)
        }),
    decreases fs.len(),
{
    let c = struct_fields_collect(fs, env, cfg);
    let vf = visits(fs[i].ty, env, cfg);
    if i == fs.len() - 1 {
        let a = struct_fields_collect(fs.drop_last(), env, cfg);
        assert(c == push_visits(a, vf));
        assert forall|d: DepView| vf.itself.contains(d) implies c.pushed_itself.contains(d) by {
            let j = choose|j: int| 0 <= j < vf.itself.len() && vf.itself[j] == d;
            assert(c.pushed_itself[a.pushed_itself.len() + j] == d);
        }
        assert forall|d: DepView| vf.generics.contains(d) implies c.pushed_generics.contains(d) by {
            let j = choose|j: int| 0 <= j < vf.generics.len() && vf.generics[j] == d;
            assert(c.pushed_generics[a.pushed_generics.len() + j] == d);
        }
    } else {
        assert(fs.drop_last()[i] == fs[i]);
        lemma_plain_field_pushed(fs.drop_last(), i, env, cfg);
        lemma_collect_grows(fs, env, cfg);
    }
}

/// The bindings of a derived type's generic parameters to its arguments.
pub open spec fn args_env(d: TypeDef, args: Seq<FlowType>, cfg: ConfigView) -> Seq<(Seq<char>, Visits)> {
    bindings(d.generics@, visits_list(args, Seq::empty(), cfg))
}

/// A struct reports, among its dependencies, every type that the type of a
/// plainly written field reports as itself or as its generics: for a field
/// of type `HashMap<K, V>`, that is `K` and `V` (and what they report as
/// their generics).
pub proof fn law_struct_reports_field_types(d: TypeDef, args: Vec<FlowType>, i: int, cfg: ConfigView)
    requires
        d.attr.type_override is None,
        d.type_as is None,
        d.data matches Data::Struct(Fields::Named(fs)) && 0 <= i < fs@.len() && plain_field(fs@[i]),
    ensures
        ({
            let fs = d.data->Struct_0->Named_0@;
            let vf = visits(fs[i].ty, args_env(d, args@, cfg), cfg);
            let deps = dependencies_of(FlowType::Defined(Box::new(d), args), cfg);
            &&& forall|x: DepView| vf.itself.contains(x) ==> deps.contains(x)
            &&& forall|x: DepView| vf.generics.contains(x) ==> deps.contains(x)
        }),
{
    let fs = d.data->Struct_0->Named_0@;
    let env = args_env(d, args@, cfg);
    let c = struct_fields_collect(fs, env, cfg);
    lemma_plain_field_pushed(fs, i, env, cfg);
    let deps = dependencies_of(FlowType::Defined(Box::new(d), args), cfg);
    assert(visits_list(args@, Seq::empty(), cfg) == visits_list(args@, Seq::empty(), cfg));
    assert(deps == derived_deps(d, env, cfg));
    assert(derived_deps(d, env, cfg) == collected_deps(c));
    let vf = visits(fs[i].ty, env, cfg);
    assert forall|x: DepView| vf.itself.contains(x) implies deps.contains(x) by {
        let j = choose|j: int| 0 <= j < c.pushed_itself.len() && c.pushed_itself[j] == x;
        assert(deps[j] == x);
    }
    assert forall|x: DepView| vf.generics.contains(x) implies deps.contains(x) by {
        let j = choose|j: int| 0 <= j < c.pushed_generics.len() && c.pushed_generics[j] == x;
        assert(deps[c.pushed_itself.len() + j] == x);
    }
}

/// A struct with a plainly written field of type `HashMap<K, V>` reports
/// `V` among its dependencies when `V` can be exported (and `K` too), unless
/// they are generic parameters (which stand for their arguments).
pub proof fn law_struct_with_map_field_depends_on_its_value(
    d: TypeDef,
    args: Vec<FlowType>,
    i: int,
    k: FlowType,
    v: FlowType,
    cfg: ConfigView,
)
    requires
        d.attr.type_override is None,
        d.type_as is None,
        d.data matches Data::Struct(Fields::Named(fs)) && 0 <= i < fs@.len() && plain_field(fs@[i])
            && fs@[i].ty == FlowType::Dictionary(Box::new(k), Box::new(v)),
    ensures
        !(v is Param) ==> forall|x: DepView|
            self_dep(v, cfg).contains(x) ==> dependencies_of(FlowType::Defined(Box::new(d), args), cfg).contains(x),
        !(k is Param) ==> forall|x: DepView|
            self_dep(k, cfg).contains(x) ==> dependencies_of(FlowType::Defined(Box::new(d), args), cfg).contains(x),
{
    law_struct_reports_field_types(d, args, i, cfg);
    law_map_reports_key_and_value(k, v, args_env(d, args@, cfg), cfg);
}

/// The item `skip`, written alone.
pub open spec fn is_skip_item(m: Meta) -> bool {
    m matches Meta::Path(key) && key@ == "skip"@
}

proof fn lemma_field_step_keeps_skip(f: FieldAttr, m: Meta, flow: bool)
    requires
        f.skip,
        field_step(f, m, flow) is Ok,
    ensures
        field_step(f, m, flow)->Ok_0.skip,
{
}

proof fn lemma_field_args_skip(v: FieldAttr, args: Seq<Meta>, n: int, flow: bool)
    requires
        0 <= n <= args.len(),
        fold_args::<FieldAttr>(v, args, n, flow) is Ok,
    ensures
        v.skip ==> fold_args::<FieldAttr>(v, args, n, flow)->Ok_0.skip,
        (exists|j: int| 0 <= j < n && is_skip_item(#[trigger] args[j]))
            ==> fold_args::<FieldAttr>(v, args, n, flow)->Ok_0.skip,
    decreases n,
{
    if n > 0 {
        let prev = fold_args::<FieldAttr>(v, args, n - 1, flow);
        if prev is Err {
            assert(fold_args::<FieldAttr>(v, args, n, flow) is Err);
        }
        lemma_field_args_skip(v, args, n - 1, flow);
        let t = prev->Ok_0;
        let m = args[n - 1];
        if is_skip_item(m) {
            assert(meta_key(m) == "skip"@);
            assert(field_step(t, m, flow) == Ok::<FieldAttr, AttrError>(FieldAttr { skip: true, ..t }));
        } else {
            if t.skip {
                lemma_field_step_keeps_skip(t, m, flow);
            }
            if exists|j: int| 0 <= j < n && is_skip_item(#[trigger] args[j]) {
                let j = choose|j: int| 0 <= j < n && is_skip_item(#[trigger] args[j]);
                assert(j < n - 1);
                lemma_field_step_keeps_skip(t, m, flow);
            }
        }
    }
}

proof fn lemma_field_attrs_skip(v: FieldAttr, attrs: Seq<Attribute>, n: int, i: int, j: int)
    requires
        0 <= i < n <= attrs.len(),
        attrs[i].path@ == "flow"@ || attrs[i].path@ == "serde"@,
        0 <= j < attrs[i].args@.len(),
        is_skip_item(attrs[i].args@[j]),
        fold_attrs::<FieldAttr>(v, attrs, n) is Ok,
    ensures
        fold_attrs::<FieldAttr>(v, attrs, n)->Ok_0.skip,
    decreases n,
{
    let prev = fold_attrs::<FieldAttr>(v, attrs, n - 1);
    if prev is Err {
        assert(fold_attrs::<FieldAttr>(v, attrs, n) is Err);
    }
    let t = prev->Ok_0;
    let a = attrs[n - 1];
    let flow = a.path@ == "flow"@;
    if i < n - 1 {
        lemma_field_attrs_skip(v, attrs, n - 1, i, j);
        if a.path@ == "flow"@ || a.path@ == "serde"@ {
            lemma_field_args_skip(t, a.args@, a.args@.len() as int, flow);
        }
    } else {
        assert(a.path@ == "flow"@ || a.path@ == "serde"@);
        assert(is_skip_item(a.args@[j]));
        lemma_field_args_skip(t, a.args@, a.args@.len() as int, flow);
    }
}

/// A field with a `skip` item in its `#[serde(...)]` (or `#[flow(...)]`)
/// attributes is read as skipped, whatever else its attributes hold.
pub proof fn law_skip_marks_a_field_skipped(attrs: Seq<Attribute>, i: int, j: int)
    requires
        0 <= i < attrs.len(),
        attrs[i].path@ == "flow"@ || attrs[i].path@ == "serde"@,
        0 <= j < attrs[i].args@.len(),
        is_skip_item(attrs[i].args@[j]),
        fold_attrs::<FieldAttr>(field_attr_default(), attrs, attrs.len() as int) is Ok,
    ensures
        fold_attrs::<FieldAttr>(field_attr_default(), attrs, attrs.len() as int)->Ok_0.skip,
{
    lemma_field_attrs_skip(field_attr_default(), attrs, attrs.len() as int, i, j);
}

proof fn lemma_variant_step_keeps_skip(f: VariantAttr, m: Meta, flow: bool)
    requires
        f.skip,
        variant_step(f, m, flow) is Ok,
    ensures
        variant_step(f, m, flow)->Ok_0.skip,
{
}

proof fn lemma_variant_args_skip(v: VariantAttr, args: Seq<Meta>, n: int, flow: bool)
    requires
        0 <= n <= args.len(),
        fold_args::<VariantAttr>(v, args, n, flow) is Ok,
    ensures
        v.skip ==> fold_args::<VariantAttr>(v, args, n, flow)->Ok_0.skip,
        (exists|j: int| 0 <= j < n && is_skip_item(#[trigger] args[j]))
            ==> fold_args::<VariantAttr>(v, args, n, flow)->Ok_0.skip,
    decreases n,
{
    if n > 0 {
        let prev = fold_args::<VariantAttr>(v, args, n - 1, flow);
        if prev is Err {
            assert(fold_args::<VariantAttr>(v, args, n, flow) is Err);
        }
        lemma_variant_args_skip(v, args, n - 1, flow);
        let t = prev->Ok_0;
        let m = args[n - 1];
        if is_skip_item(m) {
            assert(meta_key(m) == "skip"@);
            assert(variant_step(t, m, flow) == Ok::<VariantAttr, AttrError>(VariantAttr { skip: true, ..t }));
        } else {
            if t.skip {
                lemma_variant_step_keeps_skip(t, m, flow);
            }
            if exists|j: int| 0 <= j < n && is_skip_item(#[trigger] args[j]) {
                let j = choose|j: int| 0 <= j < n && is_skip_item(#[trigger] args[j]);
                assert(j < n - 1);
                lemma_variant_step_keeps_skip(t, m, flow);
            }
        }
    }
}

proof fn lemma_variant_attrs_skip(v: VariantAttr, attrs: Seq<Attribute>, n: int, i: int, j: int)
    requires
        0 <= i < n <= attrs.len(),
        attrs[i].path@ == "flow"@ || attrs[i].path@ == "serde"@,
        0 <= j < attrs[i].args@.len(),
        is_skip_item(attrs[i].args@[j]),
        fold_attrs::<VariantAttr>(v, attrs, n) is Ok,
    ensures
        fold_attrs::<VariantAttr>(v, attrs, n)->Ok_0.skip,
    decreases n,
{
    let prev = fold_attrs::<VariantAttr>(v, attrs, n - 1);
    if prev is Err {
        assert(fold_attrs::<VariantAttr>(v, attrs, n) is Err);
    }
    let t = prev->Ok_0;
    let a = attrs[n - 1];
    let flow = a.path@ == "flow"@;
    if i < n - 1 {
        lemma_variant_attrs_skip(v, attrs, n - 1, i, j);
        if a.path@ == "flow"@ || a.path@ == "serde"@ {
            lemma_variant_args_skip(t, a.args@, a.args@.len() as int, flow);
        }
    } else {
        assert(a.path@ == "flow"@ || a.path@ == "serde"@);
        assert(is_skip_item(a.args@[j]));
        lemma_variant_args_skip(t, a.args@, a.args@.len() as int, flow);
    }
}

/// A variant with a `skip` item in its `#[serde(...)]` (or `#[flow(...)]`)
/// attributes is read as skipped, whatever else its attributes hold.
pub proof fn law_skip_marks_a_variant_skipped(attrs: Seq<Attribute>, i: int, j: int)
    requires
        0 <= i < attrs.len(),
        attrs[i].path@ == "flow"@ || attrs[i].path@ == "serde"@,
        0 <= j < attrs[i].args@.len(),
        is_skip_item(attrs[i].args@[j]),
        fold_attrs::<VariantAttr>(variant_attr_default(), attrs, attrs.len() as int) is Ok,
    ensures
        fold_attrs::<VariantAttr>(variant_attr_default(), attrs, attrs.len() as int)->Ok_0.skip,
{
    lemma_variant_attrs_skip(variant_attr_default(), attrs, attrs.len() as int, i, j);
}

/// The fields of a struct variant are named by the variant's own
/// `rename_all`, else by the container's `rename_all_fields`, else by its
/// `rename_all`; a field's own `rename` wins over all of them. The fields of
/// a struct are named by the container's `rename_all` alone.
pub proof fn law_variant_fields_follow_rename_all_fields(v: VariantDef, c: ContainerAttr, f: FieldDef)
    ensures
        field_key(f, variant_field_ctx(v, c)) == quoted_property(
            match f.attr.rename {
                Some(r) => r@,
                None => renamed(
                    if v.attr.rename_all is Some {
                        v.attr.rename_all
                    } else if c.rename_all_fields is Some {
                        c.rename_all_fields
                    } else {
                        c.rename_all
                    },
                    f.ident@,
                ),
            },
        ),
        field_key(f, struct_field_ctx(c)) == quoted_property(
            match f.attr.rename {
                Some(r) => r@,
                None => renamed(c.rename_all, f.ident@),
            },
        ),
        renamed(variant_field_inflection(c), f.ident@) == renamed(
            if c.rename_all_fields is Some {
                c.rename_all_fields
            } else {
                c.rename_all
            },
            f.ident@,
        ),
{
}

/// `Result<T, E>` is modelled with `T` as its `Ok` type and `E` as its `Err`
/// type, in the order written, and named `{| Ok: T |} | {| Err: E |}`; a
/// map `HashMap<K, V>` or `BTreeMap<K, V>` likewise keeps `K` as its key
/// and `V` as its value.
pub proof fn law_result_and_map_keep_argument_order(
    segs: Seq<String>,
    params: Seq<Seq<char>>,
    a: FlowType,
    e: FlowType,
    env: Seq<BindingView>,
    cfg: ConfigView,
)
    requires
        segs.len() > 0,
        segs.len() > 1 || !params.contains(segs.last()@),
    ensures
        segs.last()@ == "Result"@ ==> std_path_model(segs, params, seq![a, e]) == Some(
            FlowType::ResultOf(Box::new(a), Box::new(e)),
        ),
        segs.last()@ == "Result"@ ==> render(std_path_model(segs, params, seq![a, e])->Some_0, Mode::Name, env, cfg)
            == match (render(a, Mode::Name, env, cfg), render(e, Mode::Name, env, cfg)) {
            (Some(x), Some(y)) => Some("{| Ok: "@ + x + " |} | {| Err: "@ + y + " |}"@),
            _ => None,
        },
        segs.last()@ == "HashMap"@ || segs.last()@ == "BTreeMap"@ ==> std_path_model(segs, params, seq![a, e]) == Some(
            FlowType::Dictionary(Box::new(a), Box::new(e)),
        ),
{
    let name = segs.last()@;
    if name == "Result"@ || name == "HashMap"@ || name == "BTreeMap"@ {
        reveal_strlit("Result");
        reveal_strlit("HashMap");
        reveal_strlit("BTreeMap");
        assert(!(segs.len() == 1 && params.contains(name)));
        assert(name.len() == 6 || name.len() == 7 || name.len() == 8);
        assert(name[0] == 'R' || name[0] == 'H' || name[0] == 'B');
        reveal_strlit("bool");
        reveal_strlit("i8");
        reveal_strlit("i16");
        reveal_strlit("i32");
        reveal_strlit("u8");
        reveal_strlit("u16");
        reveal_strlit("u32");
        reveal_strlit("usize");
        reveal_strlit("isize");
        reveal_strlit("f32");
        reveal_strlit("f64");
        reveal_strlit("i64");
        reveal_strlit("u64");
        reveal_strlit("i128");
        reveal_strlit("u128");
        reveal_strlit("String");
        reveal_strlit("str");
        reveal_strlit("char");
        reveal_strlit("PathBuf");
        reveal_strlit("Path");
        reveal_strlit("NaiveDate");
        reveal_strlit("NaiveTime");
        reveal_strlit("NaiveDateTime");
        reveal_strlit("DateTime");
        reveal_strlit("Uuid");
        reveal_strlit("Url");
        reveal_strlit("Option");
        reveal_strlit("Vec");
        reveal_strlit("VecDeque");
        reveal_strlit("HashSet");
        reveal_strlit("BTreeSet");
        reveal_strlit("LinkedList");
        reveal_strlit("Box");
        reveal_strlit("Rc");
        reveal_strlit("Arc");
        reveal_strlit("Cow");
        reveal_strlit("Cell");
        reveal_strlit("RefCell");
        reveal_strlit("Mutex");
        reveal_strlit("RwLock");
        reveal_strlit("BTreeMap");
        assert(!crate::std_types::number_name(name));
        assert(!crate::std_types::large_int_name(name));
        assert(!crate::std_types::text_name(name));
        if name == "HashMap"@ {
            assert(name[4] == 'M' && "HashSet"@[4] == 'S');
            assert(name[0] == 'H' && "RefCell"@[0] == 'R' && "VecDeque"@[0] == 'V' && "BTreeSet"@[0] == 'B');
        } else if name == "BTreeMap"@ {
            assert(name[5] == 'M' && "BTreeSet"@[5] == 'S');
            assert(name[0] == 'B' && "VecDeque"@[0] == 'V');
        } else {
            assert(name[1] == 'e' && "RwLock"@[1] == 'w');
        }
        assert(!crate::std_types::array_name(name));
        assert(!crate::std_types::wrapper_name(name));
        assert(name != "bool"@ && name != "Option"@);
        assert("Result"@.len() == 6 && "HashMap"@.len() == 7 && "BTreeMap"@.len() == 8);
        assert("Result"@ != "HashMap"@ && "Result"@ != "BTreeMap"@);
    }
}

/// Where a derived type is exported: the path given by `export_to` when it
/// names a file (does not end in `/`), that directory joined with the type's
/// name when it ends in `/`, and the type's name alone when there is none.
pub proof fn law_export_to_decides_the_output_path(d: TypeDef, args: Vec<FlowType>)
    ensures
        output_path_of(FlowType::Defined(Box::new(d), args)) == match d.attr.export_to {
            Some(p) => if p@.len() > 0 && p@.last() == '/' {
                Some(p@ + flow_name(d))
            } else {
                Some(p@)
            },
            None => Some(flow_name(d)),
        },
{
}

} // verus!
