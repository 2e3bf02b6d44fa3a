//! Paths of exported files: their components, extensions, and the relative
//! paths written in import statements. Paths use `/` as separator.

use vstd::prelude::*;
use crate::strings::{views, to_owned_string, push_char};

verus! {

/// The `/`-separated pieces of a path, empty ones included.
pub open spec fn split_slash(p: Seq<char>) -> Seq<Seq<char>>
    decreases p.len(),
{
    if p.len() == 0 {
        seq![Seq::empty()]
    } else {
        let s = split_slash(p.drop_last());
        if p.last() == '/' {
            s.push(Seq::empty())
        } else {
            s.update(s.len() - 1, s.last().push(p.last()))
        }
    }
}

/// Whether a path is absolute (starts with `/`).
pub open spec fn has_root(p: Seq<char>) -> bool {
    p.len() > 0 && p[0] == '/'
}

/// Whether the `i`-th piece of a path is one of its components: empty pieces
/// and `.` are dropped, except a leading `.` of a relative path.
pub open spec fn keeps_piece(piece: Seq<char>, i: int, rooted: bool) -> bool {
    piece.len() > 0 && (piece != seq!['.'] || (i == 0 && !rooted))
}

/// The components among the first `n` pieces.
pub open spec fn kept_pieces(pieces: Seq<Seq<char>>, n: int, rooted: bool) -> Seq<Seq<char>>
    decreases n,
{
    if n <= 0 || n > pieces.len() {
        Seq::empty()
    } else if keeps_piece(pieces[n - 1], n - 1, rooted) {
        kept_pieces(pieces, n - 1, rooted).push(pieces[n - 1])
    } else {
        kept_pieces(pieces, n - 1, rooted)
    }
}

/// The components of a path, each written as text: `/` for the root, `.`
/// for a leading current directory, `..` for a parent, or a name.
pub open spec fn components(p: Seq<char>) -> Seq<Seq<char>> {
    let pieces = split_slash(p);
    (if has_root(p) { seq![seq!['/']] } else { Seq::empty() }) + kept_pieces(
        pieces,
        pieces.len() as int,
        has_root(p),
    )
}

/// A component that is a name (not the root, `.` or `..`).
pub open spec fn is_name(c: Seq<char>) -> bool {
    c != seq!['/'] && c != seq!['.'] && c != seq!['.', '.']
}

/// Whether a path has an extension: its last component is a name with a
/// `.` after its first character.
pub open spec fn has_extension(p: Seq<char>) -> bool {
    let c = components(p);
    c.len() > 0 && is_name(c.last()) && exists|j: int| 0 < j < c.last().len() && c.last()[j] == '.'
}

/// A base path with the given extension added, unless it has one already.
pub open spec fn with_extension(base: Seq<char>, ext: Seq<char>) -> Seq<char> {
    if has_extension(base) {
        base
    } else {
        base + seq!['.'] + ext
    }
}

fn split_exec(p: &str) -> (r: Vec<String>)
    ensures
        views(r@) =~= split_slash(p@),
{
    let n = p.unicode_len();
    let mut done: Vec<String> = Vec::new();
    let mut cur = String::new();
    let mut i: usize = 0;
    while i < n
        invariant
            n == p@.len(),
            i <= n,
            views(done@).push(cur@) =~= split_slash(p@.take(i as int)),
        decreases n - i,
    {
        let c = p.get_char(i);
        proof {
            assert(p@.take(i + 1).drop_last() =~= p@.take(i as int));
        }
        if c == '/' {
            let finished = cur;
            proof {
                assert(views(done@.push(finished)) =~= views(done@).push(finished@));
            }
            done.push(finished);
            cur = String::new();
        } else {
            push_char(&mut cur, c);
        }
        i = i + 1;
    }
    proof {
        assert(p@.take(n as int) =~= p@);
        assert(views(done@.push(cur)) =~= views(done@).push(cur@));
    }
    done.push(cur);
    done
}

fn is_dot(s: &str) -> (r: bool)
    ensures
        r == (s@ == seq!['.']),
{
    let n = s.unicode_len();
    if n == 1 && s.get_char(0) == '.' {
        proof {
            assert(s@ =~= seq!['.']);
        }
        true
    } else {
        false
    }
}

/// The components of a path (as `Path::components` gives them on Unix), each
/// written as text.
pub fn path_components(p: &str) -> (r: Vec<String>)
    ensures
        views(r@) =~= components(p@),
{
    let pieces = split_exec(p);
    let rooted = p.unicode_len() > 0 && p.get_char(0) == '/';
    let mut out: Vec<String> = Vec::new();
    if rooted {
        out.push(to_owned_string("/"));
        proof {
            reveal_strlit("/");
            assert("/"@ =~= seq!['/']);
            assert(views(out@) =~= seq![seq!['/']]);
        }
    }
    let ghost start = views(out@);
    let n = pieces.len();
    let mut i: usize = 0;
    while i < n
        invariant
            n == pieces@.len(),
            views(pieces@) =~= split_slash(p@),
            rooted == has_root(p@),
            i <= n,
            start == (if rooted { seq![seq!['/']] } else { Seq::<Seq<char>>::empty() }),
            views(out@) =~= start + kept_pieces(views(pieces@), i as int, rooted),
        decreases n - i,
    {
        let piece = pieces[i].as_str();
        let keep = piece.unicode_len() > 0 && (!is_dot(piece) || (i == 0 && !rooted));
        proof {
            assert(views(pieces@)[i as int] == pieces@[i as int]@);
        }
        if keep {
            let c = pieces[i].clone();
            proof {
                assert(views(out@.push(c)) =~= views(out@).push(c@));
            }
            out.push(c);
        }
        i = i + 1;
    }
    out
}

fn has_extension_exec(p: &str) -> (r: bool)
    ensures
        r == has_extension(p@),
{
    let comps = path_components(p);
    let k = comps.len();
    if k == 0 {
        return false;
    }
    let last = comps[k - 1].as_str();
    proof {
        assert(views(comps@)[k - 1] == comps@[k - 1]@);
        reveal_strlit("/");
        reveal_strlit("..");
    }
    let m = last.unicode_len();
    if crate::strings::str_equal(last, "/") || is_dot(last) || crate::strings::str_equal(last, "..") {
        proof {
            assert(seq!['/'] =~= "/"@);
            assert(seq!['.', '.'] =~= ".."@);
        }
        return false;
    }
    proof {
        assert(seq!['/'] =~= "/"@);
        assert(seq!['.', '.'] =~= ".."@);
    }
    let ghost c = components(p@);
    assert(c.len() > 0 && last@ == c.last() && is_name(c.last()));
    let mut j: usize = 1;
    while j < m
        invariant
            m == last@.len(),
            c == components(p@),
            c.len() > 0 && last@ == c.last() && is_name(c.last()),
            1 <= j <= m || m == 0,
            forall|x: int| 0 < x < j && x < m ==> last@[x] != '.',
        decreases m - j,
    {
        if last.get_char(j) == '.' {
            return true;
        }
        j = j + 1;
    }
    false
}

/// Resolve a base path (without extension) to a full path with extension:
/// a path that already has an extension is kept as it is.
pub fn resolve_with_extension(base: &str, ext: &str) -> (r: String)
    ensures
        r@ == with_extension(base@, ext@),
{
    if has_extension_exec(base) {
        to_owned_string(base)
    } else {
        let mut s = to_owned_string(base);
        push_char(&mut s, '.');
        s.append(ext);
        s
    }
}


/// The length of the longest common prefix of two component lists.
pub open spec fn common_len(a: Seq<Seq<char>>, b: Seq<Seq<char>>) -> nat
    decreases a.len(),
{
    if a.len() == 0 || b.len() == 0 || a[0] != b[0] {
        0
    } else {
        1 + common_len(a.drop_first(), b.drop_first())
    }
}

/// A component appended to a path: an absolute one replaces it; otherwise a
/// `/` separates the two unless the path is empty or already ends with one.
pub open spec fn push_text(buf: Seq<char>, comp: Seq<char>) -> Seq<char> {
    if (comp.len() > 0 && comp[0] == '/') || buf.len() == 0 {
        comp
    } else if buf.last() == '/' {
        buf + comp
    } else {
        buf + seq!['/'] + comp
    }
}

/// Components appended to a path in order.
pub open spec fn push_all(buf: Seq<char>, comps: Seq<Seq<char>>) -> Seq<char>
    decreases comps.len(),
{
    if comps.len() == 0 {
        buf
    } else {
        push_text(push_all(buf, comps.drop_last()), comps.last())
    }
}

/// The relative path from the components `bc` to the components `tc`: a
/// `..` for each component of `bc` past their common prefix, then the rest
/// of `tc`; `.` when that is empty.
pub open spec fn diff_comps(tc: Seq<Seq<char>>, bc: Seq<Seq<char>>) -> Seq<char> {
    let k = common_len(tc, bc);
    let ups = Seq::new((bc.len() - k) as nat, |i: int| seq!['.', '.']);
    let r = push_all(push_all(Seq::empty(), ups), tc.subrange(k as int, tc.len() as int));
    if r.len() == 0 {
        seq!['.']
    } else {
        r
    }
}

/// The relative path from `base` to `target`.
pub open spec fn diff_text(target: Seq<char>, base: Seq<char>) -> Seq<char> {
    diff_comps(components(target), components(base))
}

/// A list of components normalized lexically: `.` is dropped, and `..`
/// removes the component before it (a leading `..` stays).
pub open spec fn normalize_comps(cs: Seq<Seq<char>>) -> Seq<Seq<char>>
    decreases cs.len(),
{
    if cs.len() == 0 {
        Seq::empty()
    } else {
        let prev = normalize_comps(cs.drop_last());
        let c = cs.last();
        if c == seq!['.'] {
            prev
        } else if c == seq!['.', '.'] && prev.len() > 0 && prev.last() != seq!['.', '.'] {
            prev.drop_last()
        } else {
            prev.push(c)
        }
    }
}

/// The components that `diff_comps` writes: a `..` for each component of
/// `bc` past the common prefix, then the rest of `tc`.
pub open spec fn diff_list(tc: Seq<Seq<char>>, bc: Seq<Seq<char>>) -> Seq<Seq<char>> {
    let k = common_len(tc, bc);
    Seq::new((bc.len() - k) as nat, |i: int| seq!['.', '.']) + tc.subrange(k as int, tc.len() as int)
}

/// Text holding no `/`.
pub open spec fn no_slash(c: Seq<char>) -> bool {
    forall|j: int| 0 <= j < c.len() ==> #[trigger] c[j] != '/'
}

/// A component that `push_all` joins and `components` splits back: not
/// empty, no `/`, and not `.`.
pub open spec fn joinable(c: Seq<char>) -> bool {
    c.len() > 0 && no_slash(c) && c != seq!['.']
}

proof fn lemma_split_nonempty(p: Seq<char>)
    ensures
        split_slash(p).len() >= 1,
        forall|i: int| 0 <= i < split_slash(p).len() ==> no_slash(#[trigger] split_slash(p)[i]),
    decreases p.len(),
{
    if p.len() > 0 {
        lemma_split_nonempty(p.drop_last());
        let s = split_slash(p.drop_last());
        if p.last() != '/' {
            let l = s.last().push(p.last());
            assert forall|j: int| 0 <= j < l.len() implies #[trigger] l[j] != '/' by {
                if j < s.last().len() {
                    assert(l[j] == s.last()[j]);
                }
            }
        }
    }
}

proof fn lemma_split_append(a: Seq<char>, b: Seq<char>)
    requires
        no_slash(b),
    ensures
        split_slash(a + b) == split_slash(a).update(split_slash(a).len() - 1, split_slash(a).last() + b),
    decreases b.len(),
{
    lemma_split_nonempty(a);
    if b.len() == 0 {
        assert(a + b =~= a);
        assert(split_slash(a).last() + b =~= split_slash(a).last());
        assert(split_slash(a).update(split_slash(a).len() - 1, split_slash(a).last()) =~= split_slash(a));
    } else {
        let b2 = b.drop_last();
        assert(no_slash(b2)) by {
            assert forall|j: int| 0 <= j < b2.len() implies #[trigger] b2[j] != '/' by {
                assert(b2[j] == b[j]);
            }
        }
        lemma_split_append(a, b2);
        assert((a + b).drop_last() =~= a + b2);
        assert((a + b).last() == b.last());
        assert(b.last() != '/');
        let s = split_slash(a);
        assert((s.last() + b2).push(b.last()) =~= s.last() + b);
        assert(split_slash(a + b) =~= s.update(s.len() - 1, s.last() + b));
    }
}

proof fn lemma_split_slash_end(a: Seq<char>)
    ensures
        split_slash(a + seq!['/']) == split_slash(a).push(Seq::empty()),
{
    assert((a + seq!['/']).drop_last() =~= a);
}

proof fn lemma_join_shape(l: Seq<Seq<char>>)
    requires
        l.len() > 0,
        forall|i: int| 0 <= i < l.len() ==> joinable(#[trigger] l[i]),
    ensures
        push_all(Seq::empty(), l).len() > 0,
        push_all(Seq::empty(), l).last() != '/',
        push_all(Seq::empty(), l)[0] == l[0][0],
        split_slash(push_all(Seq::empty(), l)) == l,
    decreases l.len(),
{
    let c = l.last();
    assert(joinable(c));
    assert(c[0] != '/');
    assert(c[c.len() - 1] != '/');
    if l.len() == 1 {
        assert(l.drop_last().len() == 0);
        assert(push_all(Seq::<char>::empty(), l.drop_last()) == Seq::<char>::empty());
        assert(push_all(Seq::empty(), l) == c);
        lemma_split_append(Seq::empty(), c);
        assert(Seq::<char>::empty() + c =~= c);
        assert(l =~= seq![c]);
    } else {
        let m = l.drop_last();
        assert forall|i: int| 0 <= i < m.len() implies joinable(#[trigger] m[i]) by {
            assert(m[i] == l[i]);
        }
        lemma_join_shape(m);
        let j = push_all(Seq::empty(), m);
        assert(push_all(Seq::empty(), l) == j + seq!['/'] + c);
        lemma_split_slash_end(j);
        lemma_split_append(j + seq!['/'], c);
        assert(Seq::<char>::empty() + c =~= c);
        assert(split_slash(j + seq!['/'] + c) =~= m.push(c));
        assert(m.push(c) =~= l);
        assert((j + seq!['/'] + c)[0] == j[0]);
        assert(m[0] == l[0]);
    }
}

proof fn lemma_kept_all(l: Seq<Seq<char>>, n: int)
    requires
        0 <= n <= l.len(),
        forall|i: int| 0 <= i < l.len() ==> joinable(#[trigger] l[i]),
    ensures
        kept_pieces(l, n, false) == l.take(n),
    decreases n,
{
    if n > 0 {
        lemma_kept_all(l, n - 1);
        assert(joinable(l[n - 1]));
        assert(l.take(n - 1).push(l[n - 1]) =~= l.take(n));
    } else {
        assert(l.take(0) =~= Seq::<Seq<char>>::empty());
    }
}

/// Joined components split back into themselves.
pub proof fn lemma_components_of_join(l: Seq<Seq<char>>)
    requires
        l.len() > 0,
        forall|i: int| 0 <= i < l.len() ==> joinable(#[trigger] l[i]),
    ensures
        push_all(Seq::empty(), l).len() > 0,
        components(push_all(Seq::empty(), l)) == l,
{
    lemma_join_shape(l);
    let p = push_all(Seq::empty(), l);
    assert(joinable(l[0]));
    assert(!has_root(p));
    lemma_kept_all(l, l.len() as int);
    assert(l.take(l.len() as int) =~= l);
    assert(components(p) =~= kept_pieces(l, l.len() as int, false));
}

/// Pushing two lists of components is pushing their concatenation.
pub proof fn lemma_push_all_concat(b: Seq<char>, x: Seq<Seq<char>>, y: Seq<Seq<char>>)
    ensures
        push_all(push_all(b, x), y) == push_all(b, x + y),
    decreases y.len(),
{
    if y.len() == 0 {
        assert(x + y =~= x);
    } else {
        lemma_push_all_concat(b, x, y.drop_last());
        assert((x + y).drop_last() =~= x + y.drop_last());
        assert((x + y).last() == y.last());
    }
}

proof fn lemma_kept_joinable(pieces: Seq<Seq<char>>, n: int, rooted: bool)
    requires
        forall|i: int| 0 <= i < pieces.len() ==> no_slash(#[trigger] pieces[i]),
    ensures
        forall|i: int| 0 <= i < kept_pieces(pieces, n, rooted).len() ==> {
            let c = #[trigger] kept_pieces(pieces, n, rooted)[i];
            c.len() > 0 && no_slash(c)
        },
    decreases n,
{
    if n > 0 && n <= pieces.len() {
        lemma_kept_joinable(pieces, n - 1, rooted);
        let prev = kept_pieces(pieces, n - 1, rooted);
        let k = kept_pieces(pieces, n, rooted);
        if keeps_piece(pieces[n - 1], n - 1, rooted) {
            assert(k == prev.push(pieces[n - 1]));
            assert(no_slash(pieces[n - 1]));
            assert forall|i: int| 0 <= i < k.len() implies {
                let c = #[trigger] k[i];
                c.len() > 0 && no_slash(c)
            } by {
                if i < prev.len() {
                    assert(k[i] == prev[i]);
                }
            }
        }
    }
}

/// The components of a path whose components are all names are joinable.
pub proof fn lemma_name_components_joinable(p: Seq<char>)
    requires
        forall|i: int| 0 <= i < components(p).len() ==> is_name(#[trigger] components(p)[i]),
    ensures
        !has_root(p),
        forall|i: int| 0 <= i < components(p).len() ==> joinable(#[trigger] components(p)[i]),
{
    let pieces = split_slash(p);
    lemma_split_nonempty(p);
    lemma_kept_joinable(pieces, pieces.len() as int, has_root(p));
    if has_root(p) {
        assert(components(p)[0] == seq!['/']);
        assert(!is_name(components(p)[0]));
    }
    let c = components(p);
    assert(c =~= kept_pieces(pieces, pieces.len() as int, false));
    assert forall|i: int| 0 <= i < c.len() implies joinable(#[trigger] c[i]) by {
        assert(is_name(c[i]));
    }
}

/// Normalizing a list followed by names keeps those names.
pub proof fn lemma_normalize_names(y: Seq<Seq<char>>, z: Seq<Seq<char>>)
    requires
        forall|i: int| 0 <= i < z.len() ==> is_name(#[trigger] z[i]),
    ensures
        normalize_comps(y + z) == normalize_comps(y) + z,
    decreases z.len(),
{
    if z.len() == 0 {
        assert(y + z =~= y);
        assert(normalize_comps(y) + z =~= normalize_comps(y));
    } else {
        let z2 = z.drop_last();
        assert forall|i: int| 0 <= i < z2.len() implies is_name(#[trigger] z2[i]) by {
            assert(z2[i] == z[i]);
        }
        lemma_normalize_names(y, z2);
        assert((y + z).drop_last() =~= y + z2);
        assert((y + z).last() == z.last());
        assert(is_name(z.last()));
        assert((normalize_comps(y) + z2).push(z.last()) =~= normalize_comps(y) + z);
    }
}

/// Each trailing `..` removes one of the names before it.
pub proof fn lemma_normalize_ups(x: Seq<Seq<char>>, m: nat)
    requires
        m <= x.len(),
        forall|i: int| 0 <= i < x.len() ==> is_name(#[trigger] x[i]),
    ensures
        normalize_comps(x + Seq::new(m, |i: int| seq!['.', '.'])) == x.take(x.len() - m),
    decreases m,
{
    let ups = Seq::new(m, |i: int| seq!['.', '.']);
    if m == 0 {
        assert(x + ups =~= x);
        lemma_normalize_names(Seq::empty(), x);
        assert(Seq::<Seq<char>>::empty() + x =~= x);
        assert(normalize_comps(Seq::<Seq<char>>::empty()) =~= Seq::<Seq<char>>::empty());
        assert(x.take(x.len() as int) =~= x);
    } else {
        let m2 = (m - 1) as nat;
        lemma_normalize_ups(x, m2);
        let ups2 = Seq::new(m2, |i: int| seq!['.', '.']);
        assert((x + ups).drop_last() =~= x + ups2);
        assert((x + ups).last() == seq!['.', '.']);
        let prev = x.take(x.len() - m2);
        assert(prev.len() > 0);
        assert(prev.last() == x[x.len() - m]);
        assert(is_name(x[x.len() - m]));
        assert(seq!['.', '.'] != seq!['.']) by {
            assert(seq!['.', '.'].len() != seq!['.'].len());
        }
        assert(prev.drop_last() =~= x.take(x.len() - m));
    }
}

/// The common prefix is shared by both lists.
pub proof fn lemma_common_prefix(a: Seq<Seq<char>>, b: Seq<Seq<char>>)
    ensures
        common_len(a, b) <= a.len(),
        common_len(a, b) <= b.len(),
        a.take(common_len(a, b) as int) == b.take(common_len(a, b) as int),
    decreases a.len(),
{
    if !(a.len() == 0 || b.len() == 0 || a[0] != b[0]) {
        lemma_common_prefix(a.drop_first(), b.drop_first());
        let k = common_len(a, b) as int;
        assert(a.take(k) =~= seq![a[0]] + a.drop_first().take(k - 1));
        assert(b.take(k) =~= seq![b[0]] + b.drop_first().take(k - 1));
    } else {
        assert(a.take(0) =~= b.take(0));
    }
}

/// Backslashes turned into forward slashes.
pub open spec fn forward_slashes(s: Seq<char>) -> Seq<char> {
    s.map_values(|c: char| if c == '\\' { '/' } else { c })
}

/// The components of the directory holding a file.
pub open spec fn parent_comps(c: Seq<Seq<char>>) -> Seq<Seq<char>> {
    if c.len() == 0 {
        c
    } else {
        c.drop_last()
    }
}

/// Whether `s` starts with `p`.
pub open spec fn starts_with(s: Seq<char>, p: Seq<char>) -> bool {
    p.len() <= s.len() && s.subrange(0, p.len() as int) == p
}

/// The import path from file `from` to file `to`: relative to the directory
/// of `from`, with forward slashes, starting with `./` or `../`.
pub open spec fn import_path(from: Seq<char>, to: Seq<char>) -> Seq<char> {
    let s = forward_slashes(diff_comps(components(to), parent_comps(components(from))));
    if starts_with(s, seq!['.', '.', '/']) || starts_with(s, seq!['.', '/']) {
        s
    } else {
        seq!['.', '/'] + s
    }
}

/// Appends a path (or component) to `buf` as `PathBuf::push` does.
pub fn push_path(buf: &mut String, comp: &str)
    ensures
        final(buf)@ == push_text(old(buf)@, comp@),
{
    let n = buf.as_str().unicode_len();
    if (comp.unicode_len() > 0 && comp.get_char(0) == '/') || n == 0 {
        *buf = to_owned_string(comp);
    } else if buf.as_str().get_char(n - 1) == '/' {
        buf.append(comp);
    } else {
        push_char(buf, '/');
        buf.append(comp);
    }
}

fn diff_components(tc: &Vec<String>, bc: &Vec<String>) -> (r: String)
    ensures
        r@ == diff_comps(views(tc@), views(bc@)),
{
    let ghost tv = views(tc@);
    let ghost bv = views(bc@);
    let mut k: usize = 0;
    proof {
        assert(tv.subrange(0, tv.len() as int) =~= tv);
        assert(bv.subrange(0, bv.len() as int) =~= bv);
    }
    while k < tc.len() && k < bc.len() && crate::strings::str_equal(tc[k].as_str(), bc[k].as_str())
        invariant
            tv == views(tc@),
            bv == views(bc@),
            k <= tc@.len(),
            k <= bc@.len(),
            common_len(tv, bv) == k + common_len(tv.subrange(k as int, tv.len() as int), bv.subrange(k as int, bv.len() as int)),
        decreases tc@.len() - k,
    {
        proof {
            let a = tv.subrange(k as int, tv.len() as int);
            let b = bv.subrange(k as int, bv.len() as int);
            assert(a.drop_first() =~= tv.subrange(k + 1, tv.len() as int));
            assert(b.drop_first() =~= bv.subrange(k + 1, bv.len() as int));
            assert(a[0] == tv[k as int] && b[0] == bv[k as int]);
        }
        k = k + 1;
    }
    proof {
        let a = tv.subrange(k as int, tv.len() as int);
        let b = bv.subrange(k as int, bv.len() as int);
        if k < tc@.len() && k < bc@.len() {
            assert(a[0] == tv[k as int] && b[0] == bv[k as int]);
        }
        assert(common_len(a, b) == 0);
    }
    let ghost ups = Seq::new((bv.len() - k) as nat, |i: int| seq!['.', '.']);
    let mut out = String::new();
    let mut i: usize = k;
    while i < bc.len()
        invariant
            k <= i <= bc@.len(),
            bv == views(bc@),
            ups == Seq::new((bv.len() - k) as nat, |i: int| seq!['.', '.']),
            out@ == push_all(Seq::empty(), ups.take(i - k)),
        decreases bc@.len() - i,
    {
        proof {
            reveal_strlit("..");
            assert(".."@ =~= seq!['.', '.']);
            assert(ups.take(i - k + 1).drop_last() =~= ups.take(i - k));
        }
        push_path(&mut out, "..");
        i = i + 1;
    }
    proof {
        assert(ups.take(bv.len() - k) =~= ups);
    }
    let ghost base = out@;
    let ghost rest = tv.subrange(k as int, tv.len() as int);
    let mut j: usize = k;
    while j < tc.len()
        invariant
            k <= j <= tc@.len(),
            tv == views(tc@),
            rest == tv.subrange(k as int, tv.len() as int),
            out@ == push_all(base, rest.take(j - k)),
        decreases tc@.len() - j,
    {
        proof {
            assert(rest.take(j - k + 1).drop_last() =~= rest.take(j - k));
            assert(rest.take(j - k + 1).last() == tc@[j as int]@);
        }
        push_path(&mut out, tc[j].as_str());
        j = j + 1;
    }
    proof {
        assert(rest.take(tv.len() - k) =~= rest);
    }
    if out.as_str().unicode_len() == 0 {
        let mut dot = String::new();
        push_char(&mut dot, '.');
        proof {
            assert(dot@ =~= seq!['.']);
        }
        dot
    } else {
        out
    }
}

/// Compute a relative path from `base` to `target`.
pub fn diff_paths(target: &str, base: &str) -> (r: String)
    ensures
        r@ == diff_text(target@, base@),
{
    let tc = path_components(target);
    let bc = path_components(base);
    diff_components(&tc, &bc)
}

/// Normalize Windows backslashes to forward slashes for JS import paths.
pub fn normalize_separators(s: &str) -> (r: String)
    ensures
        r@ == forward_slashes(s@),
{
    let n = s.unicode_len();
    let mut out = String::new();
    let mut i: usize = 0;
    while i < n
        invariant
            n == s@.len(),
            i <= n,
            out@ =~= forward_slashes(s@.take(i as int)),
        decreases n - i,
    {
        let c = s.get_char(i);
        if c == '\\' {
            push_char(&mut out, '/');
        } else {
            push_char(&mut out, c);
        }
        i = i + 1;
    }
    proof {
        assert(s@.take(n as int) =~= s@);
    }
    out
}

fn starts_with_exec(s: &str, p: &str) -> (r: bool)
    ensures
        r == starts_with(s@, p@),
{
    let n = s.unicode_len();
    let m = p.unicode_len();
    if m > n {
        return false;
    }
    let head = s.substring_char(0, m);
    crate::strings::str_equal(head, p)
}

/// Compute a relative import path from one file to another.
pub fn relative_import_path(from: &str, to: &str) -> (r: String)
    ensures
        r@ == import_path(from@, to@),
{
    let mut from_dir = path_components(from);
    if from_dir.len() > 0 {
        from_dir.pop();
        proof {
            assert(views(from_dir@) =~= parent_comps(components(from@)));
        }
    }
    let tc = path_components(to);
    let rel = diff_components(&tc, &from_dir);
    let s = normalize_separators(rel.as_str());
    proof {
        reveal_strlit("../");
        reveal_strlit("./");
        assert("../"@ =~= seq!['.', '.', '/']);
        assert("./"@ =~= seq!['.', '/']);
    }
    if starts_with_exec(s.as_str(), "../") || starts_with_exec(s.as_str(), "./") {
        s
    } else {
        let mut out = to_owned_string("./");
        out.append(s.as_str());
        out
    }
}

} // verus!
