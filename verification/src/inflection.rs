//! Case inflection for `rename_all` attributes.
//!
//! Provides the standard set of `rename_all` case transformations used by
//! serde-compatible derive attributes.

use vstd::prelude::*;
use crate::strings::{push_char, str_equal};

verus! {

/// Whether a character has the Unicode `Uppercase` property.
pub uninterp spec fn unicode_is_uppercase(c: char) -> bool;

/// The first character that `char::to_lowercase` yields for `c`.
pub uninterp spec fn unicode_lower_first(c: char) -> char;

/// All characters that `char::to_lowercase` yields for `c`.
pub uninterp spec fn unicode_lower(c: char) -> Seq<char>;

/// All characters that `char::to_uppercase` yields for `c`.
pub uninterp spec fn unicode_upper(c: char) -> Seq<char>;

/// What `str::to_lowercase` returns for the given characters.
pub uninterp spec fn unicode_str_lower(s: Seq<char>) -> Seq<char>;

/// What `str::to_uppercase` returns for the given characters.
pub uninterp spec fn unicode_str_upper(s: Seq<char>) -> Seq<char>;

/// An ASCII character (code point below 128).
pub open spec fn is_ascii_char(c: char) -> bool {
    (c as u32) < 128
}

/// ASCII lowercase mapping: `A`..=`Z` shift to `a`..=`z`, every other char stays.
pub open spec fn ascii_lower(c: char) -> char {
    if 'A' <= c && c <= 'Z' {
        ((c as u32) + 32) as char
    } else {
        c
    }
}

/// ASCII uppercase mapping: `a`..=`z` shift to `A`..=`Z`, every other char stays.
pub open spec fn ascii_upper(c: char) -> char {
    if 'a' <= c && c <= 'z' {
        ((c as u32) - 32) as char
    } else {
        c
    }
}

/// Every character is ASCII.
pub open spec fn all_ascii(s: Seq<char>) -> bool {
    forall|i: int| 0 <= i < s.len() ==> #[trigger] is_ascii_char(s[i])
}

/// Calls `char::is_uppercase`.
///
/// Trusted: the result is named `unicode_is_uppercase`; for ASCII characters
/// the Unicode `Uppercase` property holds exactly for `A`..=`Z`.
#[verifier::external_body]
fn char_is_uppercase(c: char) -> (r: bool)
    ensures
        r == unicode_is_uppercase(c),
        is_ascii_char(c) ==> (r == ('A' <= c && c <= 'Z')),
{
    c.is_uppercase()
}

/// Calls `char::to_lowercase` and takes its first character, which always
/// exists (the iterator yields the char itself when it has no mapping).
///
/// Trusted: the result is named `unicode_lower_first`; ASCII letters map as
/// in ASCII, other ASCII characters map to themselves.
#[verifier::external_body]
fn char_lower_first(c: char) -> (r: char)
    ensures
        r == unicode_lower_first(c),
        is_ascii_char(c) ==> r == ascii_lower(c),
{
    c.to_lowercase().next().unwrap()
}

/// Calls `char::to_lowercase`, collected into a `String`.
///
/// Trusted: the result is named `unicode_lower`; for an ASCII character it is
/// that character's ASCII lowercase form alone.
#[verifier::external_body]
fn char_to_lowercase(c: char) -> (r: String)
    ensures
        r@ == unicode_lower(c),
        is_ascii_char(c) ==> r@ == seq![ascii_lower(c)],
{
    c.to_lowercase().to_string()
}

/// Calls `char::to_uppercase`, collected into a `String`.
///
/// Trusted: the result is named `unicode_upper`; for an ASCII character it is
/// that character's ASCII uppercase form alone.
#[verifier::external_body]
fn char_to_uppercase(c: char) -> (r: String)
    ensures
        r@ == unicode_upper(c),
        is_ascii_char(c) ==> r@ == seq![ascii_upper(c)],
{
    c.to_uppercase().to_string()
}

/// Calls `str::to_lowercase`.
///
/// Trusted: the result is named `unicode_str_lower`; on ASCII text it maps
/// each character by ASCII lowercasing.
#[verifier::external_body]
fn str_to_lowercase(s: &str) -> (r: String)
    ensures
        r@ == unicode_str_lower(s@),
        all_ascii(s@) ==> r@ == s@.map_values(|c: char| ascii_lower(c)),
{
    s.to_lowercase()
}

/// Calls `str::to_uppercase`.
///
/// Trusted: the result is named `unicode_str_upper`; on ASCII text it maps
/// each character by ASCII uppercasing.
#[verifier::external_body]
fn str_to_uppercase(s: &str) -> (r: String)
    ensures
        r@ == unicode_str_upper(s@),
        all_ascii(s@) ==> r@ == s@.map_values(|c: char| ascii_upper(c)),
{
    s.to_uppercase()
}

/// Field/variant name inflection.
#[derive(Clone, Copy, Debug, PartialEq, Eq, Structural)]
pub enum Inflection {
    /// `"lowercase"` — all lowercase, no separators.
    Lower,
    /// `"UPPERCASE"` — all uppercase, no separators.
    Upper,
    /// `"camelCase"`
    Camel,
    /// `"snake_case"`
    Snake,
    /// `"PascalCase"`
    Pascal,
    /// `"SCREAMING_SNAKE_CASE"`
    ScreamingSnake,
    /// `"kebab-case"`
    Kebab,
    /// `"SCREAMING-KEBAB-CASE"`
    ScreamingKebab,
}

/// The `rename_all` spelling of each inflection.
pub open spec fn inflection_name(i: Inflection) -> Seq<char> {
    match i {
        Inflection::Lower => "lowercase"@,
        Inflection::Upper => "UPPERCASE"@,
        Inflection::Camel => "camelCase"@,
        Inflection::Snake => "snake_case"@,
        Inflection::Pascal => "PascalCase"@,
        Inflection::ScreamingSnake => "SCREAMING_SNAKE_CASE"@,
        Inflection::Kebab => "kebab-case"@,
        Inflection::ScreamingKebab => "SCREAMING-KEBAB-CASE"@,
    }
}

/// The inflection whose `rename_all` spelling is `s`, if any.
pub open spec fn parse_inflection(s: Seq<char>) -> Option<Inflection> {
    if s == "lowercase"@ {
        Some(Inflection::Lower)
    } else if s == "UPPERCASE"@ {
        Some(Inflection::Upper)
    } else if s == "camelCase"@ {
        Some(Inflection::Camel)
    } else if s == "snake_case"@ {
        Some(Inflection::Snake)
    } else if s == "PascalCase"@ {
        Some(Inflection::Pascal)
    } else if s == "SCREAMING_SNAKE_CASE"@ {
        Some(Inflection::ScreamingSnake)
    } else if s == "kebab-case"@ {
        Some(Inflection::Kebab)
    } else if s == "SCREAMING-KEBAB-CASE"@ {
        Some(Inflection::ScreamingKebab)
    } else {
        None
    }
}

/// What one character contributes to `snake_case`: an uppercase character
/// becomes `_` (unless it is the first character) and its lowercase form.
pub open spec fn snake_piece(c: char, first: bool) -> Seq<char> {
    if unicode_is_uppercase(c) {
        if first {
            seq![unicode_lower_first(c)]
        } else {
            seq!['_', unicode_lower_first(c)]
        }
    } else {
        seq![c]
    }
}

/// `snake_case` of a name.
pub open spec fn snake_case(s: Seq<char>) -> Seq<char>
    decreases s.len(),
{
    if s.len() == 0 {
        Seq::empty()
    } else {
        snake_case(s.drop_last()) + snake_piece(s.last(), s.len() == 1)
    }
}

/// What the character at `i` contributes to `PascalCase`: underscores vanish,
/// the first character of each `_`-separated word is uppercased.
pub open spec fn pascal_piece(s: Seq<char>, i: int) -> Seq<char> {
    if s[i] == '_' {
        Seq::empty()
    } else if i == 0 || s[i - 1] == '_' {
        unicode_upper(s[i])
    } else {
        seq![s[i]]
    }
}

/// `PascalCase` of a name: split at `_`, capitalise each word, concatenate.
pub open spec fn pascal_case(s: Seq<char>) -> Seq<char>
    decreases s.len(),
{
    if s.len() == 0 {
        Seq::empty()
    } else {
        pascal_case(s.drop_last()) + pascal_piece(s, s.len() - 1)
    }
}

/// `camelCase` of a name: its `PascalCase` with the first character lowercased.
pub open spec fn camel_case(s: Seq<char>) -> Seq<char> {
    let p = pascal_case(s);
    if p.len() == 0 {
        Seq::empty()
    } else {
        unicode_lower(p[0]) + p.drop_first()
    }
}

/// Every `_` replaced by `-`.
pub open spec fn dashed(s: Seq<char>) -> Seq<char> {
    s.map_values(|c: char| if c == '_' { '-' } else { c })
}

/// The result of applying an inflection to a name.
pub open spec fn inflect(i: Inflection, s: Seq<char>) -> Seq<char> {
    match i {
        Inflection::Lower => unicode_str_lower(s),
        Inflection::Upper => unicode_str_upper(s),
        Inflection::Snake => snake_case(s),
        Inflection::ScreamingSnake => unicode_str_upper(snake_case(s)),
        Inflection::Camel => camel_case(s),
        Inflection::Pascal => pascal_case(s),
        Inflection::Kebab => dashed(snake_case(s)),
        Inflection::ScreamingKebab => dashed(unicode_str_upper(snake_case(s))),
    }
}

/// What one character contributes to `snake_case` of ASCII text.
pub open spec fn ascii_snake_piece(c: char, first: bool) -> Seq<char> {
    if 'A' <= c && c <= 'Z' {
        if first {
            seq![ascii_lower(c)]
        } else {
            seq!['_', ascii_lower(c)]
        }
    } else {
        seq![c]
    }
}

/// `snake_case` of ASCII text: what `snake_case` is when every character is ASCII.
pub open spec fn ascii_snake_case(s: Seq<char>) -> Seq<char>
    decreases s.len(),
{
    if s.len() == 0 {
        Seq::empty()
    } else {
        ascii_snake_case(s.drop_last()) + ascii_snake_piece(s.last(), s.len() == 1)
    }
}

/// What the character at `i` contributes to `PascalCase` of ASCII text.
pub open spec fn ascii_pascal_piece(s: Seq<char>, i: int) -> Seq<char> {
    if s[i] == '_' {
        Seq::empty()
    } else if i == 0 || s[i - 1] == '_' {
        seq![ascii_upper(s[i])]
    } else {
        seq![s[i]]
    }
}

/// `PascalCase` of ASCII text.
pub open spec fn ascii_pascal_case(s: Seq<char>) -> Seq<char>
    decreases s.len(),
{
    if s.len() == 0 {
        Seq::empty()
    } else {
        ascii_pascal_case(s.drop_last()) + ascii_pascal_piece(s, s.len() - 1)
    }
}

/// `camelCase` of ASCII text.
pub open spec fn ascii_camel_case(s: Seq<char>) -> Seq<char> {
    let p = ascii_pascal_case(s);
    if p.len() == 0 {
        Seq::empty()
    } else {
        seq![ascii_lower(p[0])] + p.drop_first()
    }
}

/// ASCII text lowercased.
pub open spec fn ascii_lower_str(s: Seq<char>) -> Seq<char> {
    s.map_values(|c: char| ascii_lower(c))
}

/// ASCII text uppercased.
pub open spec fn ascii_upper_str(s: Seq<char>) -> Seq<char> {
    s.map_values(|c: char| ascii_upper(c))
}

/// The result of applying an inflection to ASCII text.
pub open spec fn ascii_inflect(i: Inflection, s: Seq<char>) -> Seq<char> {
    match i {
        Inflection::Lower => ascii_lower_str(s),
        Inflection::Upper => ascii_upper_str(s),
        Inflection::Snake => ascii_snake_case(s),
        Inflection::ScreamingSnake => ascii_upper_str(ascii_snake_case(s)),
        Inflection::Camel => ascii_camel_case(s),
        Inflection::Pascal => ascii_pascal_case(s),
        Inflection::Kebab => dashed(ascii_snake_case(s)),
        Inflection::ScreamingKebab => dashed(ascii_upper_str(ascii_snake_case(s))),
    }
}

/// `snake_case` of ASCII text is ASCII.
pub proof fn lemma_ascii_snake_is_ascii(s: Seq<char>)
    requires
        all_ascii(s),
    ensures
        all_ascii(ascii_snake_case(s)),
    decreases s.len(),
{
    if s.len() > 0 {
        let t = s.drop_last();
        assert(all_ascii(t)) by {
            assert forall|i: int| 0 <= i < t.len() implies #[trigger] is_ascii_char(t[i]) by {
                assert(t[i] == s[i]);
            }
        }
        lemma_ascii_snake_is_ascii(t);
        let c = s.last();
        assert(is_ascii_char(c));
        assert(is_ascii_char(ascii_lower(c)));
        let r = ascii_snake_case(s);
        let a = ascii_snake_case(t);
        let b = ascii_snake_piece(c, s.len() == 1);
        assert(r == a + b);
        assert forall|i: int| 0 <= i < r.len() implies #[trigger] is_ascii_char(r[i]) by {
            if i < a.len() {
                assert(r[i] == a[i]);
            } else {
                assert(r[i] == b[i - a.len()]);
            }
        }
    }
}

/// `PascalCase` of ASCII text is ASCII.
pub proof fn lemma_ascii_pascal_is_ascii(s: Seq<char>)
    requires
        all_ascii(s),
    ensures
        all_ascii(ascii_pascal_case(s)),
    decreases s.len(),
{
    if s.len() > 0 {
        let t = s.drop_last();
        assert(all_ascii(t)) by {
            assert forall|i: int| 0 <= i < t.len() implies #[trigger] is_ascii_char(t[i]) by {
                assert(t[i] == s[i]);
            }
        }
        lemma_ascii_pascal_is_ascii(t);
        assert forall|j: int| 0 <= j < t.len() implies ascii_pascal_piece(t, j) == ascii_pascal_piece(s, j) by {}
        assert(ascii_pascal_case(t) == ascii_pascal_case(s.drop_last()));
        let c = s.last();
        assert(is_ascii_char(c));
        assert(is_ascii_char(ascii_upper(c)));
        let r = ascii_pascal_case(s);
        let a = ascii_pascal_case(t);
        let b = ascii_pascal_piece(s, s.len() - 1);
        assert(r == a + b);
        assert forall|i: int| 0 <= i < r.len() implies #[trigger] is_ascii_char(r[i]) by {
            if i < a.len() {
                assert(r[i] == a[i]);
            } else {
                assert(r[i] == b[i - a.len()]);
            }
        }
    }
}

/// No character of `s` is an ASCII uppercase letter.
pub open spec fn no_ascii_upper(s: Seq<char>) -> bool {
    forall|i: int| 0 <= i < s.len() ==> !('A' <= #[trigger] s[i] && s[i] <= 'Z')
}

/// `s` holds no `_`.
pub open spec fn no_underscore(s: Seq<char>) -> bool {
    forall|i: int| 0 <= i < s.len() ==> #[trigger] s[i] != '_'
}

/// ASCII lowercasing leaves no uppercase letter and keeps `_` apart.
pub proof fn lemma_ascii_lower_char(c: char)
    ensures
        !('A' <= ascii_lower(c) && ascii_lower(c) <= 'Z'),
        (ascii_lower(c) == '_') == (c == '_'),
        is_ascii_char(c) ==> is_ascii_char(ascii_lower(c)),
        ascii_lower(ascii_upper(ascii_lower(c))) == ascii_lower(c),
{
}

/// ASCII uppercasing keeps `_` apart.
pub proof fn lemma_ascii_upper_char(c: char)
    ensures
        (ascii_upper(c) == '_') == (c == '_'),
        is_ascii_char(c) ==> is_ascii_char(ascii_upper(c)),
{
}

/// `snake_case` of any text holds no ASCII uppercase letter.
pub proof fn lemma_ascii_snake_no_upper(s: Seq<char>)
    ensures
        no_ascii_upper(ascii_snake_case(s)),
    decreases s.len(),
{
    if s.len() > 0 {
        lemma_ascii_snake_no_upper(s.drop_last());
        lemma_ascii_lower_char(s.last());
        let a = ascii_snake_case(s.drop_last());
        let b = ascii_snake_piece(s.last(), s.len() == 1);
        let r = ascii_snake_case(s);
        assert forall|i: int| 0 <= i < r.len() implies !('A' <= #[trigger] r[i] && r[i] <= 'Z') by {
            if i < a.len() {
                assert(r[i] == a[i]);
            } else {
                assert(r[i] == b[i - a.len()]);
            }
        }
    }
}

/// Text without ASCII uppercase letters is its own ASCII `snake_case`.
pub proof fn lemma_ascii_snake_keeps(s: Seq<char>)
    requires
        no_ascii_upper(s),
    ensures
        ascii_snake_case(s) == s,
    decreases s.len(),
{
    if s.len() > 0 {
        assert(no_ascii_upper(s.drop_last())) by {
            assert forall|i: int| 0 <= i < s.drop_last().len() implies !('A' <= #[trigger] s.drop_last()[i] && s.drop_last()[i] <= 'Z') by {
                assert(s.drop_last()[i] == s[i]);
            }
        }
        lemma_ascii_snake_keeps(s.drop_last());
        assert(!('A' <= s[s.len() - 1] && s[s.len() - 1] <= 'Z'));
        assert(s.drop_last() + seq![s.last()] =~= s);
    }
}

/// ASCII `PascalCase` holds no `_`.
pub proof fn lemma_ascii_pascal_no_underscore(s: Seq<char>)
    ensures
        no_underscore(ascii_pascal_case(s)),
    decreases s.len(),
{
    if s.len() > 0 {
        let t = s.drop_last();
        lemma_ascii_pascal_no_underscore(t);
        assert forall|j: int| 0 <= j < t.len() implies ascii_pascal_piece(t, j) == ascii_pascal_piece(s, j) by {}
        let a = ascii_pascal_case(t);
        let b = ascii_pascal_piece(s, s.len() - 1);
        lemma_ascii_upper_char(s.last());
        let r = ascii_pascal_case(s);
        assert(r == a + b);
        assert forall|i: int| 0 <= i < r.len() implies #[trigger] r[i] != '_' by {
            if i < a.len() {
                assert(r[i] == a[i]);
            } else {
                assert(r[i] == b[i - a.len()]);
            }
        }
    }
}

/// ASCII `PascalCase` of text without `_` uppercases its first character
/// and keeps the rest.
pub proof fn lemma_ascii_pascal_of_word(t: Seq<char>)
    requires
        no_underscore(t),
    ensures
        ascii_pascal_case(t) == (if t.len() == 0 {
            Seq::<char>::empty()
        } else {
            seq![ascii_upper(t[0])] + t.drop_first()
        }),
    decreases t.len(),
{
    if t.len() > 0 {
        let u = t.drop_last();
        assert(no_underscore(u)) by {
            assert forall|i: int| 0 <= i < u.len() implies #[trigger] u[i] != '_' by {
                assert(u[i] == t[i]);
            }
        }
        lemma_ascii_pascal_of_word(u);
        assert forall|j: int| 0 <= j < u.len() implies ascii_pascal_piece(u, j) == ascii_pascal_piece(t, j) by {}
        assert(t[t.len() - 1] != '_');
        if t.len() == 1 {
            assert(ascii_pascal_case(u) =~= Seq::<char>::empty());
            assert(t.drop_first() =~= Seq::<char>::empty());
            assert(ascii_pascal_case(t) =~= seq![ascii_upper(t[0])]);
        } else {
            assert(t[t.len() - 2] != '_');
            assert(ascii_pascal_piece(t, t.len() - 1) == seq![t[t.len() - 1]]);
            assert(u[0] == t[0]);
            assert(ascii_pascal_case(t) =~= seq![ascii_upper(t[0])] + t.drop_first());
        }
    }
}

/// ASCII `camelCase` holds no `_`, and applying it again changes nothing.
pub proof fn lemma_ascii_camel_idempotent(s: Seq<char>)
    ensures
        no_underscore(ascii_camel_case(s)),
        ascii_camel_case(ascii_camel_case(s)) == ascii_camel_case(s),
{
    let p = ascii_pascal_case(s);
    lemma_ascii_pascal_no_underscore(s);
    let t = ascii_camel_case(s);
    if p.len() > 0 {
        lemma_ascii_lower_char(p[0]);
        assert(t == seq![ascii_lower(p[0])] + p.drop_first());
        assert forall|i: int| 0 <= i < t.len() implies #[trigger] t[i] != '_' by {
            if i > 0 {
                assert(t[i] == p[i]);
            }
        }
        lemma_ascii_pascal_of_word(t);
        assert(t.drop_first() =~= p.drop_first());
        assert(ascii_camel_case(t) =~= t);
    } else {
        assert(t =~= Seq::<char>::empty());
        assert(ascii_pascal_case(t) =~= Seq::<char>::empty());
    }
}

/// The `_`-separated words of a name, empty ones included.
pub open spec fn words(s: Seq<char>) -> Seq<Seq<char>>
    decreases s.len(),
{
    if s.len() == 0 {
        seq![Seq::empty()]
    } else {
        let ws = words(s.drop_last());
        if s.last() == '_' {
            ws.push(Seq::empty())
        } else {
            ws.update(ws.len() - 1, ws.last().push(s.last()))
        }
    }
}

/// A word with its first character uppercased (by `char::to_uppercase`).
pub open spec fn capitalized(w: Seq<char>) -> Seq<char> {
    if w.len() == 0 {
        Seq::empty()
    } else {
        unicode_upper(w[0]) + w.drop_first()
    }
}

/// The words, each capitalized, written one after the other.
pub open spec fn joined_capitalized(ws: Seq<Seq<char>>) -> Seq<char>
    decreases ws.len(),
{
    if ws.len() == 0 {
        Seq::empty()
    } else {
        joined_capitalized(ws.drop_last()) + capitalized(ws.last())
    }
}

proof fn lemma_words_shape(s: Seq<char>)
    ensures
        words(s).len() >= 1,
        (words(s).last().len() == 0) == (s.len() == 0 || s.last() == '_'),
    decreases s.len(),
{
    if s.len() > 0 {
        lemma_words_shape(s.drop_last());
    }
}

/// `PascalCase` splits a name at `_` and writes each word capitalized.
pub proof fn lemma_pascal_is_joined_words(s: Seq<char>)
    ensures
        pascal_case(s) == joined_capitalized(words(s)),
    decreases s.len(),
{
    if s.len() == 0 {
        assert(words(s) == seq![Seq::<char>::empty()]);
        assert(seq![Seq::<char>::empty()].drop_last() =~= Seq::<Seq<char>>::empty());
        assert(joined_capitalized(Seq::<Seq<char>>::empty()) == Seq::<char>::empty());
        assert(capitalized(Seq::<char>::empty()) == Seq::<char>::empty());
        assert(joined_capitalized(words(s)) =~= Seq::<char>::empty());
    } else {
        let t = s.drop_last();
        let c = s.last();
        lemma_pascal_is_joined_words(t);
        lemma_words_shape(t);
        let ws = words(t);
        assert forall|j: int| 0 <= j < t.len() implies pascal_piece(t, j) == pascal_piece(s, j) by {}
        assert(pascal_case(t) == pascal_case(s.drop_last()));
        if c == '_' {
            let w2 = ws.push(Seq::<char>::empty());
            assert(w2.drop_last() =~= ws);
            assert(joined_capitalized(w2) =~= joined_capitalized(ws));
            assert(pascal_case(s) =~= pascal_case(t));
        } else {
            let l = ws.last();
            let w2 = ws.update(ws.len() - 1, l.push(c));
            assert(w2.drop_last() =~= ws.drop_last());
            assert(w2.last() == l.push(c));
            if l.len() == 0 {
                assert(t.len() == 0 || t.last() == '_');
                assert(pascal_piece(s, s.len() - 1) == unicode_upper(c));
                assert(capitalized(l.push(c)) =~= unicode_upper(c));
                assert(capitalized(l) =~= Seq::<char>::empty());
            } else {
                assert(t[t.len() - 1] != '_');
                assert(pascal_piece(s, s.len() - 1) == seq![c]);
                assert(capitalized(l.push(c)) =~= capitalized(l) + seq![c]);
            }
            assert(joined_capitalized(w2) =~= joined_capitalized(ws) + pascal_piece(s, s.len() - 1));
        }
    }
}

/// `PascalCase` holds no `_` when uppercasing a character other than `_`
/// never gives one.
pub proof fn lemma_pascal_no_underscore(s: Seq<char>)
    requires
        forall|c: char| c != '_' ==> no_underscore(#[trigger] unicode_upper(c)),
    ensures
        no_underscore(pascal_case(s)),
    decreases s.len(),
{
    if s.len() > 0 {
        let t = s.drop_last();
        lemma_pascal_no_underscore(t);
        assert forall|j: int| 0 <= j < t.len() implies pascal_piece(t, j) == pascal_piece(s, j) by {}
        assert(pascal_case(t) == pascal_case(s.drop_last()));
        let a = pascal_case(t);
        let b = pascal_piece(s, s.len() - 1);
        if s.last() != '_' {
            assert(no_underscore(unicode_upper(s.last())));
        }
        assert(no_underscore(b));
        let r = pascal_case(s);
        assert(r == a + b);
        assert forall|i: int| 0 <= i < r.len() implies #[trigger] r[i] != '_' by {
            if i < a.len() {
                assert(r[i] == a[i]);
            } else {
                assert(r[i] == b[i - a.len()]);
            }
        }
    }
}

impl Inflection {
    /// All accepted `rename_all` values.
    pub const VALID_VALUES: [&'static str; 8] = [
        "lowercase",
        "UPPERCASE",
        "camelCase",
        "snake_case",
        "PascalCase",
        "SCREAMING_SNAKE_CASE",
        "kebab-case",
        "SCREAMING-KEBAB-CASE",
    ];

    /// Parse from the standard `rename_all` string values.
    ///
    /// Returns `None` for unrecognized values.
    pub fn parse(s: &str) -> (r: Option<Inflection>)
        ensures
            r == parse_inflection(s@),
    {
        if str_equal(s, "lowercase") {
            Some(Inflection::Lower)
        } else if str_equal(s, "UPPERCASE") {
            Some(Inflection::Upper)
        } else if str_equal(s, "camelCase") {
            Some(Inflection::Camel)
        } else if str_equal(s, "snake_case") {
            Some(Inflection::Snake)
        } else if str_equal(s, "PascalCase") {
            Some(Inflection::Pascal)
        } else if str_equal(s, "SCREAMING_SNAKE_CASE") {
            Some(Inflection::ScreamingSnake)
        } else if str_equal(s, "kebab-case") {
            Some(Inflection::Kebab)
        } else if str_equal(s, "SCREAMING-KEBAB-CASE") {
            Some(Inflection::ScreamingKebab)
        } else {
            None
        }
    }

    /// Parse a `rename_all` value, falling back to `snake_case` for
    /// unrecognized values.
    pub fn from_str(s: &str) -> (r: Inflection)
        ensures
            r == (match parse_inflection(s@) {
                Some(i) => i,
                None => Inflection::Snake,
            }),
    {
        match Inflection::parse(s) {
            Some(i) => i,
            None => Inflection::Snake,
        }
    }

    /// Apply the inflection to a string.
    pub fn apply(&self, s: &str) -> (r: String)
        ensures
            r@ == inflect(*self, s@),
            all_ascii(s@) ==> r@ == ascii_inflect(*self, s@),
    {
        match self {
            Inflection::Lower => str_to_lowercase(s),
            Inflection::Upper => str_to_uppercase(s),
            Inflection::Snake => to_snake_case(s),
            Inflection::ScreamingSnake => {
                let snake = to_snake_case(s);
                proof {
                    if all_ascii(s@) {
                        lemma_ascii_snake_is_ascii(s@);
                    }
                }
                str_to_uppercase(snake.as_str())
            },
            Inflection::Camel => to_camel_case(s),
            Inflection::Pascal => to_pascal_case(s),
            Inflection::Kebab => {
                let snake = to_snake_case(s);
                replace_underscores(snake.as_str())
            },
            Inflection::ScreamingKebab => {
                let snake = to_snake_case(s);
                proof {
                    if all_ascii(s@) {
                        lemma_ascii_snake_is_ascii(s@);
                    }
                }
                let upper = str_to_uppercase(snake.as_str());
                replace_underscores(upper.as_str())
            },
        }
    }
}

/// Replaces every `_` with `-`.
pub fn replace_underscores(s: &str) -> (r: String)
    ensures
        r@ == dashed(s@),
{
    let n = s.unicode_len();
    let mut out = String::new();
    let mut i: usize = 0;
    while i < n
        invariant
            n == s@.len(),
            i <= n,
            out@ =~= dashed(s@.take(i as int)),
        decreases n - i,
    {
        let c = s.get_char(i);
        if c == '_' {
            push_char(&mut out, '-');
        } else {
            push_char(&mut out, c);
        }
        i = i + 1;
    }
    proof {
        assert(s@.take(n as int) =~= s@);
    }
    out
}

/// `snake_case` of a name.
pub fn to_snake_case(s: &str) -> (r: String)
    ensures
        r@ == snake_case(s@),
        all_ascii(s@) ==> r@ == ascii_snake_case(s@),
{
    let n = s.unicode_len();
    let mut out = String::new();
    let mut i: usize = 0;
    while i < n
        invariant
            n == s@.len(),
            i <= n,
            out@ == snake_case(s@.take(i as int)),
            all_ascii(s@) ==> out@ == ascii_snake_case(s@.take(i as int)),
        decreases n - i,
    {
        let ch = s.get_char(i);
        proof {
            if all_ascii(s@) {
                assert(is_ascii_char(s@[i as int]));
            }
        }
        proof {
            assert(s@.take(i + 1).drop_last() =~= s@.take(i as int));
        }
        if char_is_uppercase(ch) {
            if i > 0 {
                push_char(&mut out, '_');
            }
            push_char(&mut out, char_lower_first(ch));
        } else {
            push_char(&mut out, ch);
        }
        proof {
            assert(out@ =~= snake_case(s@.take(i + 1)));
            if all_ascii(s@) {
                assert(out@ =~= ascii_snake_case(s@.take(i + 1)));
            }
        }
        i = i + 1;
    }
    proof {
        assert(s@.take(n as int) =~= s@);
    }
    out
}

/// `PascalCase` of a name.
pub fn to_pascal_case(s: &str) -> (r: String)
    ensures
        r@ == pascal_case(s@),
        all_ascii(s@) ==> r@ == ascii_pascal_case(s@),
{
    let n = s.unicode_len();
    let mut out = String::new();
    let mut i: usize = 0;
    let mut prev_underscore = true;
    while i < n
        invariant
            n == s@.len(),
            i <= n,
            out@ == pascal_case(s@.take(i as int)),
            all_ascii(s@) ==> out@ == ascii_pascal_case(s@.take(i as int)),
            prev_underscore == (i == 0 || s@[i - 1] == '_'),
        decreases n - i,
    {
        let ch = s.get_char(i);
        proof {
            let t = s@.take(i + 1);
            assert(t.drop_last() =~= s@.take(i as int));
            assert forall|j: int| 0 <= j < i implies pascal_piece(t, j) == pascal_piece(
                s@,
                j,
            ) by {}
            if all_ascii(s@) {
                assert(is_ascii_char(s@[i as int]));
            }
        }
        if ch == '_' {
        } else if prev_underscore {
            let up = char_to_uppercase(ch);
            out.append(up.as_str());
        } else {
            push_char(&mut out, ch);
        }
        proof {
            let t = s@.take(i + 1);
            assert(pascal_piece(t, i as int) == pascal_piece(s@, i as int));
            assert(out@ =~= pascal_case(t));
            if all_ascii(s@) {
                assert(ascii_pascal_piece(t, i as int) == ascii_pascal_piece(s@, i as int));
                assert(out@ =~= ascii_pascal_case(t));
            }
        }
        prev_underscore = ch == '_';
        i = i + 1;
    }
    proof {
        assert(s@.take(n as int) =~= s@);
    }
    out
}

/// `camelCase` of a name.
pub fn to_camel_case(s: &str) -> (r: String)
    ensures
        r@ == camel_case(s@),
        all_ascii(s@) ==> r@ == ascii_camel_case(s@),
{
    let pascal = to_pascal_case(s);
    let p = pascal.as_str();
    let n = p.unicode_len();
    if n == 0 {
        String::new()
    } else {
        let first = p.get_char(0);
        proof {
            if all_ascii(s@) {
                lemma_ascii_pascal_is_ascii(s@);
                assert(is_ascii_char(p@[0]));
            }
        }
        let mut out = char_to_lowercase(first);
        let rest = p.substring_char(1, n);
        out.append(rest);
        proof {
            assert(rest@ =~= p@.drop_first());
        }
        out
    }
}

} // verus!
