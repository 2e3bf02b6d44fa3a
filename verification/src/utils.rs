//! Escaping of Flow string literals and quoting of property names.

use vstd::prelude::*;
use crate::strings::push_char;

verus! {

/// What one character becomes inside a single-quoted Flow string literal.
pub open spec fn escape_char(c: char) -> Seq<char> {
    if c == '\\' {
        seq!['\\', '\\']
    } else if c == '\'' {
        seq!['\\', '\'']
    } else {
        seq![c]
    }
}

/// Backslashes doubled and single quotes preceded by a backslash.
pub open spec fn escaped(s: Seq<char>) -> Seq<char>
    decreases s.len(),
{
    if s.len() == 0 {
        Seq::empty()
    } else {
        escaped(s.drop_last()) + escape_char(s.last())
    }
}

/// May start a Flow identifier: an ASCII letter, `_` or `$`.
pub open spec fn is_ident_start(c: char) -> bool {
    ('a' <= c && c <= 'z') || ('A' <= c && c <= 'Z') || c == '_' || c == '$'
}

/// May continue a Flow identifier: an ASCII letter or digit, `_` or `$`.
pub open spec fn is_ident_char(c: char) -> bool {
    is_ident_start(c) || ('0' <= c && c <= '9')
}

/// A non-empty name that Flow accepts as a bare property key.
pub open spec fn is_identifier(s: Seq<char>) -> bool {
    &&& s.len() > 0
    &&& is_ident_start(s[0])
    &&& forall|i: int| 0 <= i < s.len() ==> #[trigger] is_ident_char(s[i])
}

/// The property key as written in Flow: bare when it is an identifier,
/// otherwise single-quoted with its quotes and backslashes escaped.
pub open spec fn quoted_property(s: Seq<char>) -> Seq<char> {
    if is_identifier(s) {
        s
    } else {
        seq!['\''] + escaped(s) + seq!['\'']
    }
}

/// Escape a string for use as a Flow string literal value (inside single quotes).
pub fn escape_string_literal(s: &str) -> (r: String)
    ensures
        r@ == escaped(s@),
{
    let n = s.unicode_len();
    let mut out = String::new();
    let mut i: usize = 0;
    while i < n
        invariant
            n == s@.len(),
            i <= n,
            out@ == escaped(s@.take(i as int)),
        decreases n - i,
    {
        let c = s.get_char(i);
        proof {
            assert(s@.take(i + 1).drop_last() =~= s@.take(i as int));
        }
        if c == '\\' {
            push_char(&mut out, '\\');
            push_char(&mut out, '\\');
        } else if c == '\'' {
            push_char(&mut out, '\\');
            push_char(&mut out, '\'');
        } else {
            push_char(&mut out, c);
        }
        proof {
            assert(out@ =~= escaped(s@.take(i + 1)));
        }
        i = i + 1;
    }
    proof {
        assert(s@.take(n as int) =~= s@);
    }
    out
}

fn ident_start(c: char) -> (b: bool)
    ensures
        b == is_ident_start(c),
{
    ('a' <= c && c <= 'z') || ('A' <= c && c <= 'Z') || c == '_' || c == '$'
}

fn ident_char(c: char) -> (b: bool)
    ensures
        b == is_ident_char(c),
{
    ident_start(c) || ('0' <= c && c <= '9')
}

/// Whether `name` is a bare Flow identifier.
fn check_identifier(name: &str) -> (b: bool)
    ensures
        b == is_identifier(name@),
{
    let n = name.unicode_len();
    if n == 0 {
        return false;
    }
    if !ident_start(name.get_char(0)) {
        return false;
    }
    let mut i: usize = 0;
    while i < n
        invariant
            n == name@.len(),
            i <= n,
            forall|j: int| 0 <= j < i ==> #[trigger] is_ident_char(name@[j]),
        decreases n - i,
    {
        if !ident_char(name.get_char(i)) {
            return false;
        }
        i = i + 1;
    }
    true
}

/// Quote a Flow property name if it contains non-identifier characters.
/// Flow requires non-identifier keys to be quoted: `'my-field'` instead of `my-field`.
/// Single quotes inside the name are escaped.
pub fn quote_property_name(name: &str) -> (r: String)
    ensures
        r@ == quoted_property(name@),
{
    if check_identifier(name) {
        name.to_owned()
    } else {
        let mut out = String::new();
        push_char(&mut out, '\'');
        let esc = escape_string_literal(name);
        out.append(esc.as_str());
        push_char(&mut out, '\'');
        out
    }
}

} // verus!
