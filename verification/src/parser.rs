//! The script that asks the Flow parser for the AST of a source text: the
//! source is passed as a JSON string literal.

use vstd::prelude::*;
use crate::ast::Error;
use crate::strings::to_owned_string;

verus! {

/// A lowercase hexadecimal digit.
pub open spec fn hex_digit(d: int) -> char {
    if d < 10 {
        ((48 + d) as u32) as char
    } else {
        ((87 + d) as u32) as char
    }
}

/// How a character is written inside a JSON string: quote, backslash and
/// the control characters are escaped (`\b`, `\t`, `\n`, `\f`, `\r`, or
/// `\u00XX`), every other character stands for itself.
pub open spec fn json_escape(c: char) -> Seq<char> {
    if c == '"' {
        seq!['\\', '"']
    } else if c == '\\' {
        seq!['\\', '\\']
    } else if c == '\x08' {
        seq!['\\', 'b']
    } else if c == '\t' {
        seq!['\\', 't']
    } else if c == '\n' {
        seq!['\\', 'n']
    } else if c == '\x0C' {
        seq!['\\', 'f']
    } else if c == '\r' {
        seq!['\\', 'r']
    } else if (c as u32) < 32 {
        seq!['\\', 'u', '0', '0', hex_digit((c as int) / 16), hex_digit((c as int) % 16)]
    } else {
        seq![c]
    }
}

/// The escaped characters of a JSON string.
pub open spec fn json_body(s: Seq<char>) -> Seq<char>
    decreases s.len(),
{
    if s.len() == 0 {
        Seq::empty()
    } else {
        json_body(s.drop_last()) + json_escape(s.last())
    }
}

/// A text written as a JSON string literal.
pub open spec fn json_string(s: Seq<char>) -> Seq<char> {
    seq!['"'] + json_body(s) + seq!['"']
}

/// Calls `serde_json::to_string` on a string slice.
///
/// Trusted: serde_json serializes a `str` into a `Vec` (which cannot fail) as
/// a JSON string literal, escaping as `json_escape` says (its `ESCAPE`
/// table and `write_char_escape` in `ser.rs`).
#[verifier::external_body]
fn json_quote(s: &str) -> (r: Result<String, String>)
    ensures
        r is Ok,
        r matches Ok(j) ==> j@ == json_string(s@),
{
    serde_json::to_string(s).map_err(|e| e.to_string())
}

/// The script evaluated by the parser's JavaScript context for a source
/// whose JSON string literal is `source_json`.
pub open spec fn script_text(source_json: Seq<char>) -> Seq<char> {
    "(function() {var ast = exports.parse("@ + source_json + ", { types: true });return JSON.stringify(ast);})()"@
}

/// The script that parses `source` and returns its AST as JSON text.
pub fn parse_script(source: &str) -> (r: Result<String, Error>)
    ensures
        r is Ok,
        r matches Ok(s) ==> s@ == script_text(json_string(source@)),
{
    let source_json = match json_quote(source) {
        Ok(j) => j,
        Err(e) => {
            return Err(Error::Runtime(e));
        },
    };
    let mut s = to_owned_string("(function() {var ast = exports.parse(");
    s.append(source_json.as_str());
    s.append(", { types: true });return JSON.stringify(ast);})()");
    proof {
        reveal_strlit("(function() {var ast = exports.parse(");
        reveal_strlit(", { types: true });return JSON.stringify(ast);})()");
        reveal_strlit("(function() {var ast = exports.parse(, { types: true });return JSON.stringify(ast);})()");
        assert(s@ =~= script_text(source_json@));
    }
    Ok(s)
}

} // verus!
