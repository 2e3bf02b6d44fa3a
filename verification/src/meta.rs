//! Derive attributes as plain values: the `#[flow(...)]` and `#[serde(...)]`
//! items of a container, field or variant, and how a sequence of them is read.

use vstd::prelude::*;
use crate::strings::{str_equal, to_owned_string};

verus! {

/// A literal in an attribute.
pub enum Lit {
    Str(String),
    Bool(bool),
    /// Any other literal (a number, a char, ...).
    Other,
    /// A value that is not a literal (a path, a call, ...).
    Expr,
}

/// One item of a nested list `key(name = value, name)`.
pub struct ListItem {
    pub name: String,
    /// The value, as written, of an item written `name = value`.
    pub value: Option<String>,
}

/// A nested meta item inside `#[flow(...)]` or `#[serde(...)]`.
pub enum Meta {
    /// `key`
    Path(String),
    /// `key = literal`
    NameValue(String, Lit),
    /// `key(items)`
    List(String, Vec<ListItem>),
}

/// The key of a meta item.
pub open spec fn meta_key(m: Meta) -> Seq<char> {
    match m {
        Meta::Path(k) => k@,
        Meta::NameValue(k, _) => k@,
        Meta::List(k, _) => k@,
    }
}

/// An outer attribute `#[path(args)]`; only `flow` and `serde` attributes are read.
pub struct Attribute {
    pub path: String,
    pub args: Vec<Meta>,
}

/// Why reading the attributes fails.
pub enum AttrError {
    /// An unknown key in a container's `#[flow(...)]`.
    UnknownContainerAttr(String),
    /// An unknown key in a field's `#[flow(...)]`.
    UnknownFieldAttr(String),
    /// An unknown key in a variant's `#[flow(...)]`.
    UnknownVariantAttr(String),
    /// A `flow_enum` representation other than string, symbol, number, boolean.
    UnknownFlowEnum(String),
    /// An `optional` string other than `nullable`.
    UnknownOptional(String),
    /// An `optional` value that is neither a string nor a bool.
    OptionalNotStrOrBool,
    /// `repr(..)` without `enum`.
    ExpectedEnum,
    /// `repr(enum = ..)` with a value other than `name`.
    ExpectedName,
    /// A `rename_all` value that names no inflection.
    InvalidRenameAll(String),
    /// A key that takes a value written without one.
    MissingValue(String),
    /// A key that takes no value written with one.
    UnexpectedValue(String),
    /// A key that takes a parenthesized list written otherwise, or a list
    /// item without its value.
    MalformedList(String),
    /// A value that is not a literal where a literal is read.
    ExpectedLiteral,
    /// A `crate` value that is not a Rust path.
    InvalidPath(String),
    /// An `as` value that is not a Rust type.
    InvalidType(String),
    /// A `bound` value that is not a list of where-clause predicates.
    InvalidBound(String),
}

/// The message `syn` gives when `s` does not parse as a path
/// (`syn::Path`); `None` when it parses.
pub uninterp spec fn path_syntax_error(s: Seq<char>) -> Option<Seq<char>>;

/// The message `syn` gives when `s` does not parse as a type
/// (`syn::Type`); `None` when it parses.
pub uninterp spec fn type_syntax_error(s: Seq<char>) -> Option<Seq<char>>;

/// The message `syn` gives when `where ` followed by `s` does not parse as a
/// where clause (`syn::WhereClause`); `None` when it parses.
pub uninterp spec fn bound_syntax_error(s: Seq<char>) -> Option<Seq<char>>;

/// Parses a string as a path with `syn::parse_str::<syn::Path>`.
///
/// Trusted: the error's message, if any, is named `path_syntax_error`.
#[verifier::external_body]
fn check_path(s: &str) -> (r: Option<String>)
    ensures
        match r {
            Some(e) => path_syntax_error(s@) == Some(e@),
            None => path_syntax_error(s@) is None,
        },
{
    syn::parse_str::<syn::Path>(s).err().map(|e| e.to_string())
}

/// Parses a string as a type with `syn::parse_str::<syn::Type>`.
///
/// Trusted: the error's message, if any, is named `type_syntax_error`.
#[verifier::external_body]
fn check_type(s: &str) -> (r: Option<String>)
    ensures
        match r {
            Some(e) => type_syntax_error(s@) == Some(e@),
            None => type_syntax_error(s@) is None,
        },
{
    syn::parse_str::<syn::Type>(s).err().map(|e| e.to_string())
}

/// Parses `where ` followed by a string as a where clause with
/// `syn::parse_str::<syn::WhereClause>`.
///
/// Trusted: the error's message, if any, is named `bound_syntax_error`.
#[verifier::external_body]
fn check_bound(s: &str) -> (r: Option<String>)
    ensures
        match r {
            Some(e) => bound_syntax_error(s@) == Some(e@),
            None => bound_syntax_error(s@) is None,
        },
{
    syn::parse_str::<syn::WhereClause>(&format!("where {s}")).err().map(|e| e.to_string())
}

/// The message of a syntax error, or nothing.
pub open spec fn error_text(e: Option<Seq<char>>) -> Seq<char> {
    match e {
        Some(t) => t,
        None => Seq::empty(),
    }
}

/// The text of an attribute error.
pub open spec fn attr_error_text(e: AttrError) -> Seq<char> {
    match e {
        AttrError::UnknownContainerAttr(k) => "unknown #[flow(...)] attribute: `"@ + k@ + "`"@,
        AttrError::UnknownFieldAttr(k) => "unknown #[flow(...)] field attribute: `"@ + k@ + "`"@,
        AttrError::UnknownVariantAttr(k) => "unknown #[flow(...)] variant attribute: `"@ + k@ + "`"@,
        AttrError::UnknownFlowEnum(k) => "unknown flow_enum representation: `"@ + k@
            + "`. Expected \"string\", \"symbol\", \"number\", or \"boolean\""@,
        AttrError::UnknownOptional(k) => "unknown optional value: `"@ + k@ + "`. Expected \"nullable\""@,
        AttrError::OptionalNotStrOrBool => "expected string or bool for `optional`"@,
        AttrError::ExpectedEnum => "expected `enum`"@,
        AttrError::ExpectedName => "expected `name`"@,
        AttrError::InvalidRenameAll(k) => "invalid rename_all value: `"@ + k@ + "`"@,
        AttrError::MissingValue(k) => "expected `=` after `"@ + k@ + "`"@,
        AttrError::UnexpectedValue(k) => "expected `,` after `"@ + k@ + "`"@,
        AttrError::MalformedList(k) => "expected `name = value` items in `"@ + k@ + "`"@,
        AttrError::ExpectedLiteral => "expected literal"@,
        AttrError::InvalidPath(s) => error_text(path_syntax_error(s@)),
        AttrError::InvalidType(s) => error_text(type_syntax_error(s@)),
        AttrError::InvalidBound(s) => error_text(bound_syntax_error(s@)),
    }
}

impl AttrError {
    /// The error's message.
    pub fn message(&self) -> (r: String)
        ensures
            r@ == attr_error_text(*self),
    {
        let checked = match self {
            AttrError::InvalidPath(v) => Some(check_path(v.as_str())),
            AttrError::InvalidType(v) => Some(check_type(v.as_str())),
            AttrError::InvalidBound(v) => Some(check_bound(v.as_str())),
            _ => None,
        };
        if let Some(found) = checked {
            return match found {
                Some(t) => t,
                None => String::new(),
            };
        }
        let (head, key, tail): (&str, &str, &str) = match self {
            AttrError::UnknownContainerAttr(k) => ("unknown #[flow(...)] attribute: `", k.as_str(), "`"),
            AttrError::UnknownFieldAttr(k) => ("unknown #[flow(...)] field attribute: `", k.as_str(), "`"),
            AttrError::UnknownVariantAttr(k) => ("unknown #[flow(...)] variant attribute: `", k.as_str(), "`"),
            AttrError::UnknownFlowEnum(k) => (
                "unknown flow_enum representation: `",
                k.as_str(),
                "`. Expected \"string\", \"symbol\", \"number\", or \"boolean\"",
            ),
            AttrError::UnknownOptional(k) => ("unknown optional value: `", k.as_str(), "`. Expected \"nullable\""),
            AttrError::OptionalNotStrOrBool => ("expected string or bool for `optional`", "", ""),
            AttrError::ExpectedEnum => ("expected `enum`", "", ""),
            AttrError::ExpectedName => ("expected `name`", "", ""),
            AttrError::InvalidRenameAll(k) => ("invalid rename_all value: `", k.as_str(), "`"),
            AttrError::MissingValue(k) => ("expected `=` after `", k.as_str(), "`"),
            AttrError::UnexpectedValue(k) => ("expected `,` after `", k.as_str(), "`"),
            AttrError::MalformedList(k) => ("expected `name = value` items in `", k.as_str(), "`"),
            AttrError::ExpectedLiteral => ("expected literal", "", ""),
            _ => ("", "", ""),
        };
        proof {
            reveal_strlit("");
        }
        let mut s = to_owned_string(head);
        s.append(key);
        s.append(tail);
        proof {
            assert(s@ == head@ + key@ + tail@);
            match self {
                AttrError::OptionalNotStrOrBool => assert(s@ =~= head@),
                AttrError::ExpectedEnum => assert(s@ =~= head@),
                AttrError::ExpectedName => assert(s@ =~= head@),
                AttrError::ExpectedLiteral => assert(s@ =~= head@),
                _ => {},
            }
        }
        s
    }
}

/// A value that is read from attribute items one by one.
pub trait AttrState: View + Sized {
    /// The effect of one item of a `#[flow(...)]` (`flow`) or `#[serde(...)]`
    /// (`!flow`) attribute.
    spec fn step_spec(v: Self::V, m: Meta, flow: bool) -> Result<Self::V, AttrError>;

    /// Reads one item.
    fn step(&mut self, m: &Meta, flow: bool) -> (r: Result<(), AttrError>)
        ensures
            match r {
                Ok(_) => Self::step_spec(old(self)@, *m, flow) == Ok::<Self::V, AttrError>(final(self)@),
                Err(e) => Self::step_spec(old(self)@, *m, flow) == Err::<Self::V, AttrError>(e),
            },
    ;
}

/// The first `n` items of one attribute, read in order from `v`.
pub open spec fn fold_args<S: AttrState>(v: S::V, args: Seq<Meta>, n: int, flow: bool) -> Result<S::V, AttrError>
    decreases n,
{
    if n <= 0 || n > args.len() {
        Ok(v)
    } else {
        match fold_args::<S>(v, args, n - 1, flow) {
            Ok(t) => S::step_spec(t, args[n - 1], flow),
            Err(e) => Err(e),
        }
    }
}

/// The first `n` attributes read in order from `v`: `flow` and `serde`
/// attributes item by item, others ignored; the first error stops reading.
pub open spec fn fold_attrs<S: AttrState>(v: S::V, attrs: Seq<Attribute>, n: int) -> Result<S::V, AttrError>
    decreases n,
{
    if n <= 0 || n > attrs.len() {
        Ok(v)
    } else {
        match fold_attrs::<S>(v, attrs, n - 1) {
            Ok(t) => {
                let a = attrs[n - 1];
                if a.path@ == "flow"@ {
                    fold_args::<S>(t, a.args@, a.args@.len() as int, true)
                } else if a.path@ == "serde"@ {
                    fold_args::<S>(t, a.args@, a.args@.len() as int, false)
                } else {
                    Ok(t)
                }
            },
            Err(e) => Err(e),
        }
    }
}

proof fn lemma_args_err<S: AttrState>(v: S::V, args: Seq<Meta>, k: int, n: int, flow: bool)
    requires
        0 <= k <= n <= args.len(),
        fold_args::<S>(v, args, k, flow) is Err,
    ensures
        fold_args::<S>(v, args, n, flow) == fold_args::<S>(v, args, k, flow),
    decreases n - k,
{
    if n > k {
        lemma_args_err::<S>(v, args, k, n - 1, flow);
    }
}

proof fn lemma_attrs_err<S: AttrState>(v: S::V, attrs: Seq<Attribute>, k: int, n: int)
    requires
        0 <= k <= n <= attrs.len(),
        fold_attrs::<S>(v, attrs, k) is Err,
    ensures
        fold_attrs::<S>(v, attrs, n) == fold_attrs::<S>(v, attrs, k),
    decreases n - k,
{
    if n > k {
        lemma_attrs_err::<S>(v, attrs, k, n - 1);
    }
}

/// Reads the `flow` and `serde` attributes into `state`, item by item.
pub fn read_attrs<S: AttrState>(state: S, attrs: &Vec<Attribute>) -> (r: Result<S, AttrError>)
    ensures
        match r {
            Ok(s) => fold_attrs::<S>(state@, attrs@, attrs@.len() as int) == Ok::<S::V, AttrError>(s@),
            Err(e) => fold_attrs::<S>(state@, attrs@, attrs@.len() as int) == Err::<S::V, AttrError>(e),
        },
{
    let ghost init = state@;
    let mut st = state;
    let n = attrs.len();
    let mut i: usize = 0;
    while i < n
        invariant
            n == attrs@.len(),
            i <= n,
            init == state@,
            fold_attrs::<S>(init, attrs@, i as int) == Ok::<S::V, AttrError>(st@),
        decreases n - i,
    {
        let a = &attrs[i];
        let flow = str_equal(a.path.as_str(), "flow");
        let serde = str_equal(a.path.as_str(), "serde");
        if flow || serde {
            let ghost before = st@;
            let m = a.args.len();
            let mut j: usize = 0;
            while j < m
                invariant
                    n == attrs@.len(),
                    i < n,
                    a == attrs@[i as int],
                    m == a.args@.len(),
                    j <= m,
                    flow == (a.path@ == "flow"@),
                    flow || a.path@ == "serde"@,
                    init == state@,
                    fold_attrs::<S>(init, attrs@, i as int) == Ok::<S::V, AttrError>(before),
                    fold_args::<S>(before, a.args@, j as int, flow) == Ok::<S::V, AttrError>(st@),
                decreases m - j,
            {
                match st.step(&a.args[j], flow) {
                    Ok(_) => {},
                    Err(e) => {
                        proof {
                            lemma_args_err::<S>(before, a.args@, j + 1, m as int, flow);
                            lemma_attrs_err::<S>(init, attrs@, i + 1, n as int);
                        }
                        return Err(e);
                    },
                }
                j = j + 1;
            }
        }
        i = i + 1;
    }
    Ok(st)
}


/// The key of a meta item, as a string.
pub open spec fn key_string(m: Meta) -> String {
    match m {
        Meta::Path(k) => k,
        Meta::NameValue(k, _) => k,
        Meta::List(k, _) => k,
    }
}

/// The string value of `key = "value"` (`None` for another literal); a key
/// written without `=`, or with a value that is no literal, is an error.
pub open spec fn str_value(m: Meta) -> Result<Option<String>, AttrError> {
    match m {
        Meta::NameValue(_, Lit::Str(s)) => Ok(Some(s)),
        Meta::NameValue(_, Lit::Expr) => Err(AttrError::ExpectedLiteral),
        Meta::NameValue(_, _) => Ok(None),
        _ => Err(AttrError::MissingValue(key_string(m))),
    }
}

/// A key that is a flag: written alone, or it is an error.
pub open spec fn flag(m: Meta) -> Result<(), AttrError> {
    match m {
        Meta::Path(_) => Ok(()),
        _ => Err(AttrError::UnexpectedValue(key_string(m))),
    }
}

/// A key whose value, if any, is skipped: a parenthesized list is an error.
pub open spec fn skipped(m: Meta) -> Result<(), AttrError> {
    match m {
        Meta::List(k, _) => Err(AttrError::UnexpectedValue(k)),
        _ => Ok(()),
    }
}

/// The key of a meta item.
pub fn key_of(m: &Meta) -> (r: &String)
    ensures
        *r == key_string(*m),
{
    match m {
        Meta::Path(k) => k,
        Meta::NameValue(k, _) => k,
        Meta::List(k, _) => k,
    }
}

/// Whether the key of a meta item is `k`.
pub fn key_is(m: &Meta, k: &str) -> (r: bool)
    ensures
        r == (meta_key(*m) == k@),
{
    str_equal(key_of(m).as_str(), k)
}

/// The string value of `key = "value"`.
pub fn str_value_exec(m: &Meta) -> (r: Result<Option<String>, AttrError>)
    ensures
        r == str_value(*m),
{
    match m {
        Meta::NameValue(_, Lit::Str(s)) => Ok(Some(s.clone())),
        Meta::NameValue(_, Lit::Expr) => Err(AttrError::ExpectedLiteral),
        Meta::NameValue(_, _) => Ok(None),
        _ => Err(AttrError::MissingValue(key_of(m).clone())),
    }
}

/// A string value that must be a Rust path.
pub open spec fn path_value(m: Meta) -> Result<Option<String>, AttrError> {
    match str_value(m) {
        Ok(Some(s)) => if path_syntax_error(s@) is Some {
            Err(AttrError::InvalidPath(s))
        } else {
            Ok(Some(s))
        },
        r => r,
    }
}

/// A string value that must be a Rust type.
pub open spec fn type_value(m: Meta) -> Result<Option<String>, AttrError> {
    match str_value(m) {
        Ok(Some(s)) => if type_syntax_error(s@) is Some {
            Err(AttrError::InvalidType(s))
        } else {
            Ok(Some(s))
        },
        r => r,
    }
}

/// A string value that must be a list of where-clause predicates.
pub open spec fn bound_value(m: Meta) -> Result<Option<String>, AttrError> {
    match str_value(m) {
        Ok(Some(s)) => if bound_syntax_error(s@) is Some {
            Err(AttrError::InvalidBound(s))
        } else {
            Ok(Some(s))
        },
        r => r,
    }
}

/// The value of `key = "path"`, checked to be a Rust path.
pub fn path_value_exec(m: &Meta) -> (r: Result<Option<String>, AttrError>)
    ensures
        r == path_value(*m),
{
    match str_value_exec(m)? {
        Some(s) => if check_path(s.as_str()).is_some() {
            Err(AttrError::InvalidPath(s))
        } else {
            Ok(Some(s))
        },
        None => Ok(None),
    }
}

/// The value of `key = "Type"`, checked to be a Rust type.
pub fn type_value_exec(m: &Meta) -> (r: Result<Option<String>, AttrError>)
    ensures
        r == type_value(*m),
{
    match str_value_exec(m)? {
        Some(s) => if check_type(s.as_str()).is_some() {
            Err(AttrError::InvalidType(s))
        } else {
            Ok(Some(s))
        },
        None => Ok(None),
    }
}

/// The value of `key = "T: Trait"`, checked to be where-clause predicates.
pub fn bound_value_exec(m: &Meta) -> (r: Result<Option<String>, AttrError>)
    ensures
        r == bound_value(*m),
{
    match str_value_exec(m)? {
        Some(s) => if check_bound(s.as_str()).is_some() {
            Err(AttrError::InvalidBound(s))
        } else {
            Ok(Some(s))
        },
        None => Ok(None),
    }
}

/// Checks that a flag is written alone.
pub fn flag_exec(m: &Meta) -> (r: Result<(), AttrError>)
    ensures
        r == flag(*m),
{
    match m {
        Meta::Path(_) => Ok(()),
        _ => Err(AttrError::UnexpectedValue(key_of(m).clone())),
    }
}

/// Checks that a skipped value is not a parenthesized list.
pub fn skipped_exec(m: &Meta) -> (r: Result<(), AttrError>)
    ensures
        r == skipped(*m),
{
    match m {
        Meta::List(k, _) => Err(AttrError::UnexpectedValue(k.clone())),
        _ => Ok(()),
    }
}

} // verus!
