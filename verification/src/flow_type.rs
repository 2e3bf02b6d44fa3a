//! Flow built-in type names.
//!
//! Every primitive and special type in Flow's type system that the renderer
//! emits is listed here.

use vstd::prelude::*;

verus! {

/// `string` — text values.
pub const STRING: &'static str = "string";

/// `number` — numeric values (integer and floating-point).
pub const NUMBER: &'static str = "number";

/// `boolean` — true/false.
pub const BOOLEAN: &'static str = "boolean";

/// `void` — absence of a value.
pub const VOID: &'static str = "void";

/// `null` — explicit null.
pub const NULL: &'static str = "null";

/// `mixed` — the top type (any value, unknown shape).
pub const MIXED: &'static str = "mixed";

/// `any` — opt-out of type checking.
pub const ANY: &'static str = "any";

/// `empty` — the bottom type (no value inhabits this type).
pub const EMPTY: &'static str = "empty";

/// `bigint` — arbitrary-precision integers.
pub const BIGINT: &'static str = "bigint";

/// `symbol` — unique symbols.
pub const SYMBOL: &'static str = "symbol";

/// `$ReadOnlyArray` — immutable array generic.
pub const READ_ONLY_ARRAY: &'static str = "$ReadOnlyArray";

} // verus!
