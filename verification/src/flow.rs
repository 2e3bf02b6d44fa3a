//! The `Flow` trait: a Rust type together with its Flow model.

use vstd::prelude::*;
use crate::config::Config;
use crate::decl::{decl_concrete_of, decl_of, docs_of, has_text, ident_of, is_enum_of, output_path_of, text_of};
use crate::deps::{dep_views, dependencies_of};
use crate::export::{Dependency, ExportError, file_content};
use crate::model::{FlowType, Mode, sv};

verus! {

/// The core trait. Implement it on your types to generate Flow declarations:
/// `flow_type` gives the model of the type, and every other method is
/// computed from that model.
pub trait Flow {
    /// The model of this type.
    spec fn model() -> FlowType;

    /// The model of this type, as a value.
    fn flow_type() -> (r: FlowType)
        ensures
            r == Self::model(),
    ;

    /// Flow type name, including generic parameters.
    fn name(cfg: &Config) -> (r: String)
        requires
            has_text(Self::model(), Mode::Name, cfg@),
        ensures
            r@ == text_of(Self::model(), Mode::Name, cfg@),
    {
        Self::flow_type().name(cfg)
    }

    /// Inline Flow type definition (the right-hand side of `type X = ...`).
    fn inline(cfg: &Config) -> (r: String)
        requires
            has_text(Self::model(), Mode::Inline, cfg@),
        ensures
            r@ == text_of(Self::model(), Mode::Inline, cfg@),
    {
        Self::flow_type().inline(cfg)
    }

    /// Flatten a type declaration (for `#[flow(flatten)]`).
    fn inline_flattened(cfg: &Config) -> (r: String)
        requires
            has_text(Self::model(), Mode::Flat, cfg@),
        ensures
            r@ == text_of(Self::model(), Mode::Flat, cfg@),
    {
        Self::flow_type().inline_flattened(cfg)
    }

    /// Identifier of this type, excluding generic parameters.
    fn ident(cfg: &Config) -> (r: String)
        requires
            ident_of(Self::model(), cfg@) is Some,
        ensures
            r@ == ident_of(Self::model(), cfg@).unwrap(),
    {
        Self::flow_type().ident(cfg)
    }

    /// Declaration of this type, e.g. `type User = {| user_id: number |};`.
    fn decl(cfg: &Config) -> (r: String)
        requires
            decl_of(Self::model(), cfg@) is Some,
        ensures
            r@ == decl_of(Self::model(), cfg@).unwrap(),
    {
        Self::flow_type().decl(cfg)
    }

    /// Declaration of this type with its generic arguments filled in.
    fn decl_concrete(cfg: &Config) -> (r: String)
        requires
            decl_concrete_of(Self::model(), cfg@) is Some,
        ensures
            r@ == decl_concrete_of(Self::model(), cfg@).unwrap(),
    {
        Self::flow_type().decl_concrete(cfg)
    }

    /// The doc comment of this type, its lines joined.
    fn docs() -> (r: Option<String>)
        ensures
            sv(r) == docs_of(Self::model()),
    {
        Self::flow_type().docs()
    }

    /// Output file path relative to the export directory, without extension.
    fn output_path() -> (r: Option<String>)
        ensures
            sv(r) == output_path_of(Self::model()),
    {
        Self::flow_type().output_path()
    }

    /// Whether this is an enum type.
    fn is_enum() -> (r: bool)
        ensures
            r == is_enum_of(Self::model()),
    {
        Self::flow_type().is_enum()
    }

    /// The dependencies of this type.
    fn dependencies(cfg: &Config) -> (r: Vec<Dependency>)
        ensures
            dep_views(r@) == dependencies_of(Self::model(), cfg@),
    {
        Self::flow_type().dependencies(cfg)
    }

    /// Render this type as a string, returning the full file content.
    fn export_to_string(cfg: &Config) -> (r: Result<String, ExportError>)
        ensures
            match r {
                Ok(s) => file_content(Self::model(), cfg@) == Some(s@),
                Err(e) => file_content(Self::model(), cfg@) is None && e is CannotBeExported,
            },
    {
        crate::export::export_to_string(&Self::flow_type(), cfg)
    }
}

/// Dummy type used as a placeholder for generic parameters during codegen.
pub struct Dummy;

impl Flow for Dummy {
    open spec fn model() -> FlowType {
        FlowType::Any
    }

    fn flow_type() -> (r: FlowType) {
        FlowType::Any
    }
}

impl Flow for bool {
    open spec fn model() -> FlowType {
        FlowType::Boolean
    }

    fn flow_type() -> (r: FlowType) {
        FlowType::Boolean
    }
}

impl Flow for i8 {
    open spec fn model() -> FlowType {
        FlowType::Number
    }

    fn flow_type() -> (r: FlowType) {
        FlowType::Number
    }
}

impl Flow for i16 {
    open spec fn model() -> FlowType {
        FlowType::Number
    }

    fn flow_type() -> (r: FlowType) {
        FlowType::Number
    }
}

impl Flow for i32 {
    open spec fn model() -> FlowType {
        FlowType::Number
    }

    fn flow_type() -> (r: FlowType) {
        FlowType::Number
    }
}

impl Flow for u8 {
    open spec fn model() -> FlowType {
        FlowType::Number
    }

    fn flow_type() -> (r: FlowType) {
        FlowType::Number
    }
}

impl Flow for u16 {
    open spec fn model() -> FlowType {
        FlowType::Number
    }

    fn flow_type() -> (r: FlowType) {
        FlowType::Number
    }
}

impl Flow for u32 {
    open spec fn model() -> FlowType {
        FlowType::Number
    }

    fn flow_type() -> (r: FlowType) {
        FlowType::Number
    }
}

impl Flow for usize {
    open spec fn model() -> FlowType {
        FlowType::Number
    }

    fn flow_type() -> (r: FlowType) {
        FlowType::Number
    }
}

impl Flow for isize {
    open spec fn model() -> FlowType {
        FlowType::Number
    }

    fn flow_type() -> (r: FlowType) {
        FlowType::Number
    }
}

impl Flow for i64 {
    open spec fn model() -> FlowType {
        FlowType::LargeInt
    }

    fn flow_type() -> (r: FlowType) {
        FlowType::LargeInt
    }
}

impl Flow for u64 {
    open spec fn model() -> FlowType {
        FlowType::LargeInt
    }

    fn flow_type() -> (r: FlowType) {
        FlowType::LargeInt
    }
}

impl Flow for i128 {
    open spec fn model() -> FlowType {
        FlowType::LargeInt
    }

    fn flow_type() -> (r: FlowType) {
        FlowType::LargeInt
    }
}

impl Flow for u128 {
    open spec fn model() -> FlowType {
        FlowType::LargeInt
    }

    fn flow_type() -> (r: FlowType) {
        FlowType::LargeInt
    }
}

impl Flow for char {
    open spec fn model() -> FlowType {
        FlowType::Text
    }

    fn flow_type() -> (r: FlowType) {
        FlowType::Text
    }
}

impl Flow for String {
    open spec fn model() -> FlowType {
        FlowType::Text
    }

    fn flow_type() -> (r: FlowType) {
        FlowType::Text
    }
}

impl Flow for str {
    open spec fn model() -> FlowType {
        FlowType::Text
    }

    fn flow_type() -> (r: FlowType) {
        FlowType::Text
    }
}

impl Flow for () {
    open spec fn model() -> FlowType {
        FlowType::Null
    }

    fn flow_type() -> (r: FlowType) {
        FlowType::Null
    }
}

impl<T: Flow> Flow for Option<T> {
    open spec fn model() -> FlowType {
        FlowType::Nullable(Box::new(T::model()))
    }

    fn flow_type() -> (r: FlowType) {
        FlowType::Nullable(Box::new(T::flow_type()))
    }
}

impl<T: Flow> Flow for Vec<T> {
    open spec fn model() -> FlowType {
        FlowType::ReadOnlyArray(Box::new(T::model()))
    }

    fn flow_type() -> (r: FlowType) {
        FlowType::ReadOnlyArray(Box::new(T::flow_type()))
    }
}

impl<T: Flow> Flow for [T] {
    open spec fn model() -> FlowType {
        FlowType::ReadOnlyArray(Box::new(T::model()))
    }

    fn flow_type() -> (r: FlowType) {
        FlowType::ReadOnlyArray(Box::new(T::flow_type()))
    }
}

impl<T: Flow> Flow for std::collections::VecDeque<T> {
    open spec fn model() -> FlowType {
        FlowType::ReadOnlyArray(Box::new(T::model()))
    }

    fn flow_type() -> (r: FlowType) {
        FlowType::ReadOnlyArray(Box::new(T::flow_type()))
    }
}

impl<T: Flow> Flow for std::collections::HashSet<T> {
    open spec fn model() -> FlowType {
        FlowType::ReadOnlyArray(Box::new(T::model()))
    }

    fn flow_type() -> (r: FlowType) {
        FlowType::ReadOnlyArray(Box::new(T::flow_type()))
    }
}

impl<T: Flow + ?Sized> Flow for Box<T> {
    open spec fn model() -> FlowType {
        FlowType::Transparent(Box::new(T::model()))
    }

    fn flow_type() -> (r: FlowType) {
        FlowType::Transparent(Box::new(T::flow_type()))
    }
}

impl<T: Flow + ?Sized> Flow for std::rc::Rc<T> {
    open spec fn model() -> FlowType {
        FlowType::Transparent(Box::new(T::model()))
    }

    fn flow_type() -> (r: FlowType) {
        FlowType::Transparent(Box::new(T::flow_type()))
    }
}

impl<T: Flow + ?Sized> Flow for std::sync::Arc<T> {
    open spec fn model() -> FlowType {
        FlowType::Transparent(Box::new(T::model()))
    }

    fn flow_type() -> (r: FlowType) {
        FlowType::Transparent(Box::new(T::flow_type()))
    }
}

impl<'a, T: Flow + ?Sized> Flow for &'a T {
    open spec fn model() -> FlowType {
        FlowType::Transparent(Box::new(T::model()))
    }

    fn flow_type() -> (r: FlowType) {
        FlowType::Transparent(Box::new(T::flow_type()))
    }
}

impl<K: Flow, V: Flow> Flow for std::collections::HashMap<K, V> {
    open spec fn model() -> FlowType {
        FlowType::Dictionary(Box::new(K::model()), Box::new(V::model()))
    }

    fn flow_type() -> (r: FlowType) {
        FlowType::Dictionary(Box::new(K::flow_type()), Box::new(V::flow_type()))
    }
}

impl<T: Flow, E: Flow> Flow for Result<T, E> {
    open spec fn model() -> FlowType {
        FlowType::ResultOf(Box::new(T::model()), Box::new(E::model()))
    }

    fn flow_type() -> (r: FlowType) {
        FlowType::ResultOf(Box::new(T::flow_type()), Box::new(E::flow_type()))
    }
}

impl<T: Flow, const N: usize> Flow for [T; N] {
    open spec fn model() -> FlowType {
        FlowType::Array(Box::new(T::model()), N)
    }

    fn flow_type() -> (r: FlowType) {
        FlowType::Array(Box::new(T::flow_type()), N)
    }
}

} // verus!
