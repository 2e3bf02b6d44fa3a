//! Typed representation of the Flow parser AST, and the parser's error
//! reporting.

use vstd::prelude::*;
use crate::strings::{join, views, join_strings, to_owned_string};

verus! {

/// Root AST node returned by the Flow parser.
pub struct Program {
    pub body: Vec<Statement>,
    pub errors: Vec<ParseError>,
}

/// Top-level statement in a Flow program. Payloads that nothing here reads
/// are kept as their JSON text.
pub enum Statement {
    ExportNamedDeclaration { declaration: Option<Declaration> },
    DeclareExportDeclaration { declaration: Option<Declaration> },
    ExportDefaultDeclaration { declaration: Option<String> },
    EnumDeclaration { id: Identifier, body: EnumBody },
    ImportDeclaration { source: Option<String>, specifiers: Vec<String>, import_kind: Option<String> },
    DeclareModuleExports { type_annotation: Box<TypeAnnotation> },
    /// Catch-all for statement types that are not inspected.
    Other,
}

/// A type-level declaration inside an export statement.
pub enum Declaration {
    TypeAlias { id: Identifier, right: TypeAnnotation },
    OpaqueType { id: Identifier, supertype: Option<TypeAnnotation> },
    DeclareOpaqueType { id: Identifier, supertype: Option<TypeAnnotation> },
    EnumDeclaration { id: Identifier, body: EnumBody },
    InterfaceDeclaration { id: Identifier, extends: Vec<InterfaceExtends>, body: TypeAnnotation },
    DeclareTypeAlias { id: Identifier, right: TypeAnnotation },
    DeclareClass { id: Identifier },
    DeclareFunction { id: Identifier },
    DeclareVariable { id: Identifier },
    /// A module declaration; its id and body are kept as JSON text.
    DeclareModule { id: String, body: String },
    Other,
}

/// A Flow type annotation node. A number literal's value is held by the
/// bits of its IEEE 754 double.
pub enum TypeAnnotation {
    StringTypeAnnotation,
    NumberTypeAnnotation,
    BooleanTypeAnnotation,
    VoidTypeAnnotation,
    MixedTypeAnnotation,
    AnyTypeAnnotation,
    EmptyTypeAnnotation,
    NullLiteralTypeAnnotation,
    BigIntTypeAnnotation,
    SymbolTypeAnnotation,
    StringLiteralTypeAnnotation { value: String },
    NumberLiteralTypeAnnotation { value_bits: u64 },
    BooleanLiteralTypeAnnotation { value: bool },
    /// The literal's value, as JSON text.
    BigIntLiteralTypeAnnotation { value: Option<String> },
    NullableTypeAnnotation { type_annotation: Box<TypeAnnotation> },
    ObjectTypeAnnotation {
        properties: Vec<ObjectMember>,
        indexers: Vec<ObjectTypeIndexer>,
        call_properties: Vec<ObjectTypeCallProperty>,
        internal_slots: Vec<ObjectTypeInternalSlot>,
        exact: bool,
    },
    UnionTypeAnnotation { types: Vec<TypeAnnotation> },
    IntersectionTypeAnnotation { types: Vec<TypeAnnotation> },
    GenericTypeAnnotation { id: TypeIdentifier, type_parameters: Option<TypeParameterInstantiation> },
    TupleTypeAnnotation { element_types: Vec<TypeAnnotation> },
    ArrayTypeAnnotation { element_type: Box<TypeAnnotation> },
    TypeofTypeAnnotation { argument: Box<TypeAnnotation> },
    FunctionTypeAnnotation {
        params: Vec<FunctionTypeParam>,
        return_type: Box<TypeAnnotation>,
        rest: Option<Box<FunctionTypeParam>>,
        type_parameters: Option<TypeParameterDeclaration>,
        this_constraint: Option<Box<FunctionTypeParam>>,
    },
    InterfaceTypeAnnotation { extends: Vec<InterfaceExtends>, body: Box<TypeAnnotation> },
    ExistsTypeAnnotation,
    IndexedAccessType { object_type: Box<TypeAnnotation>, index_type: Box<TypeAnnotation> },
    OptionalIndexedAccessType { object_type: Box<TypeAnnotation>, index_type: Box<TypeAnnotation>, optional: bool },
    KeyofTypeAnnotation { argument: Box<TypeAnnotation> },
    ConditionalTypeAnnotation {
        check_type: Box<TypeAnnotation>,
        extends_type: Box<TypeAnnotation>,
        true_type: Box<TypeAnnotation>,
        false_type: Box<TypeAnnotation>,
    },
    /// The type parameter, as JSON text.
    InferTypeAnnotation { type_parameter: Option<String> },
    TypeOperator { operator: Option<String>, type_annotation: Box<TypeAnnotation> },
    /// The parameters and rest parameter, as JSON text.
    ComponentTypeAnnotation {
        params: Vec<String>,
        rest: Option<String>,
        type_parameters: Option<TypeParameterDeclaration>,
        renders_type: Option<Box<TypeAnnotation>>,
    },
    Other,
}

/// The short type tag of a type annotation node.
pub open spec fn annotation_tag(t: TypeAnnotation) -> Seq<char> {
    match t {
        TypeAnnotation::StringTypeAnnotation => "StringTypeAnnotation"@,
        TypeAnnotation::NumberTypeAnnotation => "NumberTypeAnnotation"@,
        TypeAnnotation::BooleanTypeAnnotation => "BooleanTypeAnnotation"@,
        TypeAnnotation::VoidTypeAnnotation => "VoidTypeAnnotation"@,
        TypeAnnotation::MixedTypeAnnotation => "MixedTypeAnnotation"@,
        TypeAnnotation::AnyTypeAnnotation => "AnyTypeAnnotation"@,
        TypeAnnotation::EmptyTypeAnnotation => "EmptyTypeAnnotation"@,
        TypeAnnotation::NullLiteralTypeAnnotation => "NullLiteralTypeAnnotation"@,
        TypeAnnotation::BigIntTypeAnnotation => "BigIntTypeAnnotation"@,
        TypeAnnotation::SymbolTypeAnnotation => "SymbolTypeAnnotation"@,
        TypeAnnotation::StringLiteralTypeAnnotation { .. } => "StringLiteralTypeAnnotation"@,
        TypeAnnotation::NumberLiteralTypeAnnotation { .. } => "NumberLiteralTypeAnnotation"@,
        TypeAnnotation::BooleanLiteralTypeAnnotation { .. } => "BooleanLiteralTypeAnnotation"@,
        TypeAnnotation::BigIntLiteralTypeAnnotation { .. } => "BigIntLiteralTypeAnnotation"@,
        TypeAnnotation::NullableTypeAnnotation { .. } => "NullableTypeAnnotation"@,
        TypeAnnotation::ObjectTypeAnnotation { .. } => "ObjectTypeAnnotation"@,
        TypeAnnotation::UnionTypeAnnotation { .. } => "UnionTypeAnnotation"@,
        TypeAnnotation::IntersectionTypeAnnotation { .. } => "IntersectionTypeAnnotation"@,
        TypeAnnotation::GenericTypeAnnotation { .. } => "GenericTypeAnnotation"@,
        TypeAnnotation::TupleTypeAnnotation { .. } => "TupleTypeAnnotation"@,
        TypeAnnotation::ArrayTypeAnnotation { .. } => "ArrayTypeAnnotation"@,
        TypeAnnotation::TypeofTypeAnnotation { .. } => "TypeofTypeAnnotation"@,
        TypeAnnotation::FunctionTypeAnnotation { .. } => "FunctionTypeAnnotation"@,
        TypeAnnotation::InterfaceTypeAnnotation { .. } => "InterfaceTypeAnnotation"@,
        TypeAnnotation::ExistsTypeAnnotation => "ExistsTypeAnnotation"@,
        TypeAnnotation::IndexedAccessType { .. } => "IndexedAccessType"@,
        TypeAnnotation::OptionalIndexedAccessType { .. } => "OptionalIndexedAccessType"@,
        TypeAnnotation::KeyofTypeAnnotation { .. } => "KeyofTypeAnnotation"@,
        TypeAnnotation::ConditionalTypeAnnotation { .. } => "ConditionalTypeAnnotation"@,
        TypeAnnotation::InferTypeAnnotation { .. } => "InferTypeAnnotation"@,
        TypeAnnotation::TypeOperator { .. } => "TypeOperator"@,
        TypeAnnotation::ComponentTypeAnnotation { .. } => "ComponentTypeAnnotation"@,
        TypeAnnotation::Other => "Other"@,
    }
}

impl TypeAnnotation {
    /// Short type tag for assertions (e.g. `"StringTypeAnnotation"`).
    pub fn type_tag(&self) -> (r: &'static str)
        ensures
            r@ == annotation_tag(*self),
    {
        match self {
            TypeAnnotation::StringTypeAnnotation => "StringTypeAnnotation",
            TypeAnnotation::NumberTypeAnnotation => "NumberTypeAnnotation",
            TypeAnnotation::BooleanTypeAnnotation => "BooleanTypeAnnotation",
            TypeAnnotation::VoidTypeAnnotation => "VoidTypeAnnotation",
            TypeAnnotation::MixedTypeAnnotation => "MixedTypeAnnotation",
            TypeAnnotation::AnyTypeAnnotation => "AnyTypeAnnotation",
            TypeAnnotation::EmptyTypeAnnotation => "EmptyTypeAnnotation",
            TypeAnnotation::NullLiteralTypeAnnotation => "NullLiteralTypeAnnotation",
            TypeAnnotation::BigIntTypeAnnotation => "BigIntTypeAnnotation",
            TypeAnnotation::SymbolTypeAnnotation => "SymbolTypeAnnotation",
            TypeAnnotation::StringLiteralTypeAnnotation { .. } => "StringLiteralTypeAnnotation",
            TypeAnnotation::NumberLiteralTypeAnnotation { .. } => "NumberLiteralTypeAnnotation",
            TypeAnnotation::BooleanLiteralTypeAnnotation { .. } => "BooleanLiteralTypeAnnotation",
            TypeAnnotation::BigIntLiteralTypeAnnotation { .. } => "BigIntLiteralTypeAnnotation",
            TypeAnnotation::NullableTypeAnnotation { .. } => "NullableTypeAnnotation",
            TypeAnnotation::ObjectTypeAnnotation { .. } => "ObjectTypeAnnotation",
            TypeAnnotation::UnionTypeAnnotation { .. } => "UnionTypeAnnotation",
            TypeAnnotation::IntersectionTypeAnnotation { .. } => "IntersectionTypeAnnotation",
            TypeAnnotation::GenericTypeAnnotation { .. } => "GenericTypeAnnotation",
            TypeAnnotation::TupleTypeAnnotation { .. } => "TupleTypeAnnotation",
            TypeAnnotation::ArrayTypeAnnotation { .. } => "ArrayTypeAnnotation",
            TypeAnnotation::TypeofTypeAnnotation { .. } => "TypeofTypeAnnotation",
            TypeAnnotation::FunctionTypeAnnotation { .. } => "FunctionTypeAnnotation",
            TypeAnnotation::InterfaceTypeAnnotation { .. } => "InterfaceTypeAnnotation",
            TypeAnnotation::ExistsTypeAnnotation => "ExistsTypeAnnotation",
            TypeAnnotation::IndexedAccessType { .. } => "IndexedAccessType",
            TypeAnnotation::OptionalIndexedAccessType { .. } => "OptionalIndexedAccessType",
            TypeAnnotation::KeyofTypeAnnotation { .. } => "KeyofTypeAnnotation",
            TypeAnnotation::ConditionalTypeAnnotation { .. } => "ConditionalTypeAnnotation",
            TypeAnnotation::InferTypeAnnotation { .. } => "InferTypeAnnotation",
            TypeAnnotation::TypeOperator { .. } => "TypeOperator",
            TypeAnnotation::ComponentTypeAnnotation { .. } => "ComponentTypeAnnotation",
            TypeAnnotation::Other => "Other",
        }
    }
}

/// A member of an object type annotation.
pub enum ObjectMember {
    ObjectTypeProperty { key: PropertyKey, value: TypeAnnotation, variance: Option<Variance>, optional: bool },
    ObjectTypeSpreadProperty { argument: TypeAnnotation },
    Other,
}

/// An indexer on an object type (`[key: K]: V`).
pub struct ObjectTypeIndexer {
    pub key: TypeAnnotation,
    pub value: TypeAnnotation,
}

/// A call property on an object type (`{ (x: number): string }`).
pub struct ObjectTypeCallProperty {
    pub value: TypeAnnotation,
    pub is_static: bool,
}

/// An internal slot on an object type (`{ [[call]](x: number): string }`).
pub struct ObjectTypeInternalSlot {
    pub id: Identifier,
    pub value: TypeAnnotation,
    pub optional: bool,
    pub is_static: bool,
    pub method: bool,
}

/// A parameter in a function type annotation.
pub struct FunctionTypeParam {
    pub name: Option<Identifier>,
    pub type_annotation: TypeAnnotation,
    pub optional: bool,
}

/// An `extends` clause in an interface declaration or type.
pub struct InterfaceExtends {
    pub id: Identifier,
    pub type_parameters: Option<TypeParameterInstantiation>,
}

/// Body of a Flow enum declaration.
pub enum EnumBody {
    EnumStringBody { members: Vec<EnumMember>, explicit_type: bool, has_unknown_members: bool },
    EnumNumberBody { members: Vec<EnumMember>, explicit_type: bool, has_unknown_members: bool },
    EnumBooleanBody { members: Vec<EnumMember>, explicit_type: bool, has_unknown_members: bool },
    EnumSymbolBody { members: Vec<EnumMember>, has_unknown_members: bool },
    EnumBigIntBody { members: Vec<EnumMember>, explicit_type: bool, has_unknown_members: bool },
    Other,
}

/// The short type tag of an enum body.
pub open spec fn enum_body_tag(b: EnumBody) -> Seq<char> {
    match b {
        EnumBody::EnumStringBody { .. } => "EnumStringBody"@,
        EnumBody::EnumNumberBody { .. } => "EnumNumberBody"@,
        EnumBody::EnumBooleanBody { .. } => "EnumBooleanBody"@,
        EnumBody::EnumSymbolBody { .. } => "EnumSymbolBody"@,
        EnumBody::EnumBigIntBody { .. } => "EnumBigIntBody"@,
        EnumBody::Other => "Other"@,
    }
}

/// The members of an enum body (none for an unrecognized body).
pub open spec fn enum_members(b: EnumBody) -> Seq<EnumMember> {
    match b {
        EnumBody::EnumStringBody { members, .. } => members@,
        EnumBody::EnumNumberBody { members, .. } => members@,
        EnumBody::EnumBooleanBody { members, .. } => members@,
        EnumBody::EnumSymbolBody { members, .. } => members@,
        EnumBody::EnumBigIntBody { members, .. } => members@,
        EnumBody::Other => Seq::empty(),
    }
}

impl EnumBody {
    /// Short type tag for assertions.
    pub fn type_tag(&self) -> (r: &'static str)
        ensures
            r@ == enum_body_tag(*self),
    {
        match self {
            EnumBody::EnumStringBody { .. } => "EnumStringBody",
            EnumBody::EnumNumberBody { .. } => "EnumNumberBody",
            EnumBody::EnumBooleanBody { .. } => "EnumBooleanBody",
            EnumBody::EnumSymbolBody { .. } => "EnumSymbolBody",
            EnumBody::EnumBigIntBody { .. } => "EnumBigIntBody",
            EnumBody::Other => "Other",
        }
    }

    /// Members of the enum body.
    pub fn members(&self) -> (r: &[EnumMember])
        ensures
            r@ == enum_members(*self),
    {
        match self {
            EnumBody::EnumStringBody { members, .. } => members.as_slice(),
            EnumBody::EnumNumberBody { members, .. } => members.as_slice(),
            EnumBody::EnumBooleanBody { members, .. } => members.as_slice(),
            EnumBody::EnumSymbolBody { members, .. } => members.as_slice(),
            EnumBody::EnumBigIntBody { members, .. } => members.as_slice(),
            EnumBody::Other => &[],
        }
    }
}

/// A member of a Flow enum body.
pub enum EnumMember {
    /// Defaulted member (symbol enum, or auto-initialized).
    EnumDefaultedMember { id: Identifier },
    /// String-initialized member.
    EnumStringMember { id: Identifier, init: EnumStringInit },
    /// Number-initialized member.
    EnumNumberMember { id: Identifier, init: EnumNumberInit },
    /// Boolean-initialized member.
    EnumBooleanMember { id: Identifier, init: EnumBooleanInit },
    Other,
}

/// The name of an enum member, if known.
pub open spec fn member_name(m: EnumMember) -> Option<Seq<char>> {
    match m {
        EnumMember::EnumDefaultedMember { id } => Some(id.name@),
        EnumMember::EnumStringMember { id, .. } => Some(id.name@),
        EnumMember::EnumNumberMember { id, .. } => Some(id.name@),
        EnumMember::EnumBooleanMember { id, .. } => Some(id.name@),
        EnumMember::Other => None,
    }
}

impl EnumMember {
    /// Name of the enum member, if known.
    pub fn name(&self) -> (r: Option<&str>)
        ensures
            match r {
                Some(s) => member_name(*self) == Some(s@),
                None => member_name(*self) is None,
            },
    {
        match self {
            EnumMember::EnumDefaultedMember { id } => Some(id.name.as_str()),
            EnumMember::EnumStringMember { id, .. } => Some(id.name.as_str()),
            EnumMember::EnumNumberMember { id, .. } => Some(id.name.as_str()),
            EnumMember::EnumBooleanMember { id, .. } => Some(id.name.as_str()),
            EnumMember::Other => None,
        }
    }
}

/// The initializer of a number enum member: the bits of its IEEE 754 double.
#[derive(Clone, Copy, Debug, PartialEq, Eq, Structural)]
pub struct EnumNumberInit {
    pub value_bits: u64,
}

/// Property key — either an identifier or a literal (for quoted keys).
pub enum PropertyKey {
    Identifier { name: String },
    /// Quoted key: the literal's text when it is a string.
    Literal { value: Option<String> },
    Other,
}

/// The text of a property key, regardless of its representation.
pub open spec fn key_text(k: PropertyKey) -> Option<Seq<char>> {
    match k {
        PropertyKey::Identifier { name } => Some(name@),
        PropertyKey::Literal { value } => match value {
            Some(v) => Some(v@),
            None => None,
        },
        PropertyKey::Other => None,
    }
}

impl PropertyKey {
    /// The key's text regardless of representation.
    pub fn name(&self) -> (r: Option<&str>)
        ensures
            match r {
                Some(s) => key_text(*self) == Some(s@),
                None => key_text(*self) is None,
            },
    {
        match self {
            PropertyKey::Identifier { name } => Some(name.as_str()),
            PropertyKey::Literal { value } => match value {
                Some(v) => Some(v.as_str()),
                None => None,
            },
            PropertyKey::Other => None,
        }
    }

    /// Whether this key is a quoted literal (non-identifier).
    pub fn is_quoted(&self) -> (r: bool)
        ensures
            r == (*self is Literal),
    {
        match self {
            PropertyKey::Literal { .. } => true,
            _ => false,
        }
    }
}

/// Type parameter instantiation (`<T, U>`).
pub struct TypeParameterInstantiation {
    pub params: Vec<TypeAnnotation>,
}

/// Type parameter declaration (`<T: Bound, U = Default>`).
pub struct TypeParameterDeclaration {
    pub params: Vec<TypeParameter>,
}

/// A single type parameter in a declaration.
pub struct TypeParameter {
    pub name: String,
    pub bound: Option<TypeAnnotationWrapper>,
    pub default: Option<Box<TypeAnnotation>>,
    pub variance: Option<Variance>,
}

/// Wrapper node the Flow parser emits around type annotations in certain
/// positions (type parameter bounds, function parameter types).
pub struct TypeAnnotationWrapper {
    pub type_annotation: TypeAnnotation,
}

/// A parse error reported by the Flow parser.
pub struct ParseError {
    pub message: String,
    pub loc: Option<SourceLocation>,
}

/// Source location attached to a parse error.
pub struct SourceLocation {
    pub start: Position,
    pub end: Position,
}

/// Line and column (both 1-based for line, 0-based for column, matching Flow convention).
#[derive(Clone, Copy, Debug, PartialEq, Eq, Structural)]
pub struct Position {
    pub line: u32,
    pub column: u32,
}

/// The initializer of a string enum member.
pub struct EnumStringInit {
    pub value: String,
}

/// The initializer of a boolean enum member.
#[derive(Clone, Copy, Debug, PartialEq, Eq, Structural)]
pub struct EnumBooleanInit {
    pub value: bool,
}

/// An identifier node.
pub struct Identifier {
    pub name: String,
}

/// A type identifier — either a simple `Identifier` or a qualified `A.B` reference.
pub enum TypeIdentifier {
    Identifier { name: String },
    QualifiedTypeIdentifier { qualification: Box<TypeIdentifier>, id: Identifier },
    Other,
}

/// The leaf name of a type identifier.
pub open spec fn leaf_name(t: TypeIdentifier) -> Option<Seq<char>> {
    match t {
        TypeIdentifier::Identifier { name } => Some(name@),
        TypeIdentifier::QualifiedTypeIdentifier { id, .. } => Some(id.name@),
        TypeIdentifier::Other => None,
    }
}

/// The full dotted name of a type identifier (`?` for an unrecognized node).
pub open spec fn dotted_name(t: TypeIdentifier) -> Seq<char>
    decreases t,
{
    match t {
        TypeIdentifier::Identifier { name } => name@,
        TypeIdentifier::QualifiedTypeIdentifier { qualification, id } => dotted_name(*qualification)
            + seq!['.'] + id.name@,
        TypeIdentifier::Other => seq!['?'],
    }
}

impl TypeIdentifier {
    /// The leaf name of this identifier (e.g. `"Node"` for `React.Node`).
    pub fn name(&self) -> (r: Option<&str>)
        ensures
            match r {
                Some(s) => leaf_name(*self) == Some(s@),
                None => leaf_name(*self) is None,
            },
    {
        match self {
            TypeIdentifier::Identifier { name } => Some(name.as_str()),
            TypeIdentifier::QualifiedTypeIdentifier { id, .. } => Some(id.name.as_str()),
            TypeIdentifier::Other => None,
        }
    }

    /// Full dotted name (e.g. `"React.Node"`).
    pub fn full_name(&self) -> (r: String)
        ensures
            r@ == dotted_name(*self),
        decreases self,
    {
        match self {
            TypeIdentifier::Identifier { name } => name.clone(),
            TypeIdentifier::QualifiedTypeIdentifier { qualification, id } => {
                let mut s = qualification.full_name();
                crate::strings::push_char(&mut s, '.');
                s.append(id.name.as_str());
                s
            },
            TypeIdentifier::Other => {
                let mut s = String::new();
                crate::strings::push_char(&mut s, '?');
                proof {
                    assert(s@ =~= seq!['?']);
                }
                s
            },
        }
    }
}

/// Variance annotation (`+` = plus, `-` = minus).
#[derive(Clone, Copy, Debug, PartialEq, Eq, Structural)]
pub struct Variance {
    pub kind: VarianceKind,
}

/// Variance direction.
#[derive(Clone, Copy, Debug, PartialEq, Eq, Structural)]
pub enum VarianceKind {
    Plus,
    Minus,
}

/// Flow parser error.
pub enum Error {
    /// JavaScript runtime error.
    Runtime(String),
    /// Flow parser reported syntax errors.
    Parse(Vec<String>),
    /// Failed to deserialize the AST JSON.
    Deserialize(String),
}

/// The text of a parser error.
pub open spec fn error_text(e: Error) -> Seq<char> {
    match e {
        Error::Runtime(msg) => "runtime error: "@ + msg@,
        Error::Parse(errors) => "parse errors: "@ + join(views(errors@), "; "@),
        Error::Deserialize(msg) => "AST deserialization error: "@ + msg@,
    }
}

impl Error {
    /// The error's message, as it is displayed.
    pub fn message(&self) -> (r: String)
        ensures
            r@ == error_text(*self),
    {
        match self {
            Error::Runtime(msg) => {
                let mut s = to_owned_string("runtime error: ");
                s.append(msg.as_str());
                s
            },
            Error::Parse(errors) => {
                let mut s = to_owned_string("parse errors: ");
                let j = join_strings(errors, "; ");
                s.append(j.as_str());
                s
            },
            Error::Deserialize(msg) => {
                let mut s = to_owned_string("AST deserialization error: ");
                s.append(msg.as_str());
                s
            },
        }
    }
}

/// The messages of the parse errors.
pub open spec fn error_messages(errors: Seq<ParseError>) -> Seq<Seq<char>> {
    errors.map_values(|e: ParseError| e.message@)
}

/// The outcome of a parse: accepted when the parser reported no error,
/// otherwise `Error::Parse` with every reported message, in order.
pub fn check_parse_errors(errors: &Vec<ParseError>) -> (r: Result<(), Error>)
    ensures
        errors@.len() == 0 <==> r is Ok,
        r matches Err(Error::Parse(ms)) ==> views(ms@) == error_messages(errors@),
        r is Err ==> r->Err_0 is Parse,
{
    if errors.len() == 0 {
        return Ok(());
    }
    let mut messages: Vec<String> = Vec::new();
    let n = errors.len();
    let mut i: usize = 0;
    while i < n
        invariant
            n == errors@.len(),
            i <= n,
            views(messages@) =~= error_messages(errors@).take(i as int),
        decreases n - i,
    {
        let m = errors[i].message.clone();
        proof {
            assert(views(messages@.push(m)) =~= views(messages@).push(m@));
        }
        messages.push(m);
        i = i + 1;
    }
    proof {
        assert(error_messages(errors@).take(n as int) =~= error_messages(errors@));
    }
    Err(Error::Parse(messages))
}

} // verus!
