//! The schema description that generation consumes.

use vstd::prelude::*;

verus! {

/// A named enumeration member with its explicit discriminant.
#[derive(Debug)]
pub struct EnumMember {
    pub name: String,
    pub value: i64,
}

/// A generic parameter of a described type.
#[derive(Debug)]
pub struct GenericParameter {
    pub name: String,
}

/// The referenced type of a `TypeRef`.
#[derive(Debug)]
pub enum TypeKind {
    /// A generic parameter, referenced by name.
    Generic { name: String },
    /// Another generated type, by its full dotted name.
    Internal { name: String, arguments: Vec<TypeRef> },
    /// A built-in type, by its wire code.
    Known { code: i32, arguments: Vec<TypeRef> },
}

/// A possibly nullable reference to a type.
#[derive(Debug)]
pub struct TypeRef {
    pub nullable: bool,
    pub kind: TypeKind,
}

/// A scalar literal. A floating-point literal is carried as its decimal text.
#[derive(Debug)]
pub enum ValueRef {
    Null,
    Number(i64),
    FloatingPoint(String),
    String(String),
    Bool(bool),
}

#[derive(Debug)]
pub struct Constant {
    pub name: String,
    pub value: ValueRef,
}

#[derive(Debug)]
pub struct Property {
    pub name: String,
    pub type_ref: TypeRef,
}

/// The shape shared by data objects, queries and commands.
#[derive(Debug)]
pub struct TypeDescriptor {
    pub constants: Vec<Constant>,
    pub properties: Vec<Property>,
    pub extends: Vec<TypeRef>,
    pub generic_parameters: Vec<GenericParameter>,
}

/// A tree of command error codes: groups prefix the names of what they hold.
#[derive(Debug)]
pub enum ErrorCode {
    Single { name: String, code: i64 },
    Group { name: String, inner_codes: Vec<ErrorCode> },
}

/// What a statement describes.
#[derive(Debug)]
pub enum Content {
    Enum { members: Vec<EnumMember> },
    Dto { descriptor: TypeDescriptor },
    Query { descriptor: TypeDescriptor, return_type: TypeRef },
    Command { descriptor: TypeDescriptor, error_codes: Vec<ErrorCode> },
    /// A kind of statement that generation does not emit.
    Other,
}

/// One named schema entry; the name is dotted, its last segment names the type.
#[derive(Debug)]
pub struct Statement {
    pub name: String,
    pub content: Content,
}

/// A whole schema: a project name and its statements in order.
#[derive(Debug)]
pub struct Export {
    pub project_name: String,
    pub statements: Vec<Statement>,
}

} // verus!
