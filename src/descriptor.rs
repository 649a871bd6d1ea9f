//! The input model: a type definition with its fields and their attributes.
use vstd::prelude::*;

verus! {

/// One token of an annotation's argument list.
#[derive(Debug)]
pub enum Token {
    /// An identifier, such as `slider` or `bool`.
    Ident(String),
    /// A delimited group; holds the source text of what stands inside the
    /// delimiters.
    Group(String),
    /// Any other token (punctuation or a literal), as source text.
    Other(String),
}

/// One attribute attached to a field.
#[derive(Debug)]
pub enum Attribute {
    /// `path = value`. `literal` holds the raw source text of the value when
    /// it is a string literal, quotes included (documentation lines arrive in
    /// this form, with path `doc`).
    NameValue { path: String, literal: Option<String> },
    /// `path(tokens...)`.
    List { path: String, tokens: Vec<Token> },
    /// A bare path, or anything else that carries neither documentation nor
    /// a control annotation.
    Other,
}

/// One field of a record, in declaration order.
#[derive(Debug)]
pub struct FieldDescriptor {
    /// The field's name; generated widgets are bound to it.
    pub ident: String,
    /// The attributes attached to the field, in source order.
    pub attrs: Vec<Attribute>,
}

/// The shape of an annotated type.
#[derive(Debug)]
pub enum TypeBody {
    /// A record with named fields.
    Record(Vec<FieldDescriptor>),
    /// An enumerated type.
    Enumeration,
    /// A record with positional fields.
    TupleLike,
    /// A record without fields.
    UnitLike,
    /// A union.
    Union,
}

/// The annotated type handed to the transform.
#[derive(Debug)]
pub struct TypeDescriptor {
    pub name: String,
    pub body: TypeBody,
}

} // verus!
