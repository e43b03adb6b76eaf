//! The structural description of a record type that the generators read:
//! fields, type expressions, annotation tokens and generics, held as plain
//! values.
use vstd::prelude::*;

verus! {

/// One token of an annotation's argument list.
#[derive(Clone, Debug)]
pub enum Token {
    /// An identifier or keyword (`optional`, `true`).
    Ident(String),
    /// A punctuation character (`=`, `,`), and whether it is joined to the
    /// next token (the first `:` of `::`).
    Punct { ch: char, joint: bool },
    /// A literal: its source text, and its value where it is a string literal.
    Literal { text: String, str_value: Option<String> },
    /// A delimited group (`{ String::new() }`), as its source text.
    Group(String),
}

/// What an annotation holds after its path.
#[derive(Clone, Debug)]
pub enum Meta {
    /// `#[name]`
    Path,
    /// `#[name(tokens)]`
    List(Vec<Token>),
    /// `#[name = value]`
    NameValue(Token),
}

/// An annotation on a field or on the record type.
#[derive(Clone, Debug)]
pub struct Attribute {
    /// The identifiers of the annotation's path (`["builder"]`).
    pub path: Vec<String>,
    pub meta: Meta,
}

/// One argument of a type expression's last path segment.
#[derive(Clone, Debug)]
pub struct TypeArg {
    /// Whether the argument is a type (and not a lifetime, a constant or a binding).
    pub is_type: bool,
    pub text: String,
}

/// A declared type.
#[derive(Clone, Debug)]
pub struct TypeExpr {
    /// The type's source text.
    pub text: String,
    /// For a path type, the identifier of its last segment.
    pub last_ident: Option<String>,
    /// For a path type whose last segment has angle-bracketed arguments, those
    /// arguments in order.
    pub args: Option<Vec<TypeArg>>,
}

/// The kind of a generic parameter.
#[derive(Clone, Debug)]
pub enum ParamKind {
    Lifetime,
    Type,
    /// A constant parameter, with the source text of its type.
    Const(String),
}

/// A generic parameter of the record type.
#[derive(Clone, Debug)]
pub struct GenericParam {
    pub kind: ParamKind,
    /// The bare name (`'a`, `T`, `N`).
    pub name: String,
    /// The bounds' source text (`Clone + Debug`), empty where there are none.
    pub bounds: String,
    /// The default's source text, where the parameter has one.
    pub default: Option<String>,
}

/// The generic parameters and the where-clause of the record type.
#[derive(Clone, Debug)]
pub struct Generics {
    pub params: Vec<GenericParam>,
    /// The where-clause's predicates (`T: Clone`), in order.
    pub where_preds: Vec<String>,
}

/// A named field of the record type.
#[derive(Clone, Debug)]
pub struct Field {
    pub ident: String,
    pub ty: TypeExpr,
    pub attrs: Vec<Attribute>,
}

/// The body of the declaration.
#[derive(Clone, Debug)]
pub enum Data {
    /// A struct with named fields, in declaration order.
    Named(Vec<Field>),
    /// A tuple struct or a unit struct.
    Unnamed,
    Enum,
    Union,
}

/// A type declaration to generate code for.
#[derive(Clone, Debug)]
pub struct DeriveInput {
    /// The visibility's source text (`pub`, `pub(crate)`), empty for private.
    pub vis: String,
    pub ident: String,
    pub generics: Generics,
    pub attrs: Vec<Attribute>,
    pub data: Data,
}

} // verus!
