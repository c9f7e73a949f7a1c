use vstd::prelude::*;
use crate::item::{AnnotationSet, Cfg, Documentation};

verus! {

/// A constant expression as it is written in the source.
#[derive(Debug)]
pub enum ExprSyntax {
    /// A literal that has a value in the target language, with that value
    /// as text.
    Literal(String),
    /// A path.
    Path(PathSyntax),
    /// An expression in a group that the source does not show.
    Group(Box<ExprSyntax>),
    /// Any other expression, as it was written.
    Other(String),
}

/// The arguments written after a segment of a path.
#[derive(Debug)]
pub enum ArgumentsSyntax {
    /// No arguments.
    Plain,
    /// Arguments in angle brackets.
    AngleBracketed(Vec<ArgumentSyntax>),
    /// Arguments in parentheses, as for the traits of functions.
    Parenthesized,
}

/// One argument in angle brackets.
#[derive(Debug)]
pub enum ArgumentSyntax {
    Type(TypeSyntax),
    Lifetime,
    Const(ExprSyntax),
    /// Any other argument, such as a binding of an associated type, as it
    /// was written.
    Other(String),
}

/// One segment of a path: an identifier and its arguments.
#[derive(Debug)]
pub struct SegmentSyntax {
    pub ident: String,
    pub arguments: ArgumentsSyntax,
}

/// A path as it is written in the source. A path has at least one segment.
#[derive(Debug)]
pub struct PathSyntax {
    /// The segments before the last one.
    pub leading: Vec<SegmentSyntax>,
    pub last: SegmentSyntax,
}

/// An argument of a function pointer type.
#[derive(Debug)]
pub struct BareFnArgSyntax {
    pub name: Option<String>,
    pub ty: TypeSyntax,
}

/// What a function returns, as it is written in the source.
#[derive(Debug)]
pub enum ReturnSyntax {
    /// Nothing is written.
    Default,
    /// The type of functions that never return.
    Never,
    Type(Box<TypeSyntax>),
}

/// A type as it is written in the source.
#[derive(Debug)]
pub enum TypeSyntax {
    Reference { elem: Box<TypeSyntax>, mutable: bool },
    Pointer { elem: Box<TypeSyntax>, mutable: bool },
    Path(PathSyntax),
    Array { elem: Box<TypeSyntax>, len: ExprSyntax },
    BareFn { inputs: Vec<BareFnArgSyntax>, variadic: bool, output: ReturnSyntax },
    Tuple(Vec<TypeSyntax>),
    /// The three dots that stand for a variable number of arguments.
    Variadic,
    /// Any other type, as it was written.
    Other(String),
}

/// A generic parameter as it is written in the source.
#[derive(Debug)]
#[allow(inconsistent_fields)]
pub enum GenericParamSyntax {
    /// A type parameter; `written` is its default as it was written.
    Type { ident: String, default: Option<TypeSyntax>, written: String },
    Lifetime,
    /// A const parameter; `written` is its type as it was written.
    Const { ident: String, ty: TypeSyntax, default: Option<ExprSyntax>, written: String },
}

/// The generic parameters of an item as they are written in the source.
#[derive(Debug)]
pub struct GenericsSyntax {
    pub params: Vec<GenericParamSyntax>,
}

/// The pattern of an argument of a function.
#[derive(Debug)]
pub enum PatternSyntax {
    /// An underscore.
    Wild,
    Ident(String),
    /// Any other pattern, as it was written.
    Other(String),
}

/// An argument of a function as it is written in the source.
#[derive(Debug)]
pub enum FnArgSyntax {
    Typed { pat: PatternSyntax, ty: TypeSyntax },
    /// `self`, by value or by reference.
    Receiver { reference: bool, mutable: bool },
}

/// The signature of a function as it is written in the source.
#[derive(Debug)]
pub struct SignatureSyntax {
    pub generics: GenericsSyntax,
    pub inputs: Vec<FnArgSyntax>,
    pub output: ReturnSyntax,
}

/// What the attributes of an item say, as the reader of attributes hands it
/// over.
#[derive(Debug)]
pub struct Attributes {
    pub cfg: Option<Cfg>,
    /// The annotations, or why they could not be read.
    pub annotations: Result<AnnotationSet, String>,
    pub documentation: Documentation,
}

} // verus!
