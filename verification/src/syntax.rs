//! The syntax tree of one source file, as the parser front end hands it over.
//!
//! The tree keeps what declaration extraction and the expression walk read:
//! the kind and name of each top-level item, its canonical text, its span,
//! and the shape of the expressions below it.
use vstd::prelude::*;

verus! {

/// The place of a node in its file: the line and column where it starts and
/// where it ends, as the parser counts them.
#[derive(Clone, Copy, Debug, PartialEq, Eq)]
pub struct Span {
    pub start_line: usize,
    pub start_col: usize,
    pub end_line: usize,
    pub end_col: usize,
}

/// The kinds of literal tokens.
#[derive(Clone, Copy, Debug, PartialEq, Eq)]
pub enum LitKind {
    Str,
    ByteStr,
    CStr,
    Byte,
    Char,
    Int,
    Float,
    Bool,
    Verbatim,
}

/// A node of an expression tree.
///
/// Only the shapes that the walk tells apart have a variant of their own.
/// Every other node is `Other` and holds the nearest expressions below it,
/// in source order.
#[derive(Debug)]
pub enum Expr {
    /// A path such as `a::b::c`, by its segments.
    Path { segments: Vec<String> },
    /// A call `func(args)`.
    Call { func: Box<Expr>, args: Vec<Expr> },
    /// A method call `receiver.method(args)`.
    MethodCall { receiver: Box<Expr>, method: String, args: Vec<Expr> },
    /// A field access `base.member`; a tuple index is written in decimal.
    Field { base: Box<Expr>, member: String },
    /// A macro invocation, by the segments of the macro's path. What stands
    /// between its delimiters is not part of the tree.
    Macro { path: Vec<String> },
    /// A literal, by its kind and its canonical text.
    Lit { kind: LitKind, value: String },
    /// A struct literal, by the segments of its path and the expressions in it.
    Struct { path: Vec<String>, fields: Vec<Expr> },
    /// An array literal.
    Array { elems: Vec<Expr> },
    /// A tuple literal.
    Tuple { elems: Vec<Expr> },
    /// Any other node.
    Other { children: Vec<Expr> },
}

/// The kinds of named top-level items that are extracted.
#[derive(Clone, Copy, Debug, PartialEq, Eq)]
pub enum DeclKind {
    Function,
    Struct,
    Enum,
    TypeAlias,
    Trait,
}

/// The categories under which declarations are kept and compared.
#[derive(Clone, Copy, Debug, PartialEq, Eq)]
pub enum Category {
    Function,
    /// Structs, enums and type aliases.
    Type,
    /// Traits.
    Interface,
    /// Functions of implementation blocks.
    Method,
}

/// The category of a top-level item of the given kind.
pub open spec fn category_of(kind: DeclKind) -> Category {
    match kind {
        DeclKind::Function => Category::Function,
        DeclKind::Struct => Category::Type,
        DeclKind::Enum => Category::Type,
        DeclKind::TypeAlias => Category::Type,
        DeclKind::Trait => Category::Interface,
    }
}

/// One named item: a function, a type, a trait, or a function of an
/// implementation block made free-standing.
#[derive(Debug)]
pub struct Declaration {
    pub kind: DeclKind,
    /// The item's own identifier.
    pub name: String,
    /// The canonical text of the item. Two declarations are the same exactly
    /// when their texts are.
    pub code: String,
    /// The tree below the item.
    pub body: Expr,
    pub span: Span,
}

/// The type that an implementation block is for.
#[derive(Debug)]
pub enum SelfType {
    /// A path type, by the identifiers of its segments.
    Path { segments: Vec<String> },
    /// Any other type: a reference, a tuple, a slice and so on.
    Other,
}

/// A member of an implementation block.
#[derive(Debug)]
pub enum ImplMember {
    /// A function, rebuilt as a free-standing item.
    Function(Declaration),
    /// A constant, a type or a macro.
    Other,
}

/// A top-level item of a file.
#[derive(Debug)]
pub enum SourceItem {
    /// A function, struct, enum, type alias or trait.
    Named(Declaration),
    /// An implementation block.
    Impl { self_type: SelfType, members: Vec<ImplMember> },
    /// A module declaration.
    Module { name: String },
    /// Anything else.
    Other,
}

/// A parsed file: its top-level items in source order.
#[derive(Debug)]
pub struct SourceFile {
    pub items: Vec<SourceItem>,
}

/// What reading and parsing one file at one revision came to.
#[derive(Debug)]
pub enum ParseOutcome {
    /// The file does not exist at this revision.
    Missing { reason: String },
    /// The file exists and could not be read.
    Unreadable { reason: String },
    /// The file was read and is not valid source text.
    Malformed { reason: String },
    /// The file was read and parsed.
    Parsed { content: String, file: SourceFile },
}

} // verus!
