use vstd::prelude::*;
use crate::dependency::ErrorSpan;

verus! {

/// A syntax tree, reduced to what dependency extraction reads. Identifiers,
/// string literals, member accesses, calls and module declarations keep their
/// shape; every other node is `Other`, holding its children in source order.
#[derive(Debug)]
pub enum Node {
    ModuleDecl(ModuleDecl),
    Call(CallExpr),
    /// An identifier reference, by its text.
    Ident(String),
    /// A string literal, by its value.
    Str(String),
    /// `obj.prop` or `obj[prop]`.
    Member { obj: Box<Node>, prop: MemberProp },
    /// Any other node, with its children in source order.
    Other(Vec<Node>),
}

/// The property part of a member access.
#[derive(Debug)]
pub enum MemberProp {
    /// `.name` (also `.#name`, written with its `#`).
    Ident(String),
    /// `[expr]`.
    Computed(Box<Node>),
}

/// A module-level import or export declaration.
#[derive(Debug)]
pub enum ModuleDecl {
    /// `import ... from "src"` or `import "src"`.
    Import { src: String, span: ErrorSpan },
    /// `export { ... }`, with a source when it reads `from "src"`.
    ExportNamed { specifiers: Vec<ExportSpecifier>, src: Option<String>, span: ErrorSpan },
    /// `export * from "src"`.
    ExportAll { src: String, span: ErrorSpan },
    /// Any other module declaration, with its children in source order.
    Other(Vec<Node>),
}

/// The form of one specifier of a named export.
#[derive(Clone, Copy, Debug, PartialEq, Eq, Structural)]
pub enum ExportSpecifier {
    /// `export { a }`, `export { a as b }`.
    Named,
    /// `export * as ns from "x"`.
    Namespace,
    /// `export v from "x"`.
    Default,
}

/// What a call calls.
#[derive(Debug)]
pub enum Callee {
    /// The `import(...)` keyword form.
    Import,
    /// `super(...)`.
    Super,
    Expr(Box<Node>),
}

/// One argument of a call, with whether it is spread (`...e`).
#[derive(Debug)]
pub struct ExprOrSpread {
    pub spread: bool,
    pub expr: Node,
}

/// A call expression and the span of the whole call.
#[derive(Debug)]
pub struct CallExpr {
    pub callee: Callee,
    pub args: Vec<ExprOrSpread>,
    pub span: ErrorSpan,
}

} // verus!
