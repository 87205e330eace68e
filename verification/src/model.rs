//! The classifier's view of a parsed module: top-level statements, exported
//! variable declarations, and their declarators, with every field the
//! classification pass reads held as a plain value.

use vstd::prelude::*;

verus! {

/// The binding kind of a variable declaration.
#[derive(Clone, Copy, Debug, PartialEq, Eq, Structural)]
pub enum DeclKind {
    Var,
    Let,
    Const,
}

/// An initializer expression, which the classifier reads only through its
/// source extent.
#[derive(Clone, Copy, Debug, PartialEq, Eq, Structural)]
pub enum InitExpr {
    /// An expression of the input, identified by the source offset
    /// immediately after it.
    Opaque { end: u32 },
    /// A synthesized numeric literal; it carries no source position of its
    /// own.
    Num { value: u32 },
}

/// The source offset immediately after an initializer expression.  A
/// synthesized literal has no source position, so its end offset is zero.
pub open spec fn expr_end(e: InitExpr) -> u32 {
    match e {
        InitExpr::Opaque { end } => end,
        InitExpr::Num { value: _ } => 0u32,
    }
}

impl InitExpr {
    /// The source offset immediately after this expression.
    pub fn end_offset(&self) -> (r: u32)
        ensures
            r == expr_end(*self),
    {
        match self {
            InitExpr::Opaque { end } => *end,
            InitExpr::Num { value: _ } => 0u32,
        }
    }
}

/// The binding pattern of one declarator.
#[derive(Clone, Debug, PartialEq, Eq)]
pub enum Binding {
    /// A simple identifier.
    Ident(String),
    /// A destructuring pattern, which the classifier passes through
    /// unclassified.
    Destructured,
}

/// One `name (= initializer)?` entry of a variable declaration.  A missing
/// binding violates the convention and aborts classification.
#[derive(Clone, Debug, PartialEq, Eq)]
pub struct Declarator {
    pub name: Option<Binding>,
    pub init: Option<InitExpr>,
}

/// An exported variable declaration: its kind, its ambient (`declare`) flag,
/// and its declarators in source order.
#[derive(Clone, Debug, PartialEq, Eq)]
pub struct ExportVars {
    pub kind: DeclKind,
    pub declare: bool,
    pub decls: Vec<Declarator>,
}

/// One top-level statement, as far as the classifier distinguishes them.
#[derive(Clone, Debug, PartialEq, Eq)]
pub enum Stmt {
    /// An export of a variable declaration: the only statements that are
    /// rewritten.
    ExportVars(ExportVars),
    /// An export whose payload is not a variable declaration: malformed
    /// input.
    ExportOther,
    /// Any other top-level statement, identified by an opaque tag chosen by
    /// the caller and passed through unchanged.
    Other(u32),
}

/// A parsed module: its top-level statements in source order.
#[derive(Clone, Debug, PartialEq, Eq)]
pub struct Module {
    pub body: Vec<Stmt>,
}

/// The one non-fatal diagnostic: declarator `decl` of statement `stmt` binds
/// a destructuring pattern and was passed through unclassified.
#[derive(Clone, Copy, Debug, PartialEq, Eq, Structural)]
pub struct UnsupportedBindingPattern {
    pub stmt: usize,
    pub decl: usize,
}

} // verus!
