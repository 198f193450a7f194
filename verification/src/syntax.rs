//! The part of a module's syntax tree in which import specifiers are looked for.
//!
//! A node keeps the children that the search descends into, and nothing else: the condition of an
//! `if`, the header of a loop or the target of an assignment have no place here.
use vstd::prelude::*;

verus! {

/// Whether a declaration is there at run time or is erased with the types.
#[derive(Debug, Clone, Copy, PartialEq, Eq, Structural)]
pub enum DeclarationKind {
    Value,
    Type,
}

/// A string literal, with the byte offsets at which it starts and ends in the source.
#[derive(Debug)]
pub struct Literal {
    pub value: String,
    pub start: u32,
    pub end: u32,
}

/// A declaration that can name another module.
#[derive(Debug)]
#[allow(inconsistent_fields)]
pub enum ModuleItem {
    /// `import x from "source"`
    Import { kind: DeclarationKind, source: Literal },
    /// `export { x } from "source"`, or an export that names no module.
    ExportNamed { kind: DeclarationKind, source: Option<Literal> },
    /// `export * from "source"`
    ExportAll { kind: DeclarationKind, source: Literal },
    /// Any other statement.
    Other,
}

/// An argument of a call.
#[derive(Debug)]
pub enum CallArgument {
    /// `...rest`
    Spread,
    Expression(Expr),
}

/// An entry of an object literal.
#[derive(Debug)]
pub enum Property {
    /// The value of `key: value`.
    Property(Expr),
    /// `...rest`
    Spread(Expr),
}

/// An entry of an array literal.
#[derive(Debug)]
pub enum Element {
    /// `...rest`
    Spread(Expr),
    /// The hole in `[a, , b]`.
    Elision,
    Expression(Expr),
}

#[derive(Debug)]
pub enum Expr {
    StringLiteral(Literal),
    /// The source of `import(source)`.
    Import(Box<Expr>),
    Sequence(Vec<Expr>),
    Conditional {
        test: Box<Expr>,
        consequent: Box<Expr>,
        alternate: Box<Expr>,
    },
    Call { callee: Box<Expr>, arguments: Vec<CallArgument> },
    New { callee: Box<Expr>, arguments: Vec<CallArgument> },
    /// The right-hand side of an assignment.
    Assignment(Box<Expr>),
    Await(Box<Expr>),
    Logical { left: Box<Expr>, right: Box<Expr> },
    Binary { left: Box<Expr>, right: Box<Expr> },
    Unary(Box<Expr>),
    Parenthesized(Box<Expr>),
    /// The statements of an arrow function's body; a body that is an expression is one statement.
    ArrowFunction(Vec<Stmt>),
    TemplateLiteral,
    /// The tag of a tagged template.
    TaggedTemplate(Box<Expr>),
    ComputedMember { object: Box<Expr>, expression: Box<Expr> },
    /// The object of `object.name`.
    StaticMember(Box<Expr>),
    Object(Vec<Property>),
    Array(Vec<Element>),
    Other,
}

#[derive(Debug)]
pub enum Stmt {
    /// A declaration that can name another module, or a statement of no interest.
    Item(ModuleItem),
    Expression(Expr),
    /// The initial value of each declared variable.
    VariableDeclaration(Vec<Option<Expr>>),
    Return(Option<Expr>),
    If { consequent: Box<Stmt>, alternate: Option<Box<Stmt>> },
    Block(Vec<Stmt>),
    /// The body of a function declaration, where it has one.
    Function(Option<Vec<Stmt>>),
    /// The statements of each case.
    Switch(Vec<Vec<Stmt>>),
    Try {
        block: Vec<Stmt>,
        handler: Option<Vec<Stmt>>,
        finalizer: Option<Vec<Stmt>>,
    },
    /// The body of a `for` loop.
    For(Box<Stmt>),
    /// The body of a `for`-`in` loop.
    ForIn(Box<Stmt>),
    /// The body of a `for`-`of` loop.
    ForOf(Box<Stmt>),
    /// The body of a `while` loop.
    While(Box<Stmt>),
    /// The body of a function that is the default export, where it has one.
    ExportDefaultFunction(Option<Vec<Stmt>>),
}

} // verus!
