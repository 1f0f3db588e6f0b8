//! The syntax tree that the resolver consumes, as the upstream parser hands
//! it over: packages of namespaces, whose items are callable declarations,
//! type declarations and open directives. Every name-bearing node carries a
//! stable identifier that keys the resolution map.

use vstd::prelude::*;

verus! {

/// The identifier of a syntax node within its owning tree.
pub type NodeId = u32;

/// The node id the parser leaves on fresh nodes, for a later numbering pass
/// to replace.
pub const PLACEHOLDER_ID: NodeId = 4294967295;

/// A source region, as byte offsets into the compiled file.
#[derive(Clone, Copy, Debug, PartialEq, Eq, Structural)]
pub struct Span {
    pub lo: u32,
    pub hi: u32,
}

/// An identifier occurrence with its node id and source span.
#[derive(Clone, Debug, PartialEq, Eq)]
pub struct Ident {
    pub id: NodeId,
    pub span: Span,
    pub name: String,
}

/// A path occurrence: an optional namespace qualifier and a simple trailing
/// name, spanning the whole occurrence.
#[derive(Clone, Debug)]
pub struct Path {
    pub id: NodeId,
    pub span: Span,
    pub namespace: Option<Ident>,
    pub name: Ident,
}

/// A type expression; only paths within it are resolved.
#[derive(Debug)]
pub struct Ty {
    pub id: NodeId,
    pub span: Span,
    pub kind: TyKind,
}

#[derive(Debug)]
pub enum TyKind {
    /// A named type, resolved in type position.
    Path(Path),
    /// A tuple of types.
    Tuple(Vec<Ty>),
    /// A type the resolver has nothing to do for.
    Hole,
}

/// A binding pattern. Only `Bind` leaves introduce names; the other shapes
/// recurse structurally or bind nothing.
#[derive(Debug)]
pub struct Pat {
    pub id: NodeId,
    pub span: Span,
    pub kind: PatKind,
}

#[derive(Debug)]
pub enum PatKind {
    Bind(Ident, Option<Ty>),
    Discard(Option<Ty>),
    Elided,
    Paren(Box<Pat>),
    Tuple(Vec<Pat>),
}

/// A sequence of statements with its own lexical scope.
#[derive(Debug)]
pub struct Block {
    pub id: NodeId,
    pub span: Span,
    pub stmts: Vec<Stmt>,
}

#[derive(Debug)]
pub struct Stmt {
    pub id: NodeId,
    pub span: Span,
    pub kind: StmtKind,
}

#[derive(Debug)]
pub enum StmtKind {
    /// A `let`-style binding: the pattern's names cover the rest of the block.
    Local(Pat, Expr),
    /// A qubit allocation: the bound names cover the rest of the block and
    /// the optional attached block, but not the initializer.
    Qubit(Pat, QubitInit, Option<Block>),
    Empty,
    Expr(Expr),
    Semi(Expr),
}

/// A qubit-allocation initializer; expressions within it are resolved in the
/// enclosing scope, before the allocation's names are bound.
#[derive(Debug)]
pub struct QubitInit {
    pub id: NodeId,
    pub span: Span,
    pub kind: QubitInitKind,
}

#[derive(Debug)]
pub enum QubitInitKind {
    Single,
    Paren(Box<QubitInit>),
    Tuple(Vec<QubitInit>),
    Array(Box<Expr>),
}

#[derive(Debug)]
pub struct Expr {
    pub id: NodeId,
    pub span: Span,
    pub kind: ExprKind,
}

#[derive(Debug)]
pub enum ExprKind {
    /// A term occurrence of a name.
    Path(Path),
    /// `for` loop: the pattern covers the body only, not the iterated
    /// expression.
    For(Pat, Box<Expr>, Block),
    /// `repeat`/`until`/`fixup`: one scope shared by the repeat body, the
    /// condition and the optional fixup body.
    Repeat(Block, Box<Expr>, Option<Block>),
    /// A lambda: the input pattern covers the body expression.
    Lambda(Pat, Box<Expr>),
    Block(Block),
    Call(Box<Expr>, Box<Expr>),
    Tuple(Vec<Expr>),
    If(Box<Expr>, Block, Option<Box<Expr>>),
    Lit,
}

/// The body of one specialization of a callable: provided externally, or a
/// block with its own input pattern (possibly elided).
#[derive(Debug)]
pub struct SpecDecl {
    pub id: NodeId,
    pub span: Span,
    pub body: SpecBody,
}

#[derive(Debug)]
pub enum SpecBody {
    Extern,
    Impl(Pat, Block),
}

/// A callable declaration: a name, an input pattern covering the whole
/// declaration, and its specializations.
#[derive(Debug)]
pub struct CallableDecl {
    pub id: NodeId,
    pub span: Span,
    pub name: Ident,
    pub input: Pat,
    pub specs: Vec<SpecDecl>,
}

#[derive(Clone, Copy, Debug, PartialEq, Eq, Structural)]
pub enum VisibilityKind {
    Public,
    Internal,
}

#[derive(Debug)]
pub struct Item {
    pub id: NodeId,
    pub span: Span,
    pub visibility: Option<VisibilityKind>,
    pub kind: ItemKind,
}

#[derive(Debug)]
pub enum ItemKind {
    Callable(CallableDecl),
    /// A type declaration: its name lands in both the type and the term
    /// table of its namespace.
    Ty(Ident, Ty),
    /// An open directive with an optional alias.
    Open(Ident, Option<Ident>),
    /// A malformed item; contributes nothing.
    Broken,
}

#[derive(Debug)]
pub struct Namespace {
    pub id: NodeId,
    pub span: Span,
    pub name: Ident,
    pub items: Vec<Item>,
}

/// One independently compiled unit of namespaces.
#[derive(Debug)]
pub struct Package {
    pub id: NodeId,
    pub namespaces: Vec<Namespace>,
}

} // verus!
