use vstd::prelude::*;

verus! {

/// A name: the target of a `let`, or a variable reference.
#[derive(PartialEq, Clone, Debug)]
pub struct Ident(pub String);

/// A literal value; only strings exist, taken verbatim between the quotes.
#[derive(PartialEq, Clone, Debug)]
pub enum Literal {
    String(String),
}

/// An expression. `Index` is reserved: no token of the grammar builds it yet.
#[derive(PartialEq, Debug)]
pub enum Expr {
    Ident(Ident),
    Index(Box<Expr>, Box<Expr>),
    Literal(Literal),
    Call { func: Box<Expr>, args: Vec<Expr> },
}

/// A statement. `Blank` and `Return` are reserved: the parser never builds them.
#[derive(PartialEq, Debug)]
pub enum Stmt {
    Blank,
    Let(Ident, Expr),
    Return(Expr),
    Expr(Expr),
}

pub type BlockStmt = Vec<Stmt>;

/// A program: its statements in source order.
pub type Program = BlockStmt;

/// The mathematical value of an expression: names and strings as characters.
pub enum SpecExpr {
    Ident(Seq<char>),
    Index(Box<SpecExpr>, Box<SpecExpr>),
    Literal(Seq<char>),
    Call(Box<SpecExpr>, Seq<SpecExpr>),
}

/// The mathematical value of a statement.
pub enum SpecStmt {
    Blank,
    Let(Seq<char>, SpecExpr),
    Return(SpecExpr),
    Expr(SpecExpr),
}

/// The value of an expression.
pub open spec fn expr_view(e: Expr) -> SpecExpr
    decreases e, 0int,
{
    match e {
        Expr::Ident(id) => SpecExpr::Ident(id.0@),
        Expr::Index(a, b) => SpecExpr::Index(Box::new(expr_view(*a)), Box::new(expr_view(*b))),
        Expr::Literal(Literal::String(v)) => SpecExpr::Literal(v@),
        Expr::Call { func, args } => SpecExpr::Call(
            Box::new(expr_view(*func)),
            exprs_view(args@, args@.len() as int),
        ),
    }
}

/// The values of the first `n` expressions of `s`.
pub open spec fn exprs_view(s: Seq<Expr>, n: int) -> Seq<SpecExpr>
    decreases s, n,
{
    if 0 < n <= s.len() {
        exprs_view(s, n - 1).push(expr_view(s[n - 1]))
    } else {
        Seq::empty()
    }
}

/// The value of a statement.
pub open spec fn stmt_view(s: Stmt) -> SpecStmt {
    match s {
        Stmt::Blank => SpecStmt::Blank,
        Stmt::Let(id, e) => SpecStmt::Let(id.0@, expr_view(e)),
        Stmt::Return(e) => SpecStmt::Return(expr_view(e)),
        Stmt::Expr(e) => SpecStmt::Expr(expr_view(e)),
    }
}

/// The values of a sequence of statements, in order.
pub open spec fn program_view(p: Seq<Stmt>) -> Seq<SpecStmt> {
    p.map_values(|s: Stmt| stmt_view(s))
}

/// Binding strength of a postfix operator; `Lowest` is below `Call`.
#[derive(PartialEq, Eq, Structural, PartialOrd, Debug, Clone, Copy)]
pub enum Precedence {
    Lowest,
    Call,
}

impl Precedence {
    /// The position of a level in the order of binding strength.
    pub open spec fn rank(self) -> int {
        match self {
            Precedence::Lowest => 0,
            Precedence::Call => 1,
        }
    }
}

} // verus!
