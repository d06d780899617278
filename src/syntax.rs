use vstd::prelude::*;

verus! {

/// Binary operators of the language.
#[derive(Clone, Copy, Debug, PartialEq, Eq, Structural)]
pub enum BinaryOp {
    Add,
    Sub,
    Mul,
    Div,
    Greater,
    GreaterEqual,
    Less,
    LessEqual,
    Equal,
    NotEqual,
}

/// Unary operators of the language.
#[derive(Clone, Copy, Debug, PartialEq, Eq, Structural)]
pub enum UnaryOp {
    Not,
    Negate,
}

/// An expression node of a parsed program.
#[derive(Debug)]
pub enum Expr {
    /// A number literal, as written in the source.
    Number(String),
    /// A string literal, as written in the source: surrounding quotes included.
    StringLit(String),
    True,
    False,
    Nil,
    Identifier(String),
    Group(Box<Expr>),
    Assign(String, Box<Expr>),
    Or(Box<Expr>, Box<Expr>),
    And(Box<Expr>, Box<Expr>),
    Binary(BinaryOp, Box<Expr>, Box<Expr>),
    Unary(UnaryOp, Box<Expr>),
    /// A call of a declared function; functions take no arguments.
    Call(String),
    /// A placeholder the parser inserted while recovering from a syntax error.
    ErrorNode(String),
}

/// A statement node of a parsed program.
#[derive(Debug)]
pub enum Stmt {
    Print(Expr),
    VarDecl(String, Expr),
    Expression(Expr),
    Block(Vec<Stmt>),
    If(Expr, Box<Stmt>, Option<Box<Stmt>>),
    While(Expr, Box<Stmt>),
    /// `for (initializer; condition; increment) body`, each of the first three optional.
    For(Option<Box<Stmt>>, Option<Expr>, Option<Expr>, Box<Stmt>),
    Break,
    FunctionDecl(String, Vec<Stmt>),
    ErrorNode(String),
}

/// Number of nodes in an expression.
pub open spec fn expr_size(e: Expr) -> nat
    decreases e,
{
    match e {
        Expr::Group(x) => 1 + expr_size(*x),
        Expr::Assign(_, x) => 1 + expr_size(*x),
        Expr::Or(a, b) => 1 + expr_size(*a) + expr_size(*b),
        Expr::And(a, b) => 1 + expr_size(*a) + expr_size(*b),
        Expr::Binary(_, a, b) => 1 + expr_size(*a) + expr_size(*b),
        Expr::Unary(_, x) => 1 + expr_size(*x),
        _ => 1,
    }
}

pub open spec fn opt_expr_size(e: Option<Expr>) -> nat {
    match e {
        Some(x) => expr_size(x),
        None => 0,
    }
}

/// Number of nodes in a statement.
pub open spec fn stmt_size(s: Stmt) -> nat
    decreases s,
{
    match s {
        Stmt::Print(e) => 1 + expr_size(e),
        Stmt::VarDecl(_, e) => 1 + expr_size(e),
        Stmt::Expression(e) => 1 + expr_size(e),
        Stmt::Block(v) => 1 + stmts_size(v@),
        Stmt::If(c, t, el) => 1 + expr_size(c) + stmt_size(*t) + match el {
            Some(x) => stmt_size(*x),
            None => 0,
        },
        Stmt::While(c, b) => 1 + expr_size(c) + stmt_size(*b),
        Stmt::For(i, c, n, b) => 1 + match i {
            Some(x) => stmt_size(*x),
            None => 0,
        } + opt_expr_size(c) + opt_expr_size(n) + stmt_size(*b),
        Stmt::FunctionDecl(_, v) => 1 + stmts_size(v@),
        _ => 1,
    }
}

/// Number of nodes in a sequence of statements.
pub open spec fn stmts_size(ss: Seq<Stmt>) -> nat
    decreases ss,
{
    if ss.len() == 0 {
        0
    } else {
        1 + stmt_size(ss[0]) + stmts_size(ss.subrange(1, ss.len() as int))
    }
}

/// Each statement of a sequence is smaller than the sequence.
pub proof fn lemma_stmts_size_index(ss: Seq<Stmt>, i: int)
    requires
        0 <= i < ss.len(),
    ensures
        stmt_size(ss[i]) < stmts_size(ss),
        stmts_size(ss.subrange(i + 1, ss.len() as int)) < stmts_size(ss.subrange(i, ss.len() as int)),
    decreases i,
{
    let rest = ss.subrange(1, ss.len() as int);
    assert(ss.subrange(0, ss.len() as int) =~= ss);
    let tail = ss.subrange(i, ss.len() as int);
    assert(tail[0] == ss[i]);
    assert(tail.subrange(1, tail.len() as int) =~= ss.subrange(i + 1, ss.len() as int));
    if i > 0 {
        lemma_stmts_size_index(rest, i - 1);
        assert(rest[i - 1] == ss[i]);
        assert(rest.subrange(i - 1, rest.len() as int) =~= tail);
    }
}

} // verus!
