use vstd::prelude::*;
use crate::syntax::{Expr, Stmt};
use crate::value::{int_text, int_to_text};

verus! {

/// Outcome of the scan for error placeholders: none found, or the text of the first.
#[derive(Debug, PartialEq)]
pub enum ErrVal {
    Empty,
    Error(String),
}

impl View for ErrVal {
    type V = Option<Seq<char>>;

    open spec fn view(&self) -> Option<Seq<char>> {
        match self {
            ErrVal::Empty => None,
            ErrVal::Error(s) => Some(s@),
        }
    }
}

/// The first of two outcomes that found something.
pub open spec fn first_of(a: Option<Seq<char>>, b: Option<Seq<char>>) -> Option<Seq<char>> {
    if a is Some {
        a
    } else {
        b
    }
}

/// Text of the first error placeholder of an expression, in source order.
pub open spec fn expr_error(e: Expr) -> Option<Seq<char>>
    decreases e,
{
    match e {
        Expr::ErrorNode(t) => Some(t@),
        Expr::Group(x) => expr_error(*x),
        Expr::Assign(_, x) => expr_error(*x),
        Expr::Unary(_, x) => expr_error(*x),
        Expr::Or(a, b) => first_of(expr_error(*a), expr_error(*b)),
        Expr::And(a, b) => first_of(expr_error(*a), expr_error(*b)),
        Expr::Binary(_, a, b) => first_of(expr_error(*a), expr_error(*b)),
        _ => None,
    }
}

pub open spec fn opt_expr_error(e: Option<Expr>) -> Option<Seq<char>> {
    match e {
        Some(x) => expr_error(x),
        None => None,
    }
}

/// Text of the first error placeholder of a statement, in source order.
pub open spec fn stmt_error(s: Stmt) -> Option<Seq<char>>
    decreases s,
{
    match s {
        Stmt::ErrorNode(t) => Some(t@),
        Stmt::Print(e) => expr_error(e),
        Stmt::VarDecl(_, e) => expr_error(e),
        Stmt::Expression(e) => expr_error(e),
        Stmt::Block(v) => stmts_error(v@),
        Stmt::If(c, t, el) => first_of(
            expr_error(c),
            first_of(
                stmt_error(*t),
                match el {
                    Some(x) => stmt_error(*x),
                    None => None,
                },
            ),
        ),
        Stmt::While(c, b) => first_of(expr_error(c), stmt_error(*b)),
        Stmt::For(i, c, n, b) => first_of(
            match i {
                Some(x) => stmt_error(*x),
                None => None,
            },
            first_of(opt_expr_error(c), first_of(opt_expr_error(n), stmt_error(*b))),
        ),
        Stmt::FunctionDecl(_, v) => stmts_error(v@),
        Stmt::Break => None,
    }
}

/// Text of the first error placeholder of a sequence of statements, in source order.
pub open spec fn stmts_error(ss: Seq<Stmt>) -> Option<Seq<char>>
    decreases ss,
{
    if ss.len() == 0 {
        None
    } else {
        first_of(stmt_error(ss[0]), stmts_error(ss.subrange(1, ss.len() as int)))
    }
}

/// An expression holds no error placeholder.
pub open spec fn expr_well_formed(e: Expr) -> bool
    decreases e,
{
    match e {
        Expr::ErrorNode(_) => false,
        Expr::Group(x) => expr_well_formed(*x),
        Expr::Assign(_, x) => expr_well_formed(*x),
        Expr::Unary(_, x) => expr_well_formed(*x),
        Expr::Or(a, b) => expr_well_formed(*a) && expr_well_formed(*b),
        Expr::And(a, b) => expr_well_formed(*a) && expr_well_formed(*b),
        Expr::Binary(_, a, b) => expr_well_formed(*a) && expr_well_formed(*b),
        _ => true,
    }
}

/// A statement holds no error placeholder.
pub open spec fn stmt_well_formed(s: Stmt) -> bool
    decreases s,
{
    match s {
        Stmt::ErrorNode(_) => false,
        Stmt::Print(e) => expr_well_formed(e),
        Stmt::VarDecl(_, e) => expr_well_formed(e),
        Stmt::Expression(e) => expr_well_formed(e),
        Stmt::Block(v) => stmts_well_formed(v@),
        Stmt::If(c, t, el) => expr_well_formed(c) && stmt_well_formed(*t) && (match el {
            Some(x) => stmt_well_formed(*x),
            None => true,
        }),
        Stmt::While(c, b) => expr_well_formed(c) && stmt_well_formed(*b),
        Stmt::For(i, c, n, b) => (match i {
            Some(x) => stmt_well_formed(*x),
            None => true,
        }) && (match c {
            Some(x) => expr_well_formed(x),
            None => true,
        }) && (match n {
            Some(x) => expr_well_formed(x),
            None => true,
        }) && stmt_well_formed(*b),
        Stmt::FunctionDecl(_, v) => stmts_well_formed(v@),
        Stmt::Break => true,
    }
}

/// A sequence of statements holds no error placeholder.
pub open spec fn stmts_well_formed(ss: Seq<Stmt>) -> bool
    decreases ss,
{
    if ss.len() == 0 {
        true
    } else {
        stmt_well_formed(ss[0]) && stmts_well_formed(ss.subrange(1, ss.len() as int))
    }
}

proof fn lemma_expr_scan(e: Expr)
    ensures
        expr_well_formed(e) <==> expr_error(e) is None,
    decreases e,
{
    match e {
        Expr::Group(x) => lemma_expr_scan(*x),
        Expr::Assign(_, x) => lemma_expr_scan(*x),
        Expr::Unary(_, x) => lemma_expr_scan(*x),
        Expr::Or(a, b) => {
            lemma_expr_scan(*a);
            lemma_expr_scan(*b);
        },
        Expr::And(a, b) => {
            lemma_expr_scan(*a);
            lemma_expr_scan(*b);
        },
        Expr::Binary(_, a, b) => {
            lemma_expr_scan(*a);
            lemma_expr_scan(*b);
        },
        _ => {},
    }
}

proof fn lemma_stmt_scan(s: Stmt)
    ensures
        stmt_well_formed(s) <==> stmt_error(s) is None,
    decreases s,
{
    match s {
        Stmt::Print(e) => lemma_expr_scan(e),
        Stmt::VarDecl(_, e) => lemma_expr_scan(e),
        Stmt::Expression(e) => lemma_expr_scan(e),
        Stmt::Block(v) => lemma_stmts_scan(v@),
        Stmt::If(c, t, el) => {
            lemma_expr_scan(c);
            lemma_stmt_scan(*t);
            if let Some(x) = el {
                lemma_stmt_scan(*x);
            }
        },
        Stmt::While(c, b) => {
            lemma_expr_scan(c);
            lemma_stmt_scan(*b);
        },
        Stmt::For(i, c, n, b) => {
            if let Some(x) = i {
                lemma_stmt_scan(*x);
            }
            if let Some(x) = c {
                lemma_expr_scan(x);
            }
            if let Some(x) = n {
                lemma_expr_scan(x);
            }
            lemma_stmt_scan(*b);
        },
        Stmt::FunctionDecl(_, v) => lemma_stmts_scan(v@),
        _ => {},
    }
}

proof fn lemma_stmts_scan(ss: Seq<Stmt>)
    ensures
        stmts_well_formed(ss) <==> stmts_error(ss) is None,
    decreases ss,
{
    if ss.len() > 0 {
        lemma_stmt_scan(ss[0]);
        lemma_stmts_scan(ss.subrange(1, ss.len() as int));
    }
}

/// A program without error placeholders scans clean, and one with a placeholder
/// does not: the scan lets evaluation proceed exactly on well-formed programs.
pub proof fn lemma_well_formed_scans_clean(program: Seq<Stmt>)
    ensures
        stmts_well_formed(program) <==> stmts_error(program) is None,
{
    lemma_stmts_scan(program);
}

/// Walks a parsed program and records the first error placeholder it meets.
pub struct ErrDetectVisit {
    pub val: ErrVal,
}

impl ErrDetectVisit {
    pub fn new() -> (r: Self)
        ensures
            r.val@ is None,
    {
        ErrDetectVisit { val: ErrVal::Empty }
    }

    /// Once something was found it is kept: the first error wins.
    pub fn aggregate_results(&self, aggregate: ErrVal, next: ErrVal) -> (r: ErrVal)
        ensures
            r@ == first_of(aggregate@, next@),
    {
        match aggregate {
            ErrVal::Empty => next,
            ErrVal::Error(_) => aggregate,
        }
    }

    fn scan_expr(&self, e: &Expr) -> (r: ErrVal)
        ensures
            r@ == expr_error(*e),
        decreases e,
    {
        match e {
            Expr::ErrorNode(t) => ErrVal::Error(t.clone()),
            Expr::Group(x) => self.scan_expr(x),
            Expr::Assign(_, x) => self.scan_expr(x),
            Expr::Unary(_, x) => self.scan_expr(x),
            Expr::Or(a, b) => {
                let l = self.scan_expr(a);
                let r = self.scan_expr(b);
                self.aggregate_results(l, r)
            },
            Expr::And(a, b) => {
                let l = self.scan_expr(a);
                let r = self.scan_expr(b);
                self.aggregate_results(l, r)
            },
            Expr::Binary(_, a, b) => {
                let l = self.scan_expr(a);
                let r = self.scan_expr(b);
                self.aggregate_results(l, r)
            },
            _ => ErrVal::Empty,
        }
    }

    fn scan_opt_expr(&self, e: &Option<Expr>) -> (r: ErrVal)
        ensures
            r@ == opt_expr_error(*e),
    {
        match e {
            Some(x) => self.scan_expr(x),
            None => ErrVal::Empty,
        }
    }

    fn scan_stmt(&self, s: &Stmt) -> (r: ErrVal)
        ensures
            r@ == stmt_error(*s),
        decreases s,
    {
        match s {
            Stmt::ErrorNode(t) => ErrVal::Error(t.clone()),
            Stmt::Print(e) => self.scan_expr(e),
            Stmt::VarDecl(_, e) => self.scan_expr(e),
            Stmt::Expression(e) => self.scan_expr(e),
            Stmt::Block(v) => self.scan_stmts(v),
            Stmt::If(c, t, el) => {
                let a = self.scan_expr(c);
                let b = self.scan_stmt(t);
                let d = match el {
                    Some(x) => self.scan_stmt(x),
                    None => ErrVal::Empty,
                };
                let bd = self.aggregate_results(b, d);
                self.aggregate_results(a, bd)
            },
            Stmt::While(c, b) => {
                let a = self.scan_expr(c);
                let d = self.scan_stmt(b);
                self.aggregate_results(a, d)
            },
            Stmt::For(i, c, n, b) => {
                let a = match i {
                    Some(x) => self.scan_stmt(x),
                    None => ErrVal::Empty,
                };
                let ce = self.scan_opt_expr(c);
                let ne = self.scan_opt_expr(n);
                let be = self.scan_stmt(b);
                let nb = self.aggregate_results(ne, be);
                let cnb = self.aggregate_results(ce, nb);
                self.aggregate_results(a, cnb)
            },
            Stmt::FunctionDecl(_, v) => self.scan_stmts(v),
            Stmt::Break => ErrVal::Empty,
        }
    }

    fn scan_stmts(&self, ss: &Vec<Stmt>) -> (r: ErrVal)
        ensures
            r@ == stmts_error(ss@),
        decreases ss,
    {
        let ghost n = ss@.len() as int;
        let mut acc = ErrVal::Empty;
        let mut i: usize = 0;
        assert(ss@.subrange(0, n) =~= ss@);
        while i < ss.len()
            invariant
                i <= ss.len(),
                n == ss@.len(),
                first_of(acc@, stmts_error(ss@.subrange(i as int, n))) == stmts_error(ss@),
            decreases ss.len() - i,
        {
            let ghost rest = ss@.subrange(i as int, n);
            assert(rest[0] == ss@[i as int]);
            assert(rest.subrange(1, rest.len() as int) =~= ss@.subrange(i + 1, n));
            let next = self.scan_stmt(&ss[i]);
            acc = self.aggregate_results(acc, next);
            i = i + 1;
        }
        acc
    }

    /// Scans a whole program; `val` then holds the text of the first error
    /// placeholder, unless one had been recorded before.
    pub fn visit_program(&mut self, program: &Vec<Stmt>)
        ensures
            final(self).val@ == first_of(old(self).val@, stmts_error(program@)),
    {
        let found = self.scan_stmts(program);
        let mut prev = ErrVal::Empty;
        std::mem::swap(&mut prev, &mut self.val);
        self.val = self.aggregate_results(prev, found);
    }
}

/// Receives the parser's reports of syntax errors.
pub struct MyErrorListener {}

/// The line reported for a syntax error.
pub open spec fn syntax_error_text(line: int, column: int, msg: Seq<char>) -> Seq<char> {
    "a line "@ + int_text(line) + ":"@ + int_text(column) + " "@ + msg
}

/// The line reported for a parser diagnostic over the token span `start`..`stop`.
pub open spec fn span_report_text(tag: Seq<char>, start: int, stop: int) -> Seq<char> {
    tag + " error "@ + int_text(start) + " "@ + int_text(stop)
}

fn span_report(tag: &str, start: i64, stop: i64) -> (r: String)
    ensures
        r@ == span_report_text(tag@, start as int, stop as int),
{
    let a = int_to_text(start);
    let b = int_to_text(stop);
    String::from_str(tag).concat(" error ").concat(a.as_str()).concat(" ").concat(b.as_str())
}

impl MyErrorListener {
    pub fn new() -> (r: Self) {
        MyErrorListener {  }
    }

    /// Formats a syntax error at `line`:`column` for the user.
    pub fn syntax_error(&self, line: i64, column: i64, msg: &str) -> (r: String)
        ensures
            r@ == syntax_error_text(line as int, column as int, msg@),
    {
        let l = int_to_text(line);
        let c = int_to_text(column);
        String::from_str("a line ").concat(l.as_str()).concat(":").concat(c.as_str()).concat(
            " ",
        ).concat(msg)
    }

    /// Formats a report that the input was ambiguous over a token span.
    pub fn report_ambiguity(&self, start_index: i64, stop_index: i64) -> (r: String)
        ensures
            r@ == span_report_text("b"@, start_index as int, stop_index as int),
    {
        span_report("b", start_index, stop_index)
    }

    /// Formats a report that the parser retried a token span with full context.
    pub fn report_attempting_full_context(&self, start_index: i64, stop_index: i64) -> (r:
        String)
        ensures
            r@ == span_report_text("c"@, start_index as int, stop_index as int),
    {
        span_report("c", start_index, stop_index)
    }

    /// Formats a report that a token span's parse depended on its context.
    pub fn report_context_sensitivity(&self, start_index: i64, stop_index: i64) -> (r: String)
        ensures
            r@ == span_report_text("d"@, start_index as int, stop_index as int),
    {
        span_report("d", start_index, stop_index)
    }
}

/// Scans a program for error placeholders; the result holds the text of the first.
pub fn scan(program: &Vec<Stmt>) -> (r: ErrVal)
    ensures
        r@ == stmts_error(program@),
{
    let mut visitor = ErrDetectVisit::new();
    visitor.visit_program(program);
    visitor.val
}

} // verus!
