use vstd::prelude::*;
use crate::environment::{assign, declare, find_frame, frame_get, lookup, pop_frame, push_frame, FrameModel};
use crate::syntax::{expr_size, opt_expr_size, stmt_size, stmts_size, BinaryOp, Expr, Stmt, UnaryOp};
use crate::value::{bool_val, decimal_value, is_decimal, render, values_equal, Val};

verus! {

/// The model of an evaluation in progress.
pub struct EvalState {
    /// Active scopes, outermost first.
    pub frames: Seq<FrameModel>,
    /// A `break` was executed and its loop has not yet observed it.
    pub brk: bool,
    /// Number of loop constructs whose evaluation is in progress.
    pub depth: nat,
    /// Lines printed so far.
    pub out: Seq<Seq<char>>,
}

pub open spec fn var_not_found(name: Seq<char>) -> Seq<char> {
    "Variable "@ + name + " not found"@
}

pub open spec fn fun_not_found(name: Seq<char>) -> Seq<char> {
    "Function "@ + name + " not found"@
}

pub open spec fn in_i64(x: int) -> bool {
    i64::MIN <= x <= i64::MAX
}

/// A number, or an error where it does not fit in 64 bits.
pub open spec fn checked_number(x: int) -> Val {
    if in_i64(x) {
        Val::Number(x as i64)
    } else {
        Val::Error("number out of range"@)
    }
}

pub open spec fn abs(x: int) -> int {
    if x < 0 {
        -x
    } else {
        x
    }
}

/// Division is defined where the quotient is exact.
pub open spec fn quotient(x: int, y: int) -> Val {
    if y == 0 {
        Val::Error("division by zero"@)
    } else if abs(x) % abs(y) != 0 {
        Val::Error("division is not exact"@)
    } else if (x < 0) != (y < 0) {
        checked_number(-(abs(x) / abs(y)))
    } else {
        checked_number(abs(x) / abs(y))
    }
}

/// Value of a binary operator on two operands that are not errors.
pub open spec fn binary_value(op: BinaryOp, l: Val, r: Val) -> Val {
    match op {
        BinaryOp::Equal => bool_val(values_equal(l, r)),
        BinaryOp::NotEqual => bool_val(!values_equal(l, r)),
        _ => match (l, r) {
            (Val::Number(x), Val::Number(y)) => match op {
                BinaryOp::Add => checked_number(x + y),
                BinaryOp::Sub => checked_number(x - y),
                BinaryOp::Mul => checked_number(x * y),
                BinaryOp::Div => quotient(x as int, y as int),
                BinaryOp::Greater => bool_val(x > y),
                BinaryOp::GreaterEqual => bool_val(x >= y),
                BinaryOp::Less => bool_val(x < y),
                _ => bool_val(x <= y),
            },
            _ => Val::Error("must both be numbers"@),
        },
    }
}

/// Value of a unary operator on an operand that is not an error.
pub open spec fn unary_value(op: UnaryOp, v: Val) -> Val {
    match op {
        UnaryOp::Not => bool_val(v != Val::True),
        UnaryOp::Negate => match v {
            Val::Number(x) => checked_number(-x),
            _ => Val::Error("Expected number"@),
        },
    }
}

/// Value of a number literal: the number its decimal digits denote.
pub open spec fn number_literal(t: Seq<char>) -> Val {
    if is_decimal(t) {
        checked_number(decimal_value(t))
    } else {
        Val::Error("malformed number literal"@)
    }
}

/// Value of a string literal: its source text without the surrounding quotes.
pub open spec fn string_literal(t: Seq<char>) -> Val {
    if t.len() >= 2 && t[0] == '"' && t[t.len() - 1] == '"' {
        Val::Str(t.subrange(1, t.len() - 1))
    } else {
        Val::Error("malformed string literal"@)
    }
}

pub open spec fn with_frames(st: EvalState, frames: Seq<FrameModel>) -> EvalState {
    EvalState { frames, ..st }
}

/// Leaves a loop construct.
pub open spec fn leave_loop(st: EvalState) -> EvalState {
    EvalState { depth: if st.depth > 0 { (st.depth - 1) as nat } else { 0 }, ..st }
}

/// The body of the function that `name` is bound to, where it is bound to one.
pub open spec fn callee(frames: Seq<FrameModel>, name: Seq<char>) -> Option<Seq<Stmt>> {
    match find_frame(frames, name) {
        Some(k) => match frame_get(frames[k].vars, name) {
            Some(Val::Function(i)) => if i < frames[k].funcs.len() {
                Some(frames[k].funcs[i as int])
            } else {
                None
            },
            _ => None,
        },
        None => None,
    }
}

/// Stores a function body in the innermost scope and binds `name` to it there.
pub open spec fn add_function(frames: Seq<FrameModel>, name: Seq<char>, body: Seq<Stmt>) -> Seq<
    FrameModel,
> {
    if frames.len() == 0 {
        frames
    } else {
        let top = frames.last();
        let stored = FrameModel { funcs: top.funcs.push(body), ..top };
        declare(frames.update(frames.len() - 1, stored), name, Val::Function(top.funcs.len()))
    }
}

/// Evaluates an expression; `b` bounds the iterations of each loop and the depth of calls.
pub open spec fn eval_expr(st: EvalState, e: Expr, b: nat) -> (EvalState, Val)
    decreases b, expr_size(e), 0nat,
{
    match e {
        Expr::Number(t) => (st, number_literal(t@)),
        Expr::StringLit(t) => (st, string_literal(t@)),
        Expr::True => (st, Val::True),
        Expr::False => (st, Val::False),
        Expr::Nil => (st, Val::Nil),
        Expr::Identifier(name) => match lookup(st.frames, name@) {
            Some(v) => (st, v),
            None => (st, Val::Error(var_not_found(name@))),
        },
        Expr::Group(x) => eval_expr(st, *x, b),
        Expr::Assign(name, x) => {
            let (s1, v) = eval_expr(st, *x, b);
            if v is Error {
                (s1, v)
            } else {
                match assign(s1.frames, name@, v) {
                    Some(f) => (with_frames(s1, f), v),
                    None => (s1, Val::Error(var_not_found(name@))),
                }
            }
        },
        Expr::Or(l, r) => {
            let (s1, lv) = eval_expr(st, *l, b);
            if lv is Error {
                (s1, lv)
            } else if lv == Val::True {
                (s1, Val::True)
            } else {
                eval_expr(s1, *r, b)
            }
        },
        Expr::And(l, r) => {
            let (s1, lv) = eval_expr(st, *l, b);
            if lv is Error {
                (s1, lv)
            } else if lv == Val::False {
                (s1, Val::False)
            } else {
                eval_expr(s1, *r, b)
            }
        },
        Expr::Binary(op, l, r) => {
            let (s1, lv) = eval_expr(st, *l, b);
            if lv is Error {
                (s1, lv)
            } else {
                let (s2, rv) = eval_expr(s1, *r, b);
                if rv is Error {
                    (s2, rv)
                } else {
                    (s2, binary_value(op, lv, rv))
                }
            }
        },
        Expr::Unary(op, x) => {
            let (s1, v) = eval_expr(st, *x, b);
            if v is Error {
                (s1, v)
            } else {
                (s1, unary_value(op, v))
            }
        },
        Expr::Call(name) => match callee(st.frames, name@) {
            Some(body) => if b == 0 {
                (st, Val::Error("call depth limit reached"@))
            } else {
                let (s1, v) = eval_seq(
                    with_frames(st, push_frame(st.frames)),
                    body,
                    (b - 1) as nat,
                    Val::Empty,
                );
                (with_frames(s1, pop_frame(s1.frames)), v)
            },
            None => (st, Val::Error(fun_not_found(name@))),
        },
        Expr::ErrorNode(t) => (st, Val::Error(t@)),
    }
}

/// Evaluates statements in order, stopping at the first error; the value is that
/// of the last statement evaluated, or `last` where there is none.
pub open spec fn eval_seq(st: EvalState, ss: Seq<Stmt>, b: nat, last: Val) -> (EvalState, Val)
    decreases b, stmts_size(ss), 0nat,
{
    if ss.len() == 0 {
        (st, last)
    } else {
        let (s1, v) = eval_stmt(st, ss[0], b);
        if v is Error {
            (s1, v)
        } else {
            eval_seq(s1, ss.subrange(1, ss.len() as int), b, v)
        }
    }
}

/// The repetition of a `while` loop with `r` iterations left; `last` is the value
/// of the last body evaluation.
pub open spec fn eval_while(
    st: EvalState,
    c: Expr,
    body: Stmt,
    b: nat,
    r: nat,
    last: Val,
) -> (EvalState, Val)
    decreases b, expr_size(c) + stmt_size(body) + 1, r,
{
    let (s1, cv) = eval_expr(st, c, b);
    if cv is Error {
        (leave_loop(s1), cv)
    } else if cv != Val::True {
        (leave_loop(s1), last)
    } else if r == 0 {
        (leave_loop(s1), Val::Error("loop iteration limit reached"@))
    } else {
        let (s2, v) = eval_stmt(s1, body, b);
        if s2.brk {
            (leave_loop(EvalState { brk: false, ..s2 }), v)
        } else if v is Error {
            (leave_loop(s2), v)
        } else {
            eval_while(s2, c, body, b, (r - 1) as nat, v)
        }
    }
}

/// The repetition of a `for` loop with `r` iterations left.
pub open spec fn eval_for(
    st: EvalState,
    c: Option<Expr>,
    n: Option<Expr>,
    body: Stmt,
    b: nat,
    r: nat,
    last: Val,
) -> (EvalState, Val)
    decreases b, opt_expr_size(c) + opt_expr_size(n) + stmt_size(body) + 1, r,
{
    let (s1, cv) = match c {
        Some(ce) => eval_expr(st, ce, b),
        None => (st, Val::True),
    };
    if cv is Error {
        (leave_loop(s1), cv)
    } else if cv != Val::True {
        (leave_loop(s1), last)
    } else if r == 0 {
        (leave_loop(s1), Val::Error("loop iteration limit reached"@))
    } else {
        let (s2, v) = eval_stmt(s1, body, b);
        if s2.brk {
            (leave_loop(EvalState { brk: false, ..s2 }), v)
        } else if v is Error {
            (leave_loop(s2), v)
        } else {
            let (s3, nv) = match n {
                Some(ne) => eval_expr(s2, ne, b),
                None => (s2, Val::Empty),
            };
            if nv is Error {
                (leave_loop(s3), nv)
            } else {
                eval_for(s3, c, n, body, b, (r - 1) as nat, v)
            }
        }
    }
}

/// Largest number of loop constructs that may be in progress at once.
pub open spec fn max_loop_depth() -> nat {
    u64::MAX as nat
}

/// Evaluates a statement; `b` bounds the iterations of each loop and the depth of calls.
pub open spec fn eval_stmt(st: EvalState, s: Stmt, b: nat) -> (EvalState, Val)
    decreases b, stmt_size(s), b + 1,
{
    match s {
        Stmt::Print(e) => {
            let (s1, v) = eval_expr(st, e, b);
            if v is Error {
                (s1, v)
            } else {
                (EvalState { out: s1.out.push(render(v)), ..s1 }, v)
            }
        },
        Stmt::VarDecl(name, e) => {
            let (s1, v) = eval_expr(st, e, b);
            if v is Error {
                (s1, v)
            } else {
                (with_frames(s1, declare(s1.frames, name@, v)), Val::Empty)
            }
        },
        Stmt::Expression(e) => eval_expr(st, e, b),
        Stmt::Block(v) => {
            let (s1, r) = eval_seq(with_frames(st, push_frame(st.frames)), v@, b, Val::Empty);
            (with_frames(s1, pop_frame(s1.frames)), r)
        },
        Stmt::If(c, t, el) => {
            let (s1, cv) = eval_expr(st, c, b);
            if cv is Error {
                (s1, cv)
            } else if cv == Val::True {
                eval_stmt(s1, *t, b)
            } else {
                match el {
                    Some(x) => eval_stmt(s1, *x, b),
                    None => (s1, Val::Empty),
                }
            }
        },
        Stmt::While(c, body) => if st.depth >= max_loop_depth() {
            (st, Val::Error("loop nesting limit reached"@))
        } else {
            eval_while(EvalState { depth: st.depth + 1, ..st }, c, *body, b, b, Val::Empty)
        },
        Stmt::For(init, c, n, body) => {
            let (s0, iv) = match init {
                Some(x) => eval_stmt(st, *x, b),
                None => (st, Val::Empty),
            };
            if iv is Error {
                (s0, iv)
            } else if s0.depth >= max_loop_depth() {
                (s0, Val::Error("loop nesting limit reached"@))
            } else {
                eval_for(EvalState { depth: s0.depth + 1, ..s0 }, c, n, *body, b, b, Val::Empty)
            }
        },
        Stmt::Break => if st.depth == 0 {
            (st, Val::Error("break outside of loop"@))
        } else {
            (EvalState { brk: true, ..st }, Val::Empty)
        },
        Stmt::FunctionDecl(name, body) => {
            let s1 = with_frames(st, add_function(st.frames, name@, body@));
            let (s2, _) = eval_seq(with_frames(s1, push_frame(s1.frames)), body@, b, Val::Empty);
            (with_frames(s2, pop_frame(s2.frames)), Val::Empty)
        },
        Stmt::ErrorNode(t) => (st, Val::Error(t@)),
    }
}

/// Evaluates a program: its statements in order in the outermost scope.
pub open spec fn eval_program(st: EvalState, program: Seq<Stmt>, b: nat) -> (EvalState, Val) {
    eval_seq(st, program, b, Val::Empty)
}


/// `false && e` is `false` and leaves the state as the left operand left it: `e`
/// is not evaluated, so none of its effects happen.
pub proof fn lemma_and_short_circuits(st: EvalState, e: Expr, b: nat)
    requires
        e is And,
        eval_expr(st, *e->And_0, b).1 == Val::False,
    ensures
        eval_expr(st, e, b) == (eval_expr(st, *e->And_0, b).0, Val::False),
{
}

/// `true || e` is `true` and leaves the state as the left operand left it: `e` is
/// not evaluated, so none of its effects happen.
pub proof fn lemma_or_short_circuits(st: EvalState, e: Expr, b: nat)
    requires
        e is Or,
        eval_expr(st, *e->Or_0, b).1 == Val::True,
    ensures
        eval_expr(st, e, b) == (eval_expr(st, *e->Or_0, b).0, Val::True),
{
}

/// An error in the left operand of a binary operator is its result: the right
/// operand is not evaluated.
pub proof fn lemma_binary_left_error(st: EvalState, e: Expr, b: nat)
    requires
        e is Binary,
        eval_expr(st, *e->Binary_1, b).1 is Error,
    ensures
        eval_expr(st, e, b) == eval_expr(st, *e->Binary_1, b),
{
}

/// Arithmetic and ordering on operands that are not both numbers give an error
/// value, never a crash.
pub proof fn lemma_arith_type_error(op: BinaryOp, l: Val, r: Val)
    requires
        op != BinaryOp::Equal,
        op != BinaryOp::NotEqual,
        !(l is Number && r is Number),
    ensures
        binary_value(op, l, r) == Val::Error("must both be numbers"@),
{
}

/// Equality never fails on operands of different kinds.
pub proof fn lemma_equality_total(l: Val, r: Val)
    ensures
        binary_value(BinaryOp::Equal, l, r) == bool_val(values_equal(l, r)),
        binary_value(BinaryOp::NotEqual, l, r) == bool_val(!values_equal(l, r)),
        !(binary_value(BinaryOp::Equal, l, r) is Error),
{
}

/// `break` outside of any loop is an error and changes nothing.
pub proof fn lemma_break_outside_loop(st: EvalState, b: nat)
    requires
        st.depth == 0,
    ensures
        eval_stmt(st, Stmt::Break, b) == (st, Val::Error("break outside of loop"@)),
{
}

/// A `break` executed by the body ends the innermost loop once the body has
/// finished: the loop's value is the body's, the request is cleared, and the loop
/// construct is left.
pub proof fn lemma_break_ends_loop(st: EvalState, c: Expr, body: Stmt, b: nat, r: nat, last: Val)
    requires
        r > 0,
        eval_expr(st, c, b).1 == Val::True,
        eval_stmt(eval_expr(st, c, b).0, body, b).0.brk,
    ensures
        ({
            let s2 = eval_stmt(eval_expr(st, c, b).0, body, b).0;
            let v = eval_stmt(eval_expr(st, c, b).0, body, b).1;
            &&& eval_while(st, c, body, b, r, last) == (
                leave_loop(EvalState { brk: false, ..s2 }),
                v,
            )
            &&& !eval_while(st, c, body, b, r, last).0.brk
            &&& eval_while(st, c, body, b, r, last).0.depth == if s2.depth > 0 {
                s2.depth - 1
            } else {
                0
            }
        }),
{
}

/// Assignment to a name that no active scope binds, once its right-hand side has
/// been evaluated, is the error `Variable <name> not found`, and changes no scope.
pub proof fn lemma_assign_undeclared_error(st: EvalState, e: Expr, b: nat)
    requires
        e is Assign,
        !(eval_expr(st, *e->Assign_1, b).1 is Error),
        lookup(eval_expr(st, *e->Assign_1, b).0.frames, e->Assign_0@) is None,
    ensures
        eval_expr(st, e, b) == (
            eval_expr(st, *e->Assign_1, b).0,
            Val::Error(var_not_found(e->Assign_0@)),
        ),
{
    let s1 = eval_expr(st, *e->Assign_1, b).0;
    crate::environment::lemma_assign_undeclared(
        s1.frames,
        e->Assign_0@,
        eval_expr(st, *e->Assign_1, b).1,
    );
}

/// A name that no active scope binds evaluates to `Variable <name> not found`.
pub proof fn lemma_undeclared_variable(st: EvalState, e: Expr, b: nat)
    requires
        e is Identifier,
        lookup(st.frames, e->Identifier_0@) is None,
    ensures
        eval_expr(st, e, b) == (st, Val::Error(var_not_found(e->Identifier_0@))),
{
}

/// A `print` whose operand is an error prints nothing.
pub proof fn lemma_print_error_prints_nothing(st: EvalState, s: Stmt, b: nat)
    requires
        s is Print,
        eval_expr(st, s->Print_0, b).1 is Error,
    ensures
        eval_stmt(st, s, b) == eval_expr(st, s->Print_0, b),
{
}

} // verus!
