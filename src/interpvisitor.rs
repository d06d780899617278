use vstd::prelude::*;
use crate::environment::{
    assign_var, declare_var, empty_frame, find_binding, lemma_find_var_bounds, lookup_var,
    pop_frame, stack_view, ExecutionState, FrameModel,
};
use crate::semantics::{
    abs, add_function, binary_value, callee, eval_expr, eval_for, eval_program, eval_seq,
    eval_stmt, eval_while, fun_not_found, max_loop_depth, number_literal, quotient,
    string_literal, unary_value, var_not_found, with_frames, EvalState,
};
use crate::syntax::{
    expr_size, lemma_stmts_size_index, opt_expr_size, stmt_size, stmts_size, BinaryOp, Expr, Stmt,
    UnaryOp,
};
use crate::value::{
    decimal_value, is_decimal, is_digit, lemma_decimal_value_prefix, render, render_value,
    TermValue, Val,
};

verus! {

/// Evaluates a parsed program by walking its syntax tree.
pub struct InterpVisit<'a> {
    /// Active scopes, outermost first.
    pub state: Vec<ExecutionState<'a>>,
    /// A `break` was executed and the loop running it has not yet observed it.
    pub break_requested: bool,
    /// Number of loop constructs whose evaluation is in progress.
    pub loop_depth: u64,
    /// Lines printed so far, in order.
    pub output: Vec<String>,
}

impl<'a> View for InterpVisit<'a> {
    type V = EvalState;

    open spec fn view(&self) -> EvalState {
        EvalState {
            frames: stack_view(self.state@),
            brk: self.break_requested,
            depth: self.loop_depth as nat,
            out: self.output@.map_values(|s: String| s@),
        }
    }
}

/// The state an evaluation starts from: one empty scope, no loop, nothing printed.
pub open spec fn initial_state() -> EvalState {
    EvalState { frames: seq![empty_frame()], brk: false, depth: 0, out: Seq::empty() }
}

/// Records a result in the innermost scope.
pub open spec fn set_result(frames: Seq<FrameModel>, v: Val) -> Seq<FrameModel> {
    if frames.len() == 0 {
        frames
    } else {
        frames.update(frames.len() - 1, FrameModel { ret: v, ..frames.last() })
    }
}

fn var_not_found_msg(name: &String) -> (r: String)
    ensures
        r@ == var_not_found(name@),
{
    String::from_str("Variable ").concat(name.as_str()).concat(" not found")
}

fn fun_not_found_msg(name: &String) -> (r: String)
    ensures
        r@ == fun_not_found(name@),
{
    String::from_str("Function ").concat(name.as_str()).concat(" not found")
}

fn error_value(msg: &str) -> (r: TermValue)
    ensures
        r@ == Val::Error(msg@),
{
    TermValue::Error(String::from_str(msg))
}

fn string_literal_value(t: &String) -> (r: TermValue)
    ensures
        r@ == string_literal(t@),
{
    let s = t.as_str();
    let n = s.unicode_len();
    if n >= 2 && s.get_char(0) == '"' && s.get_char(n - 1) == '"' {
        TermValue::StringValue(String::from_str(s.substring_char(1, n - 1)))
    } else {
        error_value("malformed string literal")
    }
}

fn number_literal_value(t: &String) -> (r: TermValue)
    ensures
        r@ == number_literal(t@),
{
    let s = t.as_str();
    let n = s.unicode_len();
    if n == 0 {
        return error_value("malformed number literal");
    }
    let mut i: usize = 0;
    while i < n
        invariant
            i <= n,
            n == s@.len(),
            s@ == t@,
            forall|j: int| 0 <= j < i ==> is_digit(#[trigger] s@[j]),
        decreases n - i,
    {
        let c = s.get_char(i);
        if !('0' <= c && c <= '9') {
            assert(!is_digit(t@[i as int]));
            return error_value("malformed number literal");
        }
        i = i + 1;
    }
    let mut acc: i64 = 0;
    let mut k: usize = 0;
    assert(s@.take(0) =~= Seq::<char>::empty());
    while k < n
        invariant
            k <= n,
            n == s@.len(),
            s@ == t@,
            forall|j: int| 0 <= j < n ==> is_digit(#[trigger] s@[j]),
            acc as int == decimal_value(s@.take(k as int)),
        decreases n - k,
    {
        let c = s.get_char(k);
        assert(is_digit(s@[k as int]));
        let d = (c as u32 - '0' as u32) as i64;
        let ghost next = s@.take(k + 1);
        assert(next.drop_last() =~= s@.take(k as int));
        assert(decimal_value(next) == acc as int * 10 + d as int);
        proof {
            lemma_decimal_value_prefix(s@, k + 1);
            lemma_decimal_value_prefix(s@, k as int);
        }
        assert(is_decimal(t@));
        assert(decimal_value(s@) >= decimal_value(next));
        match acc.checked_mul(10) {
            None => {
                return error_value("number out of range");
            },
            Some(m) => match m.checked_add(d) {
                None => {
                    return error_value("number out of range");
                },
                Some(a) => {
                    acc = a;
                },
            },
        }
        k = k + 1;
    }
    assert(s@.take(n as int) =~= s@);
    TermValue::Number(acc)
}

fn checked_value(v: Option<i64>) -> (r: TermValue)
    ensures
        r@ == match v {
            Some(x) => Val::Number(x),
            None => Val::Error("number out of range"@),
        },
{
    match v {
        Some(x) => TermValue::Number(x),
        None => error_value("number out of range"),
    }
}

fn magnitude(x: i64) -> (r: u64)
    ensures
        r as int == abs(x as int),
{
    if x < 0 {
        (0 - (x as i128)) as u64
    } else {
        x as u64
    }
}

fn divide(x: i64, y: i64) -> (r: TermValue)
    ensures
        r@ == quotient(x as int, y as int),
{
    if y == 0 {
        return error_value("division by zero");
    }
    let ax = magnitude(x);
    let ay = magnitude(y);
    if ax % ay != 0 {
        return error_value("division is not exact");
    }
    let q = ax / ay;
    let signed: i128 = if (x < 0) != (y < 0) {
        0 - (q as i128)
    } else {
        q as i128
    };
    if signed >= i64::MIN as i128 && signed <= i64::MAX as i128 {
        TermValue::Number(signed as i64)
    } else {
        error_value("number out of range")
    }
}

fn number_op(op: BinaryOp, x: i64, y: i64) -> (r: TermValue)
    requires
        op != BinaryOp::Equal && op != BinaryOp::NotEqual,
    ensures
        r@ == binary_value(op, Val::Number(x), Val::Number(y)),
{
    match op {
        BinaryOp::Add => checked_value(x.checked_add(y)),
        BinaryOp::Sub => checked_value(x.checked_sub(y)),
        BinaryOp::Mul => checked_value(x.checked_mul(y)),
        BinaryOp::Div => divide(x, y),
        BinaryOp::Greater => TermValue::from_bool(x > y),
        BinaryOp::GreaterEqual => TermValue::from_bool(x >= y),
        BinaryOp::Less => TermValue::from_bool(x < y),
        _ => TermValue::from_bool(x <= y),
    }
}

/// Applies a binary operator to two operands that are not errors.
pub fn binary_op(op: BinaryOp, l: &TermValue, r: &TermValue) -> (v: TermValue)
    ensures
        v@ == binary_value(op, l@, r@),
{
    match op {
        BinaryOp::Equal => TermValue::from_bool(l.eq(r)),
        BinaryOp::NotEqual => TermValue::from_bool(!l.eq(r)),
        _ => match (l, r) {
            (TermValue::Number(x), TermValue::Number(y)) => number_op(op, *x, *y),
            _ => error_value("must both be numbers"),
        },
    }
}

/// Applies a unary operator to an operand that is not an error.
pub fn unary_op(op: UnaryOp, v: &TermValue) -> (r: TermValue)
    ensures
        r@ == unary_value(op, v@),
{
    match op {
        UnaryOp::Not => TermValue::from_bool(!matches!(v, TermValue::True)),
        UnaryOp::Negate => match v {
            TermValue::Number(x) => checked_value(0i64.checked_sub(*x)),
            _ => error_value("Expected number"),
        },
    }
}


impl<'a> InterpVisit<'a> {
    pub fn new() -> (r: Self)
        ensures
            r@ == initial_state(),
            r.state@.len() == 1,
    {
        let mut state = Vec::new();
        state.push(ExecutionState::new());
        let r = InterpVisit {
            state,
            break_requested: false,
            loop_depth: 0,
            output: Vec::new(),
        };
        assert(r@.frames =~= seq![empty_frame()]);
        assert(r@.out =~= Seq::<Seq<char>>::empty());
        r
    }

    /// The result recorded in the innermost scope.
    pub fn value(&self) -> (r: &TermValue)
        requires
            self.state@.len() > 0,
        ensures
            r@ == self@.frames.last().ret,
    {
        &self.state[self.state.len() - 1].return_value
    }

    fn push_scope(&mut self)
        ensures
            final(self)@ == with_frames(old(self)@, old(self)@.frames.push(empty_frame())),
            final(self).state@.len() == old(self).state@.len() + 1,
            final(self).loop_depth == old(self).loop_depth,
    {
        self.state.push(ExecutionState::new());
        assert(self@.frames =~= old(self)@.frames.push(empty_frame()));
    }

    fn pop_scope(&mut self)
        ensures
            final(self)@ == with_frames(old(self)@, pop_frame(old(self)@.frames)),
            old(self).state@.len() > 0 ==> final(self).state@.len() == old(self).state@.len() - 1,
            final(self).loop_depth == old(self).loop_depth,
    {
        let _ = self.state.pop();
        assert(self@.frames =~= pop_frame(old(self)@.frames));
    }

    /// The body of the function that `name` is bound to.
    fn find_callee(&self, name: &String) -> (r: Option<&'a Vec<Stmt>>)
        ensures
            match r {
                Some(body) => callee(self@.frames, name@) == Some(body@),
                None => callee(self@.frames, name@) is None,
            },
    {
        match find_binding(&self.state, name) {
            Some((k, i)) => {
                proof {
                    lemma_find_var_bounds(self@.frames[k as int].vars, name@);
                }
                let f = &self.state[k];
                match &f.variables[i].1 {
                    TermValue::Function(idx) => {
                        if *idx < f.functions.len() {
                            Some(f.functions[*idx])
                        } else {
                            None
                        }
                    },
                    _ => None,
                }
            },
            None => None,
        }
    }

    /// Stores a function body in the innermost scope and binds `name` to it there.
    fn store_function(&mut self, name: &String, body: &'a Vec<Stmt>)
        ensures
            final(self)@ == with_frames(old(self)@, add_function(old(self)@.frames, name@, body@)),
            final(self).state@.len() == old(self).state@.len(),
            final(self).loop_depth == old(self).loop_depth,
    {
        let ghost s = self@.frames;
        match self.state.pop() {
            None => {
                assert(self@.frames =~= s);
            },
            Some(mut top) => {
                let idx = top.functions.len();
                let ghost funcs0 = top@.funcs;
                top.functions.push(body);
                assert(top@.funcs =~= funcs0.push(body@));
                self.state.push(top);
                assert(self@.frames =~= s.update(
                    s.len() - 1,
                    FrameModel { funcs: s.last().funcs.push(body@), ..s.last() },
                ));
                declare_var(&mut self.state, name.clone(), TermValue::Function(idx));
            },
        }
    }

    /// Evaluates an expression; `b` bounds the iterations of each loop and the depth
    /// of calls.
    pub fn eval_expr(&mut self, e: &'a Expr, b: u64) -> (r: TermValue)
        ensures
            (final(self)@, r@) == eval_expr(old(self)@, *e, b as nat),
            final(self).state@.len() == old(self).state@.len(),
            final(self).loop_depth == old(self).loop_depth,
        decreases b, expr_size(*e), 1nat,
    {
        match e {
            Expr::Number(t) => number_literal_value(t),
            Expr::StringLit(t) => string_literal_value(t),
            Expr::True => TermValue::True,
            Expr::False => TermValue::False,
            Expr::Nil => TermValue::Nil,
            Expr::Identifier(name) => match lookup_var(&self.state, name) {
                Some(v) => v,
                None => TermValue::Error(var_not_found_msg(name)),
            },
            Expr::Group(x) => self.eval_expr(x, b),
            Expr::Assign(name, x) => {
                let v = self.eval_expr(x, b);
                if v.is_error() {
                    return v;
                }
                if assign_var(&mut self.state, name, v.clone()) {
                    v
                } else {
                    TermValue::Error(var_not_found_msg(name))
                }
            },
            Expr::Or(l, r) => {
                let lv = self.eval_expr(l, b);
                if lv.is_error() {
                    return lv;
                }
                if matches!(lv, TermValue::True) {
                    return TermValue::True;
                }
                self.eval_expr(r, b)
            },
            Expr::And(l, r) => {
                let lv = self.eval_expr(l, b);
                if lv.is_error() {
                    return lv;
                }
                if matches!(lv, TermValue::False) {
                    return TermValue::False;
                }
                self.eval_expr(r, b)
            },
            Expr::Binary(op, l, r) => {
                let lv = self.eval_expr(l, b);
                if lv.is_error() {
                    return lv;
                }
                let rv = self.eval_expr(r, b);
                if rv.is_error() {
                    return rv;
                }
                binary_op(*op, &lv, &rv)
            },
            Expr::Unary(op, x) => {
                let v = self.eval_expr(x, b);
                if v.is_error() {
                    return v;
                }
                unary_op(*op, &v)
            },
            Expr::Call(name) => match self.find_callee(name) {
                Some(body) => {
                    if b == 0 {
                        return error_value("call depth limit reached");
                    }
                    self.push_scope();
                    let v = self.eval_block(body, b - 1);
                    self.pop_scope();
                    v
                },
                None => TermValue::Error(fun_not_found_msg(name)),
            },
            Expr::ErrorNode(t) => TermValue::Error(t.clone()),
        }
    }

    /// Evaluates statements in order, stopping at the first error.
    #[verifier::loop_isolation(false)]
    fn eval_block(&mut self, ss: &'a Vec<Stmt>, b: u64) -> (r: TermValue)
        ensures
            (final(self)@, r@) == eval_seq(old(self)@, ss@, b as nat, Val::Empty),
            final(self).state@.len() == old(self).state@.len(),
            final(self).loop_depth == old(self).loop_depth,
        decreases b, stmts_size(ss@), 1nat,
    {
        let ghost n = ss@.len() as int;
        let ghost target = eval_seq(self@, ss@, b as nat, Val::Empty);
        let ghost len0 = self.state@.len();
        let ghost depth0 = self.loop_depth;
        let mut result = TermValue::Empty;
        let mut i: usize = 0;
        assert(ss@.subrange(0, n) =~= ss@);
        while i < ss.len()
            invariant
                i <= ss.len(),
                n == ss@.len(),
                eval_seq(self@, ss@.subrange(i as int, n), b as nat, result@) == target,
                self.state@.len() == len0,
                self.loop_depth == depth0,
            decreases ss.len() - i,
        {
            let ghost rest = ss@.subrange(i as int, n);
            assert(rest[0] == ss@[i as int]);
            assert(rest.subrange(1, rest.len() as int) =~= ss@.subrange(i + 1, n));
            proof {
                lemma_stmts_size_index(ss@, i as int);
            }
            let v = self.eval_stmt(&ss[i], b);
            if v.is_error() {
                return v;
            }
            result = v;
            i = i + 1;
        }
        result
    }

    /// Evaluates a statement; `b` bounds the iterations of each loop and the depth of
    /// calls.
    pub fn eval_stmt(&mut self, s: &'a Stmt, b: u64) -> (r: TermValue)
        ensures
            (final(self)@, r@) == eval_stmt(old(self)@, *s, b as nat),
            final(self).state@.len() == old(self).state@.len(),
            final(self).loop_depth == old(self).loop_depth,
        decreases b, stmt_size(*s), 1nat,
    {
        match s {
            Stmt::Print(e) => {
                let v = self.eval_expr(e, b);
                if v.is_error() {
                    return v;
                }
                let ghost out0 = self@.out;
                let line = render_value(&v);
                self.output.push(line);
                assert(self@.out =~= out0.push(render(v@)));
                v
            },
            Stmt::VarDecl(name, e) => {
                let v = self.eval_expr(e, b);
                if v.is_error() {
                    return v;
                }
                declare_var(&mut self.state, name.clone(), v);
                TermValue::Empty
            },
            Stmt::Expression(e) => self.eval_expr(e, b),
            Stmt::Block(v) => {
                self.push_scope();
                let r = self.eval_block(v, b);
                self.pop_scope();
                r
            },
            Stmt::If(c, t, el) => {
                let cv = self.eval_expr(c, b);
                if cv.is_error() {
                    return cv;
                }
                if matches!(cv, TermValue::True) {
                    self.eval_stmt(t, b)
                } else {
                    match el {
                        Some(x) => self.eval_stmt(x, b),
                        None => TermValue::Empty,
                    }
                }
            },
            Stmt::While(c, body) => self.eval_while(c, body, b),
            Stmt::For(init, c, n, body) => {
                let iv = match init {
                    Some(x) => self.eval_stmt(x, b),
                    None => TermValue::Empty,
                };
                if iv.is_error() {
                    return iv;
                }
                self.eval_for(c, n, body, b)
            },
            Stmt::Break => {
                if self.loop_depth == 0 {
                    return error_value("break outside of loop");
                }
                self.break_requested = true;
                TermValue::Empty
            },
            Stmt::FunctionDecl(name, body) => {
                self.store_function(name, body);
                self.push_scope();
                let _ = self.eval_block(body, b);
                self.pop_scope();
                TermValue::Empty
            },
            Stmt::ErrorNode(t) => TermValue::Error(t.clone()),
        }
    }

    /// Runs a `while` loop.
    #[verifier::loop_isolation(false)]
    fn eval_while(&mut self, c: &'a Expr, body: &'a Stmt, b: u64) -> (r: TermValue)
        ensures
            (final(self)@, r@) == if old(self)@.depth >= max_loop_depth() {
                (old(self)@, Val::Error("loop nesting limit reached"@))
            } else {
                eval_while(
                    EvalState { depth: old(self)@.depth + 1, ..old(self)@ },
                    *c,
                    *body,
                    b as nat,
                    b as nat,
                    Val::Empty,
                )
            },
            final(self).state@.len() == old(self).state@.len(),
            final(self).loop_depth == old(self).loop_depth,
        decreases b, expr_size(*c) + stmt_size(*body) + 1, 0nat,
    {
        if self.loop_depth == u64::MAX {
            return error_value("loop nesting limit reached");
        }
        self.loop_depth = self.loop_depth + 1;
        let ghost target = eval_while(self@, *c, *body, b as nat, b as nat, Val::Empty);
        let ghost len0 = self.state@.len();
        let ghost depth1 = self.loop_depth;
        let mut result = TermValue::Empty;
        let mut left: u64 = b;
        loop
            invariant
                eval_while(self@, *c, *body, b as nat, left as nat, result@) == target,
                self.state@.len() == len0,
                self.loop_depth == depth1,
                depth1 > 0,
            decreases left,
        {
            let cv = self.eval_expr(c, b);
            if cv.is_error() {
                self.loop_depth = self.loop_depth - 1;
                return cv;
            }
            if !matches!(cv, TermValue::True) {
                self.loop_depth = self.loop_depth - 1;
                return result;
            }
            if left == 0 {
                self.loop_depth = self.loop_depth - 1;
                return error_value("loop iteration limit reached");
            }
            let v = self.eval_stmt(body, b);
            if self.break_requested {
                self.break_requested = false;
                self.loop_depth = self.loop_depth - 1;
                return v;
            }
            if v.is_error() {
                self.loop_depth = self.loop_depth - 1;
                return v;
            }
            result = v;
            left = left - 1;
        }
    }

    /// Runs a `for` loop whose initializer has been evaluated.
    #[verifier::loop_isolation(false)]
    fn eval_for(&mut self, c: &'a Option<Expr>, n: &'a Option<Expr>, body: &'a Stmt, b: u64) -> (r:
        TermValue)
        ensures
            (final(self)@, r@) == if old(self)@.depth >= max_loop_depth() {
                (old(self)@, Val::Error("loop nesting limit reached"@))
            } else {
                eval_for(
                    EvalState { depth: old(self)@.depth + 1, ..old(self)@ },
                    *c,
                    *n,
                    *body,
                    b as nat,
                    b as nat,
                    Val::Empty,
                )
            },
            final(self).state@.len() == old(self).state@.len(),
            final(self).loop_depth == old(self).loop_depth,
        decreases b, opt_expr_size(*c) + opt_expr_size(*n) + stmt_size(
            *body,
        ) + 1, 0nat,
    {
        if self.loop_depth == u64::MAX {
            return error_value("loop nesting limit reached");
        }
        self.loop_depth = self.loop_depth + 1;
        let ghost target = eval_for(self@, *c, *n, *body, b as nat, b as nat, Val::Empty);
        let ghost len0 = self.state@.len();
        let ghost depth1 = self.loop_depth;
        let mut result = TermValue::Empty;
        let mut left: u64 = b;
        loop
            invariant
                eval_for(self@, *c, *n, *body, b as nat, left as nat, result@) == target,
                self.state@.len() == len0,
                self.loop_depth == depth1,
                depth1 > 0,
            decreases left,
        {
            let cv = match c {
                Some(ce) => self.eval_expr(ce, b),
                None => TermValue::True,
            };
            if cv.is_error() {
                self.loop_depth = self.loop_depth - 1;
                return cv;
            }
            if !matches!(cv, TermValue::True) {
                self.loop_depth = self.loop_depth - 1;
                return result;
            }
            if left == 0 {
                self.loop_depth = self.loop_depth - 1;
                return error_value("loop iteration limit reached");
            }
            let v = self.eval_stmt(body, b);
            if self.break_requested {
                self.break_requested = false;
                self.loop_depth = self.loop_depth - 1;
                return v;
            }
            if v.is_error() {
                self.loop_depth = self.loop_depth - 1;
                return v;
            }
            let nv = match n {
                Some(ne) => self.eval_expr(ne, b),
                None => TermValue::Empty,
            };
            if nv.is_error() {
                self.loop_depth = self.loop_depth - 1;
                return nv;
            }
            result = v;
            left = left - 1;
        }
    }

    /// Evaluates a program in the outermost scope and records its value there.
    pub fn visit_program(&mut self, program: &'a Vec<Stmt>, limit: u64) -> (r: TermValue)
        ensures
            r@ == eval_program(old(self)@, program@, limit as nat).1,
            final(self)@ == with_frames(
                eval_program(old(self)@, program@, limit as nat).0,
                set_result(eval_program(old(self)@, program@, limit as nat).0.frames, r@),
            ),
            final(self).state@.len() == old(self).state@.len(),
            final(self).loop_depth == old(self).loop_depth,
    {
        let r = self.eval_block(program, limit);
        let ghost s = self@;
        let last = self.state.pop();
        match last {
            Some(mut top) => {
                top.return_value = r.clone();
                self.state.push(top);
                assert(self@.frames =~= set_result(s.frames, r@));
            },
            None => {
                assert(self@.frames =~= s.frames);
            },
        }
        r
    }
}

/// Evaluates a program from a fresh state; returns its value and the printed lines.
/// `limit` bounds the iterations of each loop and the depth of calls.
pub fn evaluate(program: &Vec<Stmt>, limit: u64) -> (r: (TermValue, Vec<String>))
    ensures
        r.0@ == eval_program(initial_state(), program@, limit as nat).1,
        r.1@.map_values(|s: String| s@) == eval_program(initial_state(), program@, limit as nat).0.out,
{
    let mut visitor = InterpVisit::new();
    let v = visitor.visit_program(program, limit);
    (v, visitor.output)
}

} // verus!
