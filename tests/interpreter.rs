use lox_interp::interpvisitor::{evaluate, InterpVisit};
use lox_interp::syntax::{BinaryOp, Expr, Stmt, UnaryOp};
use lox_interp::value::TermValue;

const LIMIT: u64 = 1000;

fn num(n: u64) -> Expr {
    Expr::Number(n.to_string())
}

fn neg(e: Expr) -> Expr {
    Expr::Unary(UnaryOp::Negate, Box::new(e))
}

fn min_i64() -> Expr {
    bin(BinaryOp::Sub, neg(num(i64::MAX as u64)), num(1))
}

fn text(s: &str) -> Expr {
    Expr::StringLit(format!("\"{}\"", s))
}

fn var(name: &str) -> Expr {
    Expr::Identifier(name.to_string())
}

fn bin(op: BinaryOp, l: Expr, r: Expr) -> Expr {
    Expr::Binary(op, Box::new(l), Box::new(r))
}

fn assign(name: &str, e: Expr) -> Expr {
    Expr::Assign(name.to_string(), Box::new(e))
}

fn decl(name: &str, e: Expr) -> Stmt {
    Stmt::VarDecl(name.to_string(), e)
}

fn print(e: Expr) -> Stmt {
    Stmt::Print(e)
}

fn run(program: &Vec<Stmt>) -> (TermValue, Vec<String>) {
    evaluate(program, LIMIT)
}

fn lines(v: &[&str]) -> Vec<String> {
    v.iter().map(|s| s.to_string()).collect()
}

#[test]
fn var_sum_then_print() {
    // var a = 2+3; print a;
    let program = vec![decl("a", bin(BinaryOp::Add, num(2), num(3))), print(var("a"))];
    let (v, out) = run(&program);
    assert_eq!(out, lines(&["5"]));
    assert!(matches!(v, TermValue::Number(5)));
}

#[test]
fn block_shadows_outer_variable() {
    // var a = 1; { var a = 2; print a; } print a;
    let program = vec![
        decl("a", num(1)),
        Stmt::Block(vec![decl("a", num(2)), print(var("a"))]),
        print(var("a")),
    ];
    let (v, out) = run(&program);
    assert_eq!(out, lines(&["2", "1"]));
    assert!(matches!(v, TermValue::Number(1)));
}

#[test]
fn if_else_takes_else_branch() {
    // if (1 > 2) { print "x"; } else { print "y"; }
    let program = vec![Stmt::If(
        bin(BinaryOp::Greater, num(1), num(2)),
        Box::new(Stmt::Block(vec![print(text("x"))])),
        Some(Box::new(Stmt::Block(vec![print(text("y"))]))),
    )];
    let (_, out) = run(&program);
    assert_eq!(out, lines(&["y"]));
}

#[test]
fn while_counts_to_three() {
    // var i = 0; while (i < 3) { print i; i = i + 1; }
    let program = vec![
        decl("i", num(0)),
        Stmt::While(
            bin(BinaryOp::Less, var("i"), num(3)),
            Box::new(Stmt::Block(vec![
                print(var("i")),
                Stmt::Expression(assign("i", bin(BinaryOp::Add, var("i"), num(1)))),
            ])),
        ),
    ];
    let (v, out) = run(&program);
    assert_eq!(out, lines(&["0", "1", "2"]));
    // the loop's value is that of its last body evaluation, whose last statement
    // is the assignment `i = 3`
    assert!(matches!(v, TermValue::Number(3)));
}

#[test]
fn undeclared_variable_is_an_error() {
    // print z;
    let program = vec![print(var("z"))];
    let (v, out) = run(&program);
    assert_eq!(v, TermValue::Error("Variable z not found".to_string()));
    assert!(out.is_empty());
}

#[test]
fn error_stops_the_program() {
    // print 1; print z; print 2;
    let program = vec![print(num(1)), print(var("z")), print(num(2))];
    let (v, out) = run(&program);
    assert_eq!(v, TermValue::Error("Variable z not found".to_string()));
    assert_eq!(out, lines(&["1"]));
}

#[test]
fn false_and_skips_right_operand() {
    // var x = 0; false and (x = 1); print x;
    let program = vec![
        decl("x", num(0)),
        Stmt::Expression(Expr::And(Box::new(Expr::False), Box::new(assign("x", num(1))))),
        print(var("x")),
    ];
    let (_, out) = run(&program);
    assert_eq!(out, lines(&["0"]));
}

#[test]
fn true_or_skips_right_operand() {
    // var x = 0; print true or (x = 1); print x;
    let program = vec![
        decl("x", num(0)),
        print(Expr::Or(Box::new(Expr::True), Box::new(assign("x", num(1))))),
        print(var("x")),
    ];
    let (_, out) = run(&program);
    assert_eq!(out, lines(&["true", "0"]));
}

#[test]
fn or_and_yield_right_operand_otherwise() {
    // print nil or 3; print true and "b";
    let program = vec![
        print(Expr::Or(Box::new(Expr::Nil), Box::new(num(3)))),
        print(Expr::And(Box::new(Expr::True), Box::new(text("b")))),
    ];
    let (_, out) = run(&program);
    assert_eq!(out, lines(&["3", "b"]));
}

#[test]
fn string_plus_number_is_an_error() {
    // "a" + 1;
    let program = vec![Stmt::Expression(bin(BinaryOp::Add, text("a"), num(1)))];
    let (v, _) = run(&program);
    assert_eq!(v, TermValue::Error("must both be numbers".to_string()));
}

#[test]
fn comparison_of_mixed_kinds_is_an_error() {
    let program = vec![Stmt::Expression(bin(BinaryOp::LessEqual, num(1), text("a")))];
    let (v, _) = run(&program);
    assert_eq!(v, TermValue::Error("must both be numbers".to_string()));
}

#[test]
fn equality_of_mixed_kinds_is_false() {
    // print 1 == "1"; print 1 != "1"; print nil == nil; print "a" == "a";
    let program = vec![
        print(bin(BinaryOp::Equal, num(1), text("1"))),
        print(bin(BinaryOp::NotEqual, num(1), text("1"))),
        print(bin(BinaryOp::Equal, Expr::Nil, Expr::Nil)),
        print(bin(BinaryOp::Equal, text("a"), text("a"))),
    ];
    let (_, out) = run(&program);
    assert_eq!(out, lines(&["false", "true", "true", "true"]));
}

#[test]
fn any_two_functions_are_equal() {
    // fun f() {} fun g() {} print f == g;
    let program = vec![
        Stmt::FunctionDecl("f".to_string(), vec![]),
        Stmt::FunctionDecl("g".to_string(), vec![]),
        print(bin(BinaryOp::Equal, var("f"), var("g"))),
    ];
    let (_, out) = run(&program);
    assert_eq!(out, lines(&["true"]));
    assert_eq!(TermValue::Function(0), TermValue::Function(7));
}

#[test]
fn arithmetic_results() {
    // print 7 - 10; print 6 * 7; print 8 / 2; print -8 / 2;
    let program = vec![
        print(bin(BinaryOp::Sub, num(7), num(10))),
        print(bin(BinaryOp::Mul, num(6), num(7))),
        print(bin(BinaryOp::Div, num(8), num(2))),
        print(bin(BinaryOp::Div, neg(num(8)), num(2))),
        print(bin(BinaryOp::GreaterEqual, num(2), num(2))),
    ];
    let (_, out) = run(&program);
    assert_eq!(out, lines(&["-3", "42", "4", "-4", "true"]));
}

#[test]
fn division_errors() {
    let (v, _) = run(&vec![Stmt::Expression(bin(BinaryOp::Div, num(1), num(0)))]);
    assert_eq!(v, TermValue::Error("division by zero".to_string()));
    let (v, _) = run(&vec![Stmt::Expression(bin(BinaryOp::Div, num(7), num(2)))]);
    assert_eq!(v, TermValue::Error("division is not exact".to_string()));
    let (v, _) = run(&vec![Stmt::Expression(bin(BinaryOp::Div, min_i64(), neg(num(1))))]);
    assert_eq!(v, TermValue::Error("number out of range".to_string()));
}

#[test]
fn overflow_is_an_error() {
    let (v, _) = run(&vec![Stmt::Expression(bin(BinaryOp::Add, num(i64::MAX as u64), num(1)))]);
    assert_eq!(v, TermValue::Error("number out of range".to_string()));
    let (v, _) = run(&vec![Stmt::Expression(bin(BinaryOp::Mul, num(i64::MAX as u64), num(2)))]);
    assert_eq!(v, TermValue::Error("number out of range".to_string()));
}

#[test]
fn unary_operators() {
    // print -5; print !true; print !nil; -"a";
    let program = vec![
        print(neg(num(5))),
        print(Expr::Unary(UnaryOp::Not, Box::new(Expr::True))),
        print(Expr::Unary(UnaryOp::Not, Box::new(Expr::Nil))),
        Stmt::Expression(Expr::Unary(UnaryOp::Negate, Box::new(text("a")))),
    ];
    let (v, out) = run(&program);
    assert_eq!(out, lines(&["-5", "false", "true"]));
    assert_eq!(v, TermValue::Error("Expected number".to_string()));
    let (v, _) = run(&vec![Stmt::Expression(neg(min_i64()))]);
    assert_eq!(v, TermValue::Error("number out of range".to_string()));
}

#[test]
fn print_renderings() {
    // print nil; print true; print false; print -12; print "hi there"; print (3);
    let program = vec![
        print(Expr::Nil),
        print(Expr::True),
        print(Expr::False),
        print(neg(num(12))),
        print(text("hi there")),
        print(Expr::Group(Box::new(num(3)))),
    ];
    let (v, out) = run(&program);
    assert_eq!(out, lines(&["nil", "true", "false", "-12", "hi there", "3"]));
    assert!(matches!(v, TermValue::Number(3)));
}

#[test]
fn malformed_string_literal_is_an_error() {
    let program = vec![print(Expr::StringLit("abc".to_string()))];
    let (v, out) = run(&program);
    assert_eq!(v, TermValue::Error("malformed string literal".to_string()));
    assert!(out.is_empty());
}

#[test]
fn assignment_is_an_expression() {
    // var a = 1; print a = 5; print a;
    let program = vec![decl("a", num(1)), print(assign("a", num(5))), print(var("a"))];
    let (_, out) = run(&program);
    assert_eq!(out, lines(&["5", "5"]));
}

#[test]
fn assignment_reaches_outer_scope() {
    // var a = 1; { a = 2; } print a;
    let program = vec![
        decl("a", num(1)),
        Stmt::Block(vec![Stmt::Expression(assign("a", num(2)))]),
        print(var("a")),
    ];
    let (_, out) = run(&program);
    assert_eq!(out, lines(&["2"]));
}

#[test]
fn assignment_to_undeclared_is_an_error() {
    // var a = 1; y = 1;
    let program = vec![decl("a", num(1)), Stmt::Expression(assign("y", num(1)))];
    let mut visitor = InterpVisit::new();
    let v = visitor.visit_program(&program, LIMIT);
    assert_eq!(v, TermValue::Error("Variable y not found".to_string()));
    assert_eq!(visitor.state.len(), 1);
    assert_eq!(visitor.state[0].variables.len(), 1);
    assert_eq!(visitor.state[0].variables[0].0, "a");
    assert!(matches!(visitor.state[0].variables[0].1, TermValue::Number(1)));
}

#[test]
fn break_outside_loop_is_an_error() {
    let program = vec![Stmt::Break];
    let mut visitor = InterpVisit::new();
    let v = visitor.visit_program(&program, LIMIT);
    assert_eq!(v, TermValue::Error("break outside of loop".to_string()));
    assert_eq!(visitor.loop_depth, 0);
    assert!(!visitor.break_requested);
}

#[test]
fn break_ends_loop_after_body() {
    // var i = 0; while (true) { i = i + 1; if (i == 3) break; print i; } print i;
    let program = vec![
        decl("i", num(0)),
        Stmt::While(
            Expr::True,
            Box::new(Stmt::Block(vec![
                Stmt::Expression(assign("i", bin(BinaryOp::Add, var("i"), num(1)))),
                Stmt::If(bin(BinaryOp::Equal, var("i"), num(3)), Box::new(Stmt::Break), None),
                print(var("i")),
            ])),
        ),
        print(bin(BinaryOp::Mul, var("i"), num(10))),
    ];
    let mut visitor = InterpVisit::new();
    visitor.visit_program(&program, LIMIT);
    // the body runs to its end in the iteration that requested the break
    assert_eq!(visitor.output, lines(&["1", "2", "3", "30"]));
    assert_eq!(visitor.loop_depth, 0);
    assert!(!visitor.break_requested);
}

#[test]
fn break_ends_only_innermost_loop() {
    // var i = 0; while (i < 2) { i = i + 1; while (true) { break; } print i; }
    let program = vec![
        decl("i", num(0)),
        Stmt::While(
            bin(BinaryOp::Less, var("i"), num(2)),
            Box::new(Stmt::Block(vec![
                Stmt::Expression(assign("i", bin(BinaryOp::Add, var("i"), num(1)))),
                Stmt::While(Expr::True, Box::new(Stmt::Block(vec![Stmt::Break]))),
                print(var("i")),
            ])),
        ),
    ];
    let mut visitor = InterpVisit::new();
    visitor.visit_program(&program, LIMIT);
    assert_eq!(visitor.output, lines(&["1", "2"]));
    assert_eq!(visitor.loop_depth, 0);
}

#[test]
fn for_loop_counts() {
    // for (var i = 0; i < 3; i = i + 1) print i;
    let program = vec![Stmt::For(
        Some(Box::new(decl("i", num(0)))),
        Some(bin(BinaryOp::Less, var("i"), num(3))),
        Some(assign("i", bin(BinaryOp::Add, var("i"), num(1)))),
        Box::new(print(var("i"))),
    )];
    let (_, out) = run(&program);
    assert_eq!(out, lines(&["0", "1", "2"]));
}

#[test]
fn for_loop_without_condition_ends_by_break() {
    // var n = 0; for (;;) { n = n + 1; if (n > 4) break; } print n;
    let program = vec![
        decl("n", num(0)),
        Stmt::For(
            None,
            None,
            None,
            Box::new(Stmt::Block(vec![
                Stmt::Expression(assign("n", bin(BinaryOp::Add, var("n"), num(1)))),
                Stmt::If(bin(BinaryOp::Greater, var("n"), num(4)), Box::new(Stmt::Break), None),
            ])),
        ),
        print(var("n")),
    ];
    let (_, out) = run(&program);
    assert_eq!(out, lines(&["5"]));
}

#[test]
fn endless_loop_hits_the_limit() {
    let program = vec![Stmt::While(Expr::True, Box::new(Stmt::Block(vec![])))];
    let mut visitor = InterpVisit::new();
    let v = visitor.visit_program(&program, 10);
    assert_eq!(v, TermValue::Error("loop iteration limit reached".to_string()));
    assert_eq!(visitor.loop_depth, 0);
}

#[test]
fn function_body_runs_at_declaration_and_call() {
    // fun f() { print "hi"; } f();
    let program = vec![
        Stmt::FunctionDecl("f".to_string(), vec![print(text("hi"))]),
        Stmt::Expression(Expr::Call("f".to_string())),
    ];
    let (v, out) = run(&program);
    assert_eq!(out, lines(&["hi", "hi"]));
    assert_eq!(v, TermValue::StringValue("hi".to_string()));
}

#[test]
fn function_body_has_its_own_scope() {
    // var a = 1; fun f() { var a = 2; print a; } f(); print a;
    let program = vec![
        decl("a", num(1)),
        Stmt::FunctionDecl("f".to_string(), vec![decl("a", num(2)), print(var("a"))]),
        Stmt::Expression(Expr::Call("f".to_string())),
        print(var("a")),
    ];
    let (_, out) = run(&program);
    assert_eq!(out, lines(&["2", "2", "1"]));
}

#[test]
fn calling_unknown_function_is_an_error() {
    let (v, _) = run(&vec![Stmt::Expression(Expr::Call("g".to_string()))]);
    assert_eq!(v, TermValue::Error("Function g not found".to_string()));
    // a name bound to something else is no function either
    let (v, _) =
        run(&vec![decl("g", num(1)), Stmt::Expression(Expr::Call("g".to_string()))]);
    assert_eq!(v, TermValue::Error("Function g not found".to_string()));
}

#[test]
fn endless_recursion_hits_the_limit() {
    // fun f() { f(); } f();
    let program = vec![
        Stmt::FunctionDecl("f".to_string(), vec![Stmt::Expression(Expr::Call("f".to_string()))]),
        Stmt::Expression(Expr::Call("f".to_string())),
    ];
    let mut visitor = InterpVisit::new();
    let v = visitor.visit_program(&program, 5);
    assert_eq!(v, TermValue::Error("call depth limit reached".to_string()));
    assert_eq!(visitor.state.len(), 1);
}

#[test]
fn block_scope_is_popped_on_error() {
    let stmt = Stmt::Block(vec![decl("q", num(1)), print(var("zz"))]);
    let mut visitor = InterpVisit::new();
    let v = visitor.eval_stmt(&stmt, LIMIT);
    assert_eq!(v, TermValue::Error("Variable zz not found".to_string()));
    assert_eq!(visitor.state.len(), 1);
    assert!(visitor.state[0].variables.is_empty());
}

#[test]
fn if_treats_non_true_as_false() {
    // if (nil) print "a"; else print "b"; if (1 < 2) print "c";
    let program = vec![
        Stmt::If(Expr::Nil, Box::new(print(text("a"))), Some(Box::new(print(text("b"))))),
        Stmt::If(bin(BinaryOp::Less, num(1), num(2)), Box::new(print(text("c"))), None),
    ];
    let (_, out) = run(&program);
    assert_eq!(out, lines(&["b", "c"]));
}

#[test]
fn error_placeholder_evaluates_to_error() {
    let program = vec![print(num(1)), Stmt::ErrorNode("@".to_string())];
    let (v, out) = run(&program);
    assert_eq!(v, TermValue::Error("@".to_string()));
    assert_eq!(out, lines(&["1"]));
}

#[test]
fn value_is_recorded_in_outer_scope() {
    let program = vec![decl("a", num(4)), Stmt::Expression(var("a"))];
    let mut visitor = InterpVisit::new();
    let v = visitor.visit_program(&program, LIMIT);
    assert!(matches!(v, TermValue::Number(4)));
    assert!(matches!(visitor.value(), TermValue::Number(4)));
}

#[test]
fn empty_program_is_empty() {
    let (v, out) = run(&vec![]);
    assert_eq!(v, TermValue::Empty);
    assert!(out.is_empty());
}

#[test]
fn number_literals_from_text() {
    let program = vec![
        print(Expr::Number("007".to_string())),
        print(min_i64()),
        Stmt::Expression(Expr::Number("12a".to_string())),
    ];
    let (v, out) = run(&program);
    assert_eq!(out, lines(&["7", "-9223372036854775808"]));
    assert_eq!(v, TermValue::Error("malformed number literal".to_string()));
    let (v, _) = run(&vec![print(Expr::Number("9223372036854775808".to_string()))]);
    assert_eq!(v, TermValue::Error("number out of range".to_string()));
    let (v, _) = run(&vec![print(Expr::Number("".to_string()))]);
    assert_eq!(v, TermValue::Error("malformed number literal".to_string()));
    let (v, _) = run(&vec![print(Expr::Number("2.5".to_string()))]);
    assert_eq!(v, TermValue::Error("malformed number literal".to_string()));
}
