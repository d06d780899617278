use lox_interp::errorvisitor::{scan, ErrDetectVisit, ErrVal, MyErrorListener};
use lox_interp::syntax::{BinaryOp, Expr, Stmt};

#[test]
fn clean_program_scans_clean() {
    // var a = 2+3; print a;
    let program = vec![
        Stmt::VarDecl(
            "a".to_string(),
            Expr::Binary(BinaryOp::Add, Box::new(Expr::Number("2".to_string())), Box::new(Expr::Number("3".to_string()))),
        ),
        Stmt::Print(Expr::Identifier("a".to_string())),
    ];
    assert_eq!(scan(&program), ErrVal::Empty);
}

#[test]
fn first_error_wins() {
    let program = vec![
        Stmt::Print(Expr::Number("1".to_string())),
        Stmt::Block(vec![Stmt::Expression(Expr::Binary(
            BinaryOp::Add,
            Box::new(Expr::ErrorNode("first".to_string())),
            Box::new(Expr::ErrorNode("second".to_string())),
        ))]),
        Stmt::ErrorNode("third".to_string()),
    ];
    assert_eq!(scan(&program), ErrVal::Error("first".to_string()));
}

#[test]
fn error_inside_loop_and_function_is_found() {
    let program = vec![
        Stmt::While(Expr::True, Box::new(Stmt::Block(vec![Stmt::Break]))),
        Stmt::FunctionDecl(
            "f".to_string(),
            vec![Stmt::Print(Expr::Group(Box::new(Expr::ErrorNode(")".to_string()))))],
        ),
    ];
    assert_eq!(scan(&program), ErrVal::Error(")".to_string()));
}

#[test]
fn visitor_keeps_earlier_finding() {
    let mut visitor = ErrDetectVisit::new();
    assert_eq!(visitor.val, ErrVal::Empty);
    visitor.visit_program(&vec![Stmt::ErrorNode("x".to_string())]);
    visitor.visit_program(&vec![Stmt::ErrorNode("y".to_string())]);
    assert_eq!(visitor.val, ErrVal::Error("x".to_string()));
}

#[test]
fn aggregate_keeps_first() {
    let visitor = ErrDetectVisit::new();
    assert_eq!(
        visitor.aggregate_results(ErrVal::Empty, ErrVal::Error("b".to_string())),
        ErrVal::Error("b".to_string())
    );
    assert_eq!(
        visitor.aggregate_results(ErrVal::Error("a".to_string()), ErrVal::Error("b".to_string())),
        ErrVal::Error("a".to_string())
    );
    assert_eq!(visitor.aggregate_results(ErrVal::Empty, ErrVal::Empty), ErrVal::Empty);
}

#[test]
fn listener_formats_syntax_error() {
    let listener = MyErrorListener::new();
    assert_eq!(listener.syntax_error(3, 14, "extraneous input"), "a line 3:14 extraneous input");
    assert_eq!(listener.syntax_error(-1, 0, "x"), "a line -1:0 x");
}

#[test]
fn listener_formats_span_reports() {
    let listener = MyErrorListener::new();
    assert_eq!(listener.report_ambiguity(4, 9), "b error 4 9");
    assert_eq!(listener.report_attempting_full_context(0, 12), "c error 0 12");
    assert_eq!(listener.report_context_sensitivity(-1, 3), "d error -1 3");
}
