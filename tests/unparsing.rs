use instrumented_eval::ast::{
    Expr, Factor, FactorBinaryOp, Function, Number, Param, Stmt, TermBinaryOp, Type,
};
use instrumented_eval::unparse::{literals, Unparser};

fn lit(x: f64) -> Expr {
    Expr::Factor(Box::new(Factor::Literal(Number { bits: x.to_bits() })))
}

fn var(x: &str) -> Expr {
    Expr::Factor(Box::new(Factor::Variable(x.to_string())))
}

fn plus(a: Expr, b: Expr) -> Expr {
    Expr::BinaryOp { op: TermBinaryOp::Add, lhs: Box::new(a), rhs: Box::new(b) }
}

fn render(stmts: &[Stmt]) -> String {
    let texts: Vec<String> = literals(stmts).iter().map(|n| f64::from_bits(n.bits).to_string()).collect();
    let mut u = Unparser::new(texts);
    u.unparse_stmts(stmts);
    u.output().to_string()
}

#[test]
fn program_renders_as_source() {
    let stmts = vec![
        Stmt::Let("x".to_string(), Some(Type::Number), Box::new(lit(1.0))),
        Stmt::Let("y".to_string(), None, Box::new(plus(var("x"), lit(2.5)))),
        Stmt::Fun(
            "add".to_string(),
            Box::new(Function {
                params: vec![
                    Param { name: "a".to_string(), ty: Some(Type::Number) },
                    Param { name: "b".to_string(), ty: None },
                ],
                return_ty: None,
                body: plus(var("a"), var("b")),
            }),
        ),
        Stmt::Let(
            "answer".to_string(),
            None,
            Box::new(Expr::Factor(Box::new(Factor::Call(
                Box::new(Factor::Variable("add".to_string())),
                vec![var("x"), var("y")],
            )))),
        ),
    ];
    assert_eq!(render(&stmts), "let x = 1\nlet y = x + 2.5\nfun add(a, b) = a + b\nlet answer = add(x, y)\n");
}

#[test]
fn factors_render_with_operators_and_markers() {
    let product = Factor::BinaryOp {
        op: FactorBinaryOp::Div,
        lhs: Box::new(Factor::Group(Box::new(plus(lit(1.0), lit(0.5))))),
        rhs: Box::new(Factor::Variable("z".to_string())),
    };
    let stmts = vec![Stmt::Let(
        "w".to_string(),
        None,
        Box::new(Expr::Factor(Box::new(Factor::Timeout {
            milliseconds: 1500,
            expr: Box::new(Expr::Factor(Box::new(Factor::Yield(Box::new(Expr::Factor(Box::new(product))))))),
        }))),
    )];
    assert_eq!(render(&stmts), "let w = timeout(1500, yield((1 + 0.5) / z))\n");
}

#[test]
fn literals_are_listed_in_order() {
    let stmts = vec![Stmt::Let("v".to_string(), None, Box::new(plus(lit(3.0), plus(var("q"), lit(-4.0)))))];
    let lits: Vec<f64> = literals(&stmts).iter().map(|n| f64::from_bits(n.bits)).collect();
    assert_eq!(lits, vec![3.0, -4.0]);
}

#[test]
fn missing_literal_text_renders_placeholder() {
    let stmts = vec![Stmt::Let("v".to_string(), None, Box::new(plus(lit(3.0), lit(4.0))))];
    let mut u = Unparser::new(vec!["3".to_string()]);
    u.unparse_stmts(&stmts);
    assert_eq!(u.output(), "let v = 3 + _\n");
}

#[test]
fn operators_render_alone() {
    let mut u = Unparser::new(Vec::new());
    u.unparse_term_binary_op(&TermBinaryOp::Sub);
    u.unparse_factor_binary_op(&FactorBinaryOp::Mul);
    u.unparse_term_binary_op(&TermBinaryOp::Add);
    u.unparse_factor_binary_op(&FactorBinaryOp::Div);
    assert_eq!(u.output(), "-*+/");
}

#[test]
fn types_render_as_text() {
    assert_eq!(Type::Number.text(), "number");
    let binary = Type::Arrow(vec![Type::Number, Type::Number], Box::new(Type::Number));
    assert_eq!(binary.text(), "(number, number) -> number");
    let higher = Type::Arrow(vec![binary], Box::new(Type::Arrow(vec![], Box::new(Type::Number))));
    assert_eq!(higher.text(), "((number, number) -> number) -> () -> number");
}
