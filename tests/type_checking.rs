use instrumented_eval::ast::{Expr, Factor, Function, Number, Param, Stmt, TermBinaryOp, Type};
use instrumented_eval::check::{same_type, TypeChecker, TypeError};

fn lit(x: f64) -> Expr {
    Expr::Factor(Box::new(Factor::Literal(Number { bits: x.to_bits() })))
}

fn var(x: &str) -> Expr {
    Expr::Factor(Box::new(Factor::Variable(x.to_string())))
}

fn plus(a: Expr, b: Expr) -> Expr {
    Expr::BinaryOp { op: TermBinaryOp::Add, lhs: Box::new(a), rhs: Box::new(b) }
}

fn call(f: &str, args: Vec<Expr>) -> Expr {
    Expr::Factor(Box::new(Factor::Call(Box::new(Factor::Variable(f.to_string())), args)))
}

fn typed_let(x: &str, ty: Type, e: Expr) -> Stmt {
    Stmt::Let(x.to_string(), Some(ty), Box::new(e))
}

fn fun(name: &str, params: Vec<(&str, Option<Type>)>, return_ty: Option<Type>, body: Expr) -> Stmt {
    Stmt::Fun(
        name.to_string(),
        Box::new(Function {
            params: params.into_iter().map(|(p, ty)| Param { name: p.to_string(), ty }).collect(),
            return_ty,
            body,
        }),
    )
}

fn binary() -> Type {
    Type::Arrow(vec![Type::Number, Type::Number], Box::new(Type::Number))
}

fn add_function() -> Stmt {
    fun(
        "add",
        vec![("a", Some(Type::Number)), ("b", Some(Type::Number))],
        Some(Type::Number),
        plus(var("a"), var("b")),
    )
}

#[test]
fn typed_program_passes() {
    let stmts = vec![
        typed_let("x", Type::Number, lit(1.0)),
        typed_let("y", Type::Number, plus(var("x"), lit(2.0))),
        add_function(),
        typed_let("answer", Type::Number, call("add", vec![var("x"), var("y")])),
    ];
    let mut tc = TypeChecker::new();
    assert!(tc.check_stmts(&stmts).is_ok());
    let add = tc.bindings().find(&"add".to_string()).unwrap();
    assert!(same_type(add, &binary()));
    let answer = tc.bindings().find(&"answer".to_string()).unwrap();
    assert!(same_type(answer, &Type::Number));
}

#[test]
fn annotation_mismatch_is_rejected() {
    let stmts = vec![add_function(), typed_let("f", Type::Number, var("add"))];
    let mut tc = TypeChecker::new();
    match tc.check_stmts(&stmts) {
        Err(TypeError::Mismatch { expected, found }) => {
            assert!(same_type(&expected, &Type::Number));
            assert!(same_type(&found, &binary()));
        }
        other => panic!("unexpected {:?}", other),
    }
    assert!(tc.bindings().find(&"f".to_string()).is_none());
    assert!(tc.bindings().find(&"add".to_string()).is_some());
}

#[test]
fn undefined_variable_is_rejected() {
    let mut tc = TypeChecker::new();
    match tc.check_stmts(&[typed_let("x", Type::Number, var("nope"))]) {
        Err(TypeError::Undefined(x)) => assert_eq!(x, "nope"),
        other => panic!("unexpected {:?}", other),
    }
}

#[test]
fn calling_a_number_is_rejected() {
    let stmts = vec![typed_let("x", Type::Number, lit(1.0)), Stmt::Let("y".to_string(), None, Box::new(call("x", vec![])))];
    let mut tc = TypeChecker::new();
    match tc.check_stmts(&stmts) {
        Err(TypeError::ExpectedFunction(t)) => assert!(same_type(&t, &Type::Number)),
        other => panic!("unexpected {:?}", other),
    }
}

#[test]
fn wrong_number_of_arguments_is_rejected() {
    let stmts = vec![add_function(), Stmt::Let("r".to_string(), None, Box::new(call("add", vec![lit(1.0)])))];
    let mut tc = TypeChecker::new();
    match tc.check_stmts(&stmts) {
        Err(TypeError::ArityMismatch { expected, found }) => {
            assert_eq!(expected, 2);
            assert_eq!(found, 1);
        }
        other => panic!("unexpected {:?}", other),
    }
}

#[test]
fn argument_of_wrong_type_is_rejected() {
    let stmts = vec![add_function(), Stmt::Let("r".to_string(), None, Box::new(call("add", vec![lit(1.0), var("add")])))];
    let mut tc = TypeChecker::new();
    match tc.check_stmts(&stmts) {
        Err(TypeError::Mismatch { expected, found }) => {
            assert!(same_type(&expected, &Type::Number));
            assert!(same_type(&found, &binary()));
        }
        other => panic!("unexpected {:?}", other),
    }
}

#[test]
fn return_type_mismatch_is_rejected() {
    let stmts = vec![fun("f", vec![("a", Some(Type::Number))], Some(binary()), var("a"))];
    let mut tc = TypeChecker::new();
    match tc.check_stmts(&stmts) {
        Err(TypeError::ReturnMismatch { annotated, found }) => {
            assert!(same_type(&annotated, &binary()));
            assert!(same_type(&found, &Type::Number));
        }
        other => panic!("unexpected {:?}", other),
    }
}

#[test]
fn parameter_without_annotation_is_rejected() {
    let stmts = vec![fun("f", vec![("a", Some(Type::Number)), ("b", None)], None, var("a"))];
    let mut tc = TypeChecker::new();
    match tc.check_stmts(&stmts) {
        Err(TypeError::MissingAnnotation(x)) => assert_eq!(x, "b"),
        other => panic!("unexpected {:?}", other),
    }
}

#[test]
fn arithmetic_on_a_function_is_rejected() {
    let stmts = vec![add_function(), Stmt::Let("r".to_string(), None, Box::new(plus(var("add"), lit(1.0))))];
    let mut tc = TypeChecker::new();
    match tc.check_stmts(&stmts) {
        Err(TypeError::Mismatch { expected, found }) => {
            assert!(same_type(&expected, &Type::Number));
            assert!(same_type(&found, &binary()));
        }
        other => panic!("unexpected {:?}", other),
    }
}

#[test]
fn parameters_do_not_leak_out_of_the_body() {
    let stmts = vec![
        typed_let("a", Type::Number, lit(3.0)),
        fun("g", vec![("a", Some(binary()))], None, call("a", vec![lit(1.0), lit(2.0)])),
    ];
    let mut tc = TypeChecker::new();
    assert!(tc.check_stmts(&stmts).is_ok());
    assert!(same_type(tc.bindings().find(&"a".to_string()).unwrap(), &Type::Number));
    let g = tc.bindings().find(&"g".to_string()).unwrap();
    assert!(same_type(g, &Type::Arrow(vec![binary()], Box::new(Type::Number))));
}

#[test]
fn unannotated_let_takes_the_expression_type() {
    let mut tc = TypeChecker::new();
    assert!(tc.check_stmt(&add_function()).is_ok());
    assert!(tc.check_stmt(&Stmt::Let("h".to_string(), None, Box::new(var("add")))).is_ok());
    assert!(same_type(tc.bindings().find(&"h".to_string()).unwrap(), &binary()));
    assert!(same_type(&tc.check_expr(&var("h")).unwrap(), &binary()));
}
