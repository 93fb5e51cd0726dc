use instrumented_eval::ast::{
    Expr, Factor, FactorBinaryOp, Function, Number, Operator, Param, Stmt, TermBinaryOp,
};
use instrumented_eval::env::{Closure, Value};
use instrumented_eval::eval::{Answer, EvalError, Kind, Node, Request, MAX_CALL_DEPTH};
use instrumented_eval::evaluator::{Evaluator, Step};

fn number(x: f64) -> Number {
    Number { bits: x.to_bits() }
}

fn lit(x: f64) -> Expr {
    Expr::Factor(Box::new(Factor::Literal(number(x))))
}

fn var(x: &str) -> Expr {
    Expr::Factor(Box::new(Factor::Variable(x.to_string())))
}

fn term(op: TermBinaryOp, a: Expr, b: Expr) -> Expr {
    Expr::BinaryOp { op, lhs: Box::new(a), rhs: Box::new(b) }
}

fn plus(a: Expr, b: Expr) -> Expr {
    term(TermBinaryOp::Add, a, b)
}

fn factor_of(e: Expr) -> Factor {
    match e {
        Expr::Factor(f) => *f,
        other => Factor::Group(Box::new(other)),
    }
}

fn product(op: FactorBinaryOp, a: Expr, b: Expr) -> Expr {
    Expr::Factor(Box::new(Factor::BinaryOp {
        op,
        lhs: Box::new(factor_of(a)),
        rhs: Box::new(factor_of(b)),
    }))
}

fn call(f: &str, args: Vec<Expr>) -> Expr {
    Expr::Factor(Box::new(Factor::Call(Box::new(Factor::Variable(f.to_string())), args)))
}

fn timeout(ms: u64, e: Expr) -> Expr {
    Expr::Factor(Box::new(Factor::Timeout { milliseconds: ms, expr: Box::new(e) }))
}

fn yielding(e: Expr) -> Expr {
    Expr::Factor(Box::new(Factor::Yield(Box::new(e))))
}

fn bind(x: &str, e: Expr) -> Stmt {
    Stmt::Let(x.to_string(), None, Box::new(e))
}

fn fun(name: &str, params: &[&str], body: Expr) -> Stmt {
    Stmt::Fun(
        name.to_string(),
        Box::new(Function {
            params: params.iter().map(|p| Param { name: p.to_string(), ty: None }).collect(),
            return_ty: None,
            body,
        }),
    )
}

fn as_f64(v: &Value) -> f64 {
    match v {
        Value::Number(n) => f64::from_bits(n.bits),
        Value::Closure(_) => panic!("expected a number, found {:?}", v),
    }
}

fn kind(node: &Node) -> &'static str {
    match node {
        Node::Stmt(_) => "stmt",
        Node::Expr(_) => "expr",
        Node::Factor(_) => "factor",
    }
}

/// A scripted host: hooks that record their calls and may fail, a clock
/// that advances by `tick` milliseconds at every request, and native
/// floating-point arithmetic.
struct Host {
    hooks: usize,
    now: u64,
    tick: u64,
    log: Vec<String>,
    fail_pre: Option<(usize, &'static str)>,
    fail_post: Vec<(usize, &'static str)>,
    yields: usize,
}

impl Host {
    fn new(hooks: usize) -> Host {
        Host { hooks, now: 0, tick: 0, log: Vec::new(), fail_pre: None, fail_post: Vec::new(), yields: 0 }
    }

    fn serve(&mut self, req: &Request) -> Answer {
        self.now += self.tick;
        match req {
            Request::Pre { hook, node } => {
                self.log.push(format!("pre {} {}", hook, kind(node)));
                match self.fail_pre {
                    Some((h, m)) if h == *hook => Answer::Fail(m.to_string()),
                    _ => Answer::Proceed,
                }
            }
            Request::Post { hook, node, .. } => {
                self.log.push(format!("post {} {}", hook, kind(node)));
                match self.fail_post.iter().find(|(h, _)| h == hook) {
                    Some((_, m)) => Answer::Fail(m.to_string()),
                    None => Answer::Proceed,
                }
            }
            Request::Arithmetic { op, lhs, rhs } => {
                let a = f64::from_bits(lhs.bits);
                let b = f64::from_bits(rhs.bits);
                let r = match op {
                    Operator::Add => a + b,
                    Operator::Sub => a - b,
                    Operator::Mul => a * b,
                    Operator::Div => a / b,
                };
                Answer::Number(number(r))
            }
            Request::Yield => {
                self.yields += 1;
                Answer::Proceed
            }
            Request::Clock => Answer::Time(self.now),
        }
    }
}

fn run(program: Vec<Stmt>, host: &mut Host) -> (Result<Value, EvalError>, Evaluator) {
    let mut ev = Evaluator::new(program, host.hooks);
    loop {
        while ev.advance() {}
        let answer = match ev.step() {
            Step::Finished(r) => return (r, ev),
            Step::Ready => continue,
            Step::Request(req) => host.serve(&req),
        };
        ev.answer(answer);
    }
}

fn eval(program: Vec<Stmt>) -> (Result<Value, EvalError>, Evaluator) {
    run(program, &mut Host::new(0))
}

#[test]
fn let_statements_end_to_end() {
    let (r, ev) = eval(vec![bind("x", lit(1.0)), bind("y", plus(var("x"), lit(2.0)))]);
    assert_eq!(as_f64(&r.unwrap()), 3.0);
    assert_eq!(as_f64(&ev.bindings().get("x").unwrap()), 1.0);
    assert_eq!(as_f64(&ev.bindings().get("y").unwrap()), 3.0);
    assert_eq!(ev.bindings().names().len(), 2);
}

#[test]
fn function_call_end_to_end() {
    let (r, ev) = eval(vec![
        fun("add", &["a", "b"], plus(var("a"), var("b"))),
        bind("r", call("add", vec![lit(1.0), lit(2.0)])),
    ]);
    assert_eq!(as_f64(&r.unwrap()), 3.0);
    assert_eq!(as_f64(&ev.bindings().get("r").unwrap()), 3.0);
}

#[test]
fn empty_program_yields_zero() {
    let (r, _) = eval(vec![]);
    assert_eq!(r, Ok(Value::Number(Number { bits: 0 })));
}

#[test]
fn arithmetic_matches_native_floats() {
    let cases: [(f64, f64); 4] = [(1.5, 2.25), (-3.0, 0.1), (1e308, 1e308), (7.0, -0.0)];
    for (a, b) in cases {
        let (r, _) = eval(vec![bind("s", term(TermBinaryOp::Sub, lit(a), lit(b)))]);
        assert_eq!(as_f64(&r.unwrap()).to_bits(), (a - b).to_bits());
        let (r, _) = eval(vec![bind("s", plus(lit(a), lit(b)))]);
        assert_eq!(as_f64(&r.unwrap()).to_bits(), (a + b).to_bits());
        let (r, _) = eval(vec![bind("p", product(FactorBinaryOp::Mul, lit(a), lit(b)))]);
        assert_eq!(as_f64(&r.unwrap()).to_bits(), (a * b).to_bits());
        let (r, _) = eval(vec![bind("q", product(FactorBinaryOp::Div, lit(a), lit(b)))]);
        assert_eq!(as_f64(&r.unwrap()).to_bits(), (a / b).to_bits());
    }
}

#[test]
fn division_by_zero_is_not_an_error() {
    let (r, _) = eval(vec![bind("q", product(FactorBinaryOp::Div, lit(1.0), lit(0.0)))]);
    assert_eq!(as_f64(&r.unwrap()), f64::INFINITY);
    let (r, _) = eval(vec![bind("q", product(FactorBinaryOp::Div, lit(0.0), lit(0.0)))]);
    assert!(as_f64(&r.unwrap()).is_nan());
}

#[test]
fn unbound_variable_names_the_identifier() {
    let (r, ev) = eval(vec![bind("x", lit(1.0)), bind("y", plus(var("x"), var("zed")))]);
    assert_eq!(r, Err(EvalError::UnboundVariable("zed".to_string())));
    assert!(ev.bindings().get("y").is_none());
    assert_eq!(as_f64(&ev.bindings().get("x").unwrap()), 1.0);
}

#[test]
fn unbound_variable_inside_closure_body() {
    let (r, _) = eval(vec![fun("f", &[], var("later")), bind("later", lit(1.0)), bind("r", call("f", vec![]))]);
    assert_eq!(r, Err(EvalError::UnboundVariable("later".to_string())));
}

#[test]
fn closure_captures_definition_environment() {
    let (r, ev) = eval(vec![
        bind("x", lit(1.0)),
        fun("f", &[], var("x")),
        bind("x", lit(2.0)),
        bind("r", call("f", vec![])),
    ]);
    assert_eq!(as_f64(&r.unwrap()), 1.0);
    assert_eq!(as_f64(&ev.bindings().get("x").unwrap()), 2.0);
    assert_eq!(ev.frames().len(), 1);
    assert_eq!(as_f64(&ev.frames()[0].get("x").unwrap()), 1.0);
}

#[test]
fn function_cannot_call_itself_by_name() {
    let (r, _) = eval(vec![fun("f", &["n"], call("f", vec![var("n")])), bind("r", call("f", vec![lit(1.0)]))]);
    assert_eq!(r, Err(EvalError::UnboundVariable("f".to_string())));
}

#[test]
fn parameter_shadows_outer_binding() {
    let (r, ev) = eval(vec![
        bind("a", lit(10.0)),
        fun("double", &["a"], plus(var("a"), var("a"))),
        bind("r", call("double", vec![lit(3.0)])),
    ]);
    assert_eq!(as_f64(&r.unwrap()), 6.0);
    assert_eq!(as_f64(&ev.bindings().get("a").unwrap()), 10.0);
}

#[test]
fn closure_value_records_function_and_frame() {
    let (r, _) = eval(vec![bind("x", lit(1.0)), fun("f", &[], var("x"))]);
    assert_eq!(r, Ok(Value::Closure(Closure { function: 1, env: 0 })));
}

#[test]
fn arity_mismatch_is_an_error() {
    let (r, _) = eval(vec![
        fun("add", &["a", "b"], plus(var("a"), var("b"))),
        bind("r", call("add", vec![lit(1.0)])),
    ]);
    assert_eq!(r, Err(EvalError::ArityMismatch { expected: 2, found: 1 }));
}

#[test]
fn calling_a_number_is_an_error() {
    let (r, _) = eval(vec![bind("x", lit(1.0)), bind("r", call("x", vec![]))]);
    assert_eq!(r, Err(EvalError::ExpectedClosure));
}

#[test]
fn arithmetic_on_a_closure_is_a_type_mismatch() {
    let (r, _) = eval(vec![fun("f", &[], lit(1.0)), bind("r", plus(var("f"), lit(1.0)))]);
    assert_eq!(
        r,
        Err(EvalError::TypeMismatch { operation: Operator::Add, expected: Kind::Number, found: Kind::Closure })
    );
    let (r, _) = eval(vec![fun("f", &[], lit(1.0)), bind("r", product(FactorBinaryOp::Div, lit(1.0), var("f")))]);
    assert_eq!(
        r,
        Err(EvalError::TypeMismatch { operation: Operator::Div, expected: Kind::Number, found: Kind::Closure })
    );
}

#[test]
fn failure_stops_the_sequence() {
    let (r, ev) = eval(vec![bind("a", var("missing")), bind("b", lit(1.0))]);
    assert_eq!(r, Err(EvalError::UnboundVariable("missing".to_string())));
    assert!(ev.bindings().get("b").is_none());
}

#[test]
fn hooks_run_pre_in_order_and_post_in_reverse() {
    let mut host = Host::new(2);
    let (r, _) = run(vec![bind("x", lit(1.0))], &mut host);
    assert_eq!(as_f64(&r.unwrap()), 1.0);
    assert_eq!(
        host.log,
        vec![
            "pre 0 stmt", "pre 1 stmt", "pre 0 expr", "pre 1 expr", "pre 0 factor", "pre 1 factor",
            "post 1 factor", "post 0 factor", "post 1 expr", "post 0 expr", "post 1 stmt", "post 0 stmt",
        ]
    );
}

#[test]
fn vetoing_pre_hook_prevents_evaluation() {
    let mut host = Host::new(2);
    host.fail_pre = Some((1, "vetoed"));
    let (r, ev) = run(vec![bind("x", lit(1.0))], &mut host);
    assert_eq!(r, Err(EvalError::Instrumentation("vetoed".to_string())));
    assert_eq!(host.log, vec!["pre 0 stmt", "pre 1 stmt"]);
    assert!(ev.bindings().get("x").is_none());
}

#[test]
fn post_hook_error_replaces_success() {
    let mut host = Host::new(1);
    host.fail_post = vec![(0, "rejected")];
    let (r, _) = run(vec![bind("x", lit(1.0))], &mut host);
    assert_eq!(
        r,
        Err(EvalError::Combined(
            Box::new(EvalError::Combined(
                Box::new(EvalError::Instrumentation("rejected".to_string())),
                Box::new(EvalError::Instrumentation("rejected".to_string())),
            )),
            Box::new(EvalError::Instrumentation("rejected".to_string())),
        ))
    );
}

#[test]
fn post_hook_error_after_evaluation_error_is_combined() {
    let mut host = Host::new(1);
    host.fail_post = vec![(0, "hook")];
    let (r, _) = run(vec![bind("x", var("nowhere"))], &mut host);
    let inner = EvalError::Combined(
        Box::new(EvalError::UnboundVariable("nowhere".to_string())),
        Box::new(EvalError::Instrumentation("hook".to_string())),
    );
    let expr_level = EvalError::Combined(Box::new(inner), Box::new(EvalError::Instrumentation("hook".to_string())));
    let stmt_level =
        EvalError::Combined(Box::new(expr_level), Box::new(EvalError::Instrumentation("hook".to_string())));
    assert_eq!(r, Err(stmt_level));
}

#[test]
fn second_post_hook_failure_is_combined_once_more() {
    let mut host = Host::new(2);
    host.fail_post = vec![(1, "first"), (0, "second")];
    let program = vec![bind("x", lit(1.0))];
    let mut ev = Evaluator::new(program, 2);
    // Drive by hand up to the factor's result, then check the merge order.
    let mut result = None;
    for _ in 0..100 {
        while ev.advance() {}
        let answer = match ev.step() {
            Step::Finished(r) => {
                result = Some(r);
                break;
            }
            Step::Ready => continue,
            Step::Request(req) => host.serve(&req),
        };
        ev.answer(answer);
    }
    match result.unwrap() {
        Err(EvalError::Combined(pending, last)) => {
            assert_eq!(*last, EvalError::Instrumentation("second".to_string()));
            match *pending {
                EvalError::Combined(_, ref hook) => {
                    assert_eq!(**hook, EvalError::Instrumentation("first".to_string()))
                }
                ref other => panic!("unexpected {:?}", other),
            }
        }
        other => panic!("unexpected {:?}", other),
    }
}

#[test]
fn timeout_elapses_with_slow_evaluation() {
    let mut host = Host::new(0);
    host.tick = 2;
    let (r, _) = run(vec![bind("x", timeout(1, plus(lit(1.0), lit(2.0))))], &mut host);
    assert_eq!(r, Err(EvalError::Timeout));
}

#[test]
fn generous_timeout_succeeds() {
    let mut host = Host::new(0);
    host.tick = 2;
    let (r, _) = run(vec![bind("x", timeout(10_000, plus(lit(1.0), lit(2.0))))], &mut host);
    assert_eq!(as_f64(&r.unwrap()), 3.0);
}

#[test]
fn zero_timeout_succeeds_when_no_time_passes() {
    let (r, _) = run(vec![bind("x", timeout(0, plus(lit(1.0), lit(2.0))))], &mut Host::new(0));
    assert_eq!(as_f64(&r.unwrap()), 3.0);
}

#[test]
fn outer_timeout_abandons_inner_one() {
    let mut host = Host::new(0);
    host.tick = 5;
    let (r, _) = run(vec![bind("x", timeout(1, timeout(10_000, plus(lit(1.0), lit(2.0)))))], &mut host);
    assert_eq!(r, Err(EvalError::Timeout));
}

#[test]
fn timeout_inside_call_keeps_caller_environment() {
    let mut host = Host::new(0);
    host.tick = 3;
    let (r, ev) = run(
        vec![
            bind("a", lit(5.0)),
            fun("slow", &["a"], plus(var("a"), var("a"))),
            bind("r", timeout(1, call("slow", vec![lit(1.0)]))),
        ],
        &mut host,
    );
    assert_eq!(r, Err(EvalError::Timeout));
    assert_eq!(as_f64(&ev.bindings().get("a").unwrap()), 5.0);
}

#[test]
fn yield_keeps_the_value() {
    let program = || vec![bind("x", lit(4.0)), bind("y", product(FactorBinaryOp::Mul, var("x"), lit(0.5)))];
    let (direct, _) = eval(program());
    let mut host = Host::new(0);
    let (yielded, _) = run(
        vec![bind("x", lit(4.0)), bind("y", yielding(product(FactorBinaryOp::Mul, var("x"), lit(0.5))))],
        &mut host,
    );
    assert_eq!(direct, yielded);
    assert_eq!(as_f64(&yielded.unwrap()), 2.0);
    assert_eq!(host.yields, 1);
}

#[test]
fn wrong_kind_of_answer_is_reported() {
    let mut ev = Evaluator::new(vec![bind("x", plus(lit(1.0), lit(2.0)))], 0);
    while ev.advance() {}
    assert!(matches!(ev.step(), Step::Request(Request::Arithmetic { .. })));
    ev.answer(Answer::Proceed);
    while ev.advance() {}
    assert!(matches!(ev.step(), Step::Finished(Err(EvalError::BadAnswer))));
}

#[test]
fn deep_recursion_through_closures_is_bounded() {
    // `spin(spin)` calls `g(g)` with `g = spin`: a call chain that never ends.
    let program = vec![
        fun("spin", &["g"], call("g", vec![var("g")])),
        bind("r", call("spin", vec![var("spin")])),
    ];
    let (r, _) = eval(program);
    assert_eq!(r, Err(EvalError::CallDepthExceeded));
    assert!(MAX_CALL_DEPTH > 0);
}
