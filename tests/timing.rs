use instrumented_eval::ast::{Expr, Factor, Number, Operator, Stmt, TermBinaryOp};
use instrumented_eval::env::Value;
use instrumented_eval::eval::{Answer, EvalError, Request};
use instrumented_eval::evaluator::{Evaluator, Step};

fn lit(x: f64) -> Expr {
    Expr::Factor(Box::new(Factor::Literal(Number { bits: x.to_bits() })))
}

fn sum_under_timeout(ms: u64) -> Vec<Stmt> {
    let sum = Expr::BinaryOp { op: TermBinaryOp::Add, lhs: Box::new(lit(1.0)), rhs: Box::new(lit(2.0)) };
    vec![Stmt::Let(
        "x".to_string(),
        None,
        Box::new(Expr::Factor(Box::new(Factor::Timeout { milliseconds: ms, expr: Box::new(sum) }))),
    )]
}

/// Evaluates on a tokio runtime, sleeping `delay_ms` before answering each
/// arithmetic request.
fn evaluate_with_delay(program: Vec<Stmt>, delay_ms: u64) -> Result<Value, EvalError> {
    let runtime = tokio::runtime::Builder::new_current_thread().enable_all().build().unwrap();
    runtime.block_on(async move {
        let origin = tokio::time::Instant::now();
        let mut ev = Evaluator::new(program, 0);
        loop {
            while ev.advance() {}
            let answer = match ev.step() {
                Step::Finished(r) => return r,
                Step::Ready => continue,
                Step::Request(Request::Arithmetic { op, lhs, rhs }) => {
                    tokio::time::sleep(std::time::Duration::from_millis(delay_ms)).await;
                    let (a, b) = (f64::from_bits(lhs.bits), f64::from_bits(rhs.bits));
                    let r = match op {
                        Operator::Add => a + b,
                        Operator::Sub => a - b,
                        Operator::Mul => a * b,
                        Operator::Div => a / b,
                    };
                    Answer::Number(Number { bits: r.to_bits() })
                }
                Step::Request(Request::Yield) => {
                    tokio::task::yield_now().await;
                    Answer::Proceed
                }
                Step::Request(Request::Clock) => Answer::Time(origin.elapsed().as_millis() as u64),
                Step::Request(_) => Answer::Proceed,
            };
            ev.answer(answer);
        }
    })
}

#[test]
fn delay_beyond_one_millisecond_times_out() {
    assert_eq!(evaluate_with_delay(sum_under_timeout(1), 20), Err(EvalError::Timeout));
}

#[test]
fn same_delay_under_ten_seconds_succeeds() {
    let r = evaluate_with_delay(sum_under_timeout(10_000), 20).unwrap();
    assert_eq!(r, Value::Number(Number { bits: 3.0f64.to_bits() }));
}
