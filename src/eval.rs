//! Evaluation of programs.
//!
//! The evaluator walks the tree and asks the host, through a [`Request`],
//! for everything that lies outside it: the callbacks of the registered
//! instrumentation hooks, floating-point arithmetic, the time (under a
//! `Timeout`) and a turn of the scheduler (at a `Yield`). The host answers
//! each request with an [`Answer`]. Evaluation is a pure function of the
//! program and of the answers given so far: a node that needs an answer
//! that has not come yet suspends the whole evaluation with that request,
//! and once the host has answered, evaluation is replayed over the longer
//! list of answers.
use vstd::prelude::*;

use crate::ast::{Expr, Factor, Function, Number, Operator, Param, Stmt};
use crate::env::{lookup, Closure, Env, Value};

verus! {

/// The kind of a runtime value.
#[derive(Clone, Copy, Debug, PartialEq, Eq, Structural)]
pub enum Kind {
    Number,
    Closure,
}

#[derive(Debug, PartialEq, Eq)]
pub enum EvalError {
    /// A variable that is bound in no scope visible here.
    UnboundVariable(String),
    /// An arithmetic operand that is not a number.
    TypeMismatch { operation: Operator, expected: Kind, found: Kind },
    /// A call of something that is not a closure.
    ExpectedClosure,
    /// A call with a number of arguments other than the closure's
    /// number of parameters.
    ArityMismatch { expected: usize, found: usize },
    /// Calls nested deeper than [`MAX_CALL_DEPTH`].
    CallDepthExceeded,
    /// A `Timeout` whose time ran out.
    Timeout,
    /// An error raised by an instrumentation hook.
    Instrumentation(String),
    /// A post-hook failed while an error was pending: the pending error
    /// first, then the hook's.
    Combined(Box<EvalError>, Box<EvalError>),
    /// The host answered a request with an answer of another kind.
    BadAnswer,
}

/// The deepest nesting of closure calls that evaluation allows.
pub const MAX_CALL_DEPTH: usize = 100;

/// A node of the tree, as handed to the instrumentation hooks.
#[derive(Clone, Copy, Debug)]
pub enum Node<'a> {
    Stmt(&'a Stmt),
    Expr(&'a Expr),
    Factor(&'a Factor),
}

/// What the evaluator asks of the host.
#[derive(Debug)]
pub enum Request<'a> {
    /// Run the pre-callback of hook number `hook` on `node`.
    Pre { hook: usize, node: Node<'a> },
    /// Run the post-callback of hook number `hook` on `node` and the
    /// result of its evaluation.
    Post { hook: usize, node: Node<'a>, result: Result<Value, EvalError> },
    /// Apply the floating-point operation to the two numbers.
    Arithmetic { op: Operator, lhs: Number, rhs: Number },
    /// Hand control to the scheduler; answer once resumed.
    Yield,
    /// Tell the time in milliseconds.
    Clock,
}

/// The host's answer to a [`Request`].
#[derive(Debug)]
pub enum Answer {
    /// A hook callback succeeded, or the scheduler resumed evaluation.
    Proceed,
    /// A hook callback failed with this message.
    Fail(String),
    /// The result of an arithmetic request.
    Number(Number),
    /// The time in milliseconds.
    Time(u64),
}

/// A deadline set by a `Timeout`: it passes once the clock reads more than
/// `start + milliseconds`.
#[derive(Clone, Copy, Debug, PartialEq, Eq, Structural)]
pub struct Deadline {
    pub start: u64,
    pub milliseconds: u64,
}

/// How the evaluation of a node ended.
#[derive(Debug)]
pub enum Outcome<'a> {
    /// It ran to the end, with this result.
    Done(Result<Value, EvalError>),
    /// The deadline with this index (counted from the outermost active
    /// one) passed: everything up to its `Timeout` is abandoned.
    Cancelled(usize),
    /// It needs an answer to this request first.
    Suspended(Request<'a>),
}

/// What one evaluation reads: the program, the captured frames, the number
/// of registered hooks and the host's answers so far.
pub struct Run<'a> {
    pub program: &'a Vec<Stmt>,
    pub frames: &'a Vec<Env>,
    pub hooks: usize,
    pub answers: &'a Vec<Answer>,
}

/// A node's result once a post-callback failed with `e`: the error
/// replaces a success and is joined after a pending error.
pub open spec fn merge(result: Result<Value, EvalError>, e: EvalError) -> Result<Value, EvalError> {
    match result {
        Ok(_) => Err(e),
        Err(p) => Err(EvalError::Combined(Box::new(p), Box::new(e))),
    }
}

/// A cancellation that reached the `Timeout` whose deadline has index `n`
/// becomes that `Timeout`'s error.
pub open spec fn settle<'a>(o: Outcome<'a>, n: int) -> Outcome<'a> {
    match o {
        Outcome::Cancelled(i) => if i == n {
            Outcome::Done(Err(EvalError::Timeout))
        } else {
            o
        },
        _ => o,
    }
}

/// `m` with the parameters bound in order to the values, a later
/// parameter of the same name winning.
pub open spec fn bind(m: Map<Seq<char>, Value>, params: Seq<Param>, vals: Seq<Value>) -> Map<
    Seq<char>,
    Value,
>
    decreases params.len(),
{
    if params.len() == 0 || vals.len() == 0 {
        m
    } else {
        bind(m, params.drop_last(), vals.drop_last()).insert(params.last().name@, vals.last())
    }
}

/// Whether the deadline has passed when the clock reads `now`.
pub open spec fn passed(d: Deadline, now: u64) -> bool {
    now as int > d.start as int + d.milliseconds as int
}

/// The first deadline from index `i` on that has passed at `now`.
pub open spec fn first_passed(dl: Seq<Deadline>, now: u64, i: int) -> Option<usize>
    decreases dl.len() - i,
{
    if i < 0 || i >= dl.len() {
        None
    } else if passed(dl[i], now) {
        Some(i as usize)
    } else {
        first_passed(dl, now, i + 1)
    }
}

/// An independent copy of an error.
pub fn copy_error(e: &EvalError) -> (r: EvalError)
    ensures
        r == *e,
    decreases e,
{
    match e {
        EvalError::UnboundVariable(x) => EvalError::UnboundVariable(x.clone()),
        EvalError::TypeMismatch { operation, expected, found } => EvalError::TypeMismatch {
            operation: *operation,
            expected: *expected,
            found: *found,
        },
        EvalError::ExpectedClosure => EvalError::ExpectedClosure,
        EvalError::ArityMismatch { expected, found } => EvalError::ArityMismatch {
            expected: *expected,
            found: *found,
        },
        EvalError::CallDepthExceeded => EvalError::CallDepthExceeded,
        EvalError::Timeout => EvalError::Timeout,
        EvalError::Instrumentation(m) => EvalError::Instrumentation(m.clone()),
        EvalError::Combined(a, b) => EvalError::Combined(
            Box::new(copy_error(a)),
            Box::new(copy_error(b)),
        ),
        EvalError::BadAnswer => EvalError::BadAnswer,
    }
}

/// An independent copy of a result.
pub fn copy_result(r: &Result<Value, EvalError>) -> (c: Result<Value, EvalError>)
    ensures
        c == *r,
{
    match r {
        Ok(v) => Ok(*v),
        Err(e) => Err(copy_error(e)),
    }
}

fn settle_exec<'a>(o: Outcome<'a>, n: usize) -> (r: Outcome<'a>)
    ensures
        r == settle(o, n as int),
{
    match o {
        Outcome::Cancelled(i) => if i == n {
            Outcome::Done(Err(EvalError::Timeout))
        } else {
            o
        },
        _ => o,
    }
}

fn merge_error(result: Result<Value, EvalError>, e: EvalError) -> (r: Result<Value, EvalError>)
    ensures
        r == merge(result, e),
{
    match result {
        Ok(_) => Err(e),
        Err(p) => Err(EvalError::Combined(Box::new(p), Box::new(e))),
    }
}

fn first_passed_exec(dl: &Vec<Deadline>, now: u64) -> (r: Option<usize>)
    ensures
        r == first_passed(dl@, now, 0),
{
    let mut i: usize = 0;
    while i < dl.len()
        invariant
            0 <= i <= dl@.len(),
            first_passed(dl@, now, 0) == first_passed(dl@, now, i as int),
        decreases dl@.len() - i,
    {
        let d = dl[i];
        if now > d.start && now - d.start > d.milliseconds {
            return Some(i);
        }
        i = i + 1;
    }
    None
}

impl<'a> Run<'a> {
    /// The answer at position `pos`, if it has come.
    pub open spec fn answer_at(self, pos: int) -> Option<&'a Answer> {
        if 0 <= pos < self.answers@.len() {
            Some(&self.answers@[pos])
        } else {
            None
        }
    }

    /// Reads the clock against the active deadlines.
    pub open spec fn clock_check(self, dl: Seq<Deadline>, pos: int) -> (Option<Outcome<'a>>, int) {
        match self.answer_at(pos) {
            None => (Some(Outcome::Suspended(Request::Clock)), pos),
            Some(Answer::Time(now)) => match first_passed(dl, *now, 0) {
                Some(i) => (Some(Outcome::Cancelled(i)), pos + 1),
                None => (None, pos + 1),
            },
            Some(_) => (Some(Outcome::Done(Err(EvalError::BadAnswer))), pos + 1),
        }
    }

    /// The pre-callbacks of hooks `i` and on, in registration order; `None`
    /// where all of them succeeded.
    pub open spec fn pre_hooks(self, node: Node<'a>, i: int, pos: int) -> (Option<Outcome<'a>>, int)
        decreases self.hooks - i,
    {
        if i < 0 || i >= self.hooks {
            (None, pos)
        } else {
            match self.answer_at(pos) {
                None => (Some(Outcome::Suspended(Request::Pre { hook: i as usize, node })), pos),
                Some(Answer::Proceed) => self.pre_hooks(node, i + 1, pos + 1),
                Some(Answer::Fail(m)) => (
                    Some(Outcome::Done(Err(EvalError::Instrumentation(*m)))),
                    pos + 1,
                ),
                Some(_) => (Some(Outcome::Done(Err(EvalError::BadAnswer))), pos + 1),
            }
        }
    }

    /// Entering a node: the deadline check, where a `Timeout` is active,
    /// then the pre-callbacks.
    pub open spec fn enter(self, dl: Seq<Deadline>, node: Node<'a>, pos: int) -> (
        Option<Outcome<'a>>,
        int,
    ) {
        let (c, p) = if dl.len() == 0 {
            (None, pos)
        } else {
            self.clock_check(dl, pos)
        };
        if c is Some {
            (c, p)
        } else {
            self.pre_hooks(node, 0, p)
        }
    }

    /// The post-callbacks of hooks `n - 1` down to `0` on `result`.
    pub open spec fn post_hooks(
        self,
        node: Node<'a>,
        n: int,
        result: Result<Value, EvalError>,
        pos: int,
    ) -> (Outcome<'a>, int)
        decreases n,
    {
        if n <= 0 {
            (Outcome::Done(result), pos)
        } else {
            match self.answer_at(pos) {
                None => (
                    Outcome::Suspended(Request::Post { hook: (n - 1) as usize, node, result }),
                    pos,
                ),
                Some(Answer::Proceed) => self.post_hooks(node, n - 1, result, pos + 1),
                Some(Answer::Fail(m)) => self.post_hooks(
                    node,
                    n - 1,
                    merge(result, EvalError::Instrumentation(*m)),
                    pos + 1,
                ),
                Some(_) => self.post_hooks(
                    node,
                    n - 1,
                    merge(result, EvalError::BadAnswer),
                    pos + 1,
                ),
            }
        }
    }

    /// Leaving a node: the post-callbacks, in reverse registration order,
    /// where the node ran to the end.
    pub open spec fn leave(self, node: Node<'a>, o: Outcome<'a>, pos: int) -> (Outcome<'a>, int) {
        match o {
            Outcome::Done(result) => self.post_hooks(node, self.hooks as int, result, pos),
            _ => (o, pos),
        }
    }


    /// Applies an arithmetic operator to two values.
    pub open spec fn arith(self, op: Operator, a: Value, b: Value, pos: int) -> (Outcome<'a>, int) {
        match (a, b) {
            (Value::Number(x), Value::Number(y)) => match self.answer_at(pos) {
                None => (Outcome::Suspended(Request::Arithmetic { op, lhs: x, rhs: y }), pos),
                Some(Answer::Number(n)) => (Outcome::Done(Ok(Value::Number(*n))), pos + 1),
                Some(_) => (Outcome::Done(Err(EvalError::BadAnswer)), pos + 1),
            },
            _ => (
                Outcome::Done(
                    Err(
                        EvalError::TypeMismatch {
                            operation: op,
                            expected: Kind::Number,
                            found: Kind::Closure,
                        },
                    ),
                ),
                pos,
            ),
        }
    }

    /// The evaluation of an expression, with the hooks around it.
    pub open spec fn expr_outcome(
        self,
        env: Map<Seq<char>, Value>,
        dl: Seq<Deadline>,
        fuel: nat,
        e: &'a Expr,
        pos: int,
    ) -> (Outcome<'a>, int)
        decreases fuel, e, 1int,
    {
        let (g, p) = self.enter(dl, Node::Expr(e), pos);
        match g {
            Some(o) => (o, p),
            None => {
                let (o, q) = self.expr_inner(env, dl, fuel, e, p);
                self.leave(Node::Expr(e), o, q)
            },
        }
    }

    /// The evaluation of an expression itself.
    pub open spec fn expr_inner(
        self,
        env: Map<Seq<char>, Value>,
        dl: Seq<Deadline>,
        fuel: nat,
        e: &'a Expr,
        pos: int,
    ) -> (Outcome<'a>, int)
        decreases fuel, e, 0int,
    {
        match e {
            Expr::Factor(f) => self.factor_outcome(env, dl, fuel, f, pos),
            Expr::BinaryOp { op, lhs, rhs } => {
                let (l, p) = self.expr_outcome(env, dl, fuel, lhs, pos);
                match l {
                    Outcome::Done(Ok(a)) => {
                        let (r, q) = self.expr_outcome(env, dl, fuel, rhs, p);
                        match r {
                            Outcome::Done(Ok(b)) => self.arith(op.spec_operator(), a, b, q),
                            _ => (r, q),
                        }
                    },
                    _ => (l, p),
                }
            },
        }
    }

    /// The evaluation of a factor, with the hooks around it.
    pub open spec fn factor_outcome(
        self,
        env: Map<Seq<char>, Value>,
        dl: Seq<Deadline>,
        fuel: nat,
        f: &'a Factor,
        pos: int,
    ) -> (Outcome<'a>, int)
        decreases fuel, f, 1int,
    {
        let (g, p) = self.enter(dl, Node::Factor(f), pos);
        match g {
            Some(o) => (o, p),
            None => {
                let (o, q) = self.factor_inner(env, dl, fuel, f, p);
                self.leave(Node::Factor(f), o, q)
            },
        }
    }

    /// The evaluation of a factor itself.
    pub open spec fn factor_inner(
        self,
        env: Map<Seq<char>, Value>,
        dl: Seq<Deadline>,
        fuel: nat,
        f: &'a Factor,
        pos: int,
    ) -> (Outcome<'a>, int)
        decreases fuel, f, 0int,
    {
        match f {
            Factor::Literal(n) => (Outcome::Done(Ok(Value::Number(*n))), pos),
            Factor::Variable(x) => match lookup(env, x@) {
                Some(v) => (Outcome::Done(Ok(v)), pos),
                None => (Outcome::Done(Err(EvalError::UnboundVariable(*x))), pos),
            },
            Factor::Group(e) => self.expr_outcome(env, dl, fuel, e, pos),
            Factor::BinaryOp { op, lhs, rhs } => {
                let (l, p) = self.factor_outcome(env, dl, fuel, lhs, pos);
                match l {
                    Outcome::Done(Ok(a)) => {
                        let (r, q) = self.factor_outcome(env, dl, fuel, rhs, p);
                        match r {
                            Outcome::Done(Ok(b)) => self.arith(op.spec_operator(), a, b, q),
                            _ => (r, q),
                        }
                    },
                    _ => (l, p),
                }
            },
            Factor::Call(callee, args) => {
                let (c, p) = self.factor_outcome(env, dl, fuel, callee, pos);
                match c {
                    Outcome::Done(Ok(v)) => self.call(env, dl, fuel, v, args, p),
                    _ => (c, p),
                }
            },
            Factor::Timeout { milliseconds, expr } => match self.answer_at(pos) {
                None => (Outcome::Suspended(Request::Clock), pos),
                Some(Answer::Time(now)) => {
                    let inner = dl.push(Deadline { start: *now, milliseconds: *milliseconds });
                    let (o, p) = self.expr_outcome(env, inner, fuel, expr, pos + 1);
                    match o {
                        Outcome::Done(res) => {
                            let (c, q) = self.clock_check(inner, p);
                            match c {
                                None => (Outcome::Done(res), q),
                                Some(c) => (settle(c, dl.len() as int), q),
                            }
                        },
                        _ => (settle(o, dl.len() as int), p),
                    }
                },
                Some(_) => (Outcome::Done(Err(EvalError::BadAnswer)), pos + 1),
            },
            Factor::Yield(e) => match self.answer_at(pos) {
                None => (Outcome::Suspended(Request::Yield), pos),
                Some(Answer::Proceed) => self.expr_outcome(env, dl, fuel, e, pos + 1),
                Some(_) => (Outcome::Done(Err(EvalError::BadAnswer)), pos + 1),
            },
        }
    }

    /// The function of the `fun` statement at index `k`, if there is one.
    pub open spec fn function_at(self, k: usize) -> Option<&'a Function> {
        if k < self.program@.len() {
            match &self.program@[k as int] {
                Stmt::Fun(_, func) => Some(&**func),
                _ => None,
            }
        } else {
            None
        }
    }

    /// Calling `v` on `args`: the arguments are evaluated left to right in
    /// the caller's environment, then the body in a new environment, the
    /// closure's captured one with each parameter bound to its argument.
    /// The caller's environment is never touched, so it is the same after
    /// the call however the call ends. A call with more or fewer arguments
    /// than parameters is an error. A closure that names no `fun` statement
    /// or no captured frame (evaluation makes none) counts as no closure.
    pub open spec fn call(
        self,
        env: Map<Seq<char>, Value>,
        dl: Seq<Deadline>,
        fuel: nat,
        v: Value,
        args: &'a Vec<Expr>,
        pos: int,
    ) -> (Outcome<'a>, int)
        decreases fuel, args, args@.len() + 1,
    {
        match v {
            Value::Closure(c) => match self.function_at(c.function) {
                Some(func) => if c.env >= self.frames@.len() {
                    (Outcome::Done(Err(EvalError::ExpectedClosure)), pos)
                } else if func.params@.len() != args@.len() {
                    (
                        Outcome::Done(
                            Err(
                                EvalError::ArityMismatch {
                                    expected: func.params@.len() as usize,
                                    found: args@.len() as usize,
                                },
                            ),
                        ),
                        pos,
                    )
                } else if fuel == 0 {
                    (Outcome::Done(Err(EvalError::CallDepthExceeded)), pos)
                } else {
                    let (a, p) = self.args_outcome(env, dl, fuel, args, 0, Seq::empty(), pos);
                    match a {
                        Ok(vals) => self.expr_outcome(
                            bind(self.frames@[c.env as int]@, func.params@, vals),
                            dl,
                            (fuel - 1) as nat,
                            &func.body,
                            p,
                        ),
                        Err(o) => (o, p),
                    }
                },
                None => (Outcome::Done(Err(EvalError::ExpectedClosure)), pos),
            },
            _ => (Outcome::Done(Err(EvalError::ExpectedClosure)), pos),
        }
    }

    /// Evaluates `args[i..]` left to right after the values `acc`.
    pub open spec fn args_outcome(
        self,
        env: Map<Seq<char>, Value>,
        dl: Seq<Deadline>,
        fuel: nat,
        args: &'a Vec<Expr>,
        i: int,
        acc: Seq<Value>,
        pos: int,
    ) -> (Result<Seq<Value>, Outcome<'a>>, int)
        decreases fuel, args, args@.len() - i,
    {
        if i < 0 || i >= args@.len() {
            (Ok(acc), pos)
        } else {
            let (o, p) = self.expr_outcome(env, dl, fuel, &args@[i], pos);
            match o {
                Outcome::Done(Ok(v)) => self.args_outcome(env, dl, fuel, args, i + 1, acc.push(v), p),
                _ => (Err(o), p),
            }
        }
    }

    /// Every captured frame binds each identifier at most once.
    pub open spec fn frames_wf(self) -> bool {
        forall|j: int| 0 <= j < self.frames@.len() ==> #[trigger] self.frames@[j].wf()
    }

    fn exec_arith(&self, op: Operator, a: Value, b: Value, pos: usize) -> (r: (Outcome<'a>, usize))
        requires
            pos <= self.answers@.len(),
        ensures
            r.0 == self.arith(op, a, b, pos as int).0,
            r.1 == self.arith(op, a, b, pos as int).1,
            r.1 <= self.answers@.len(),
    {
        match (a, b) {
            (Value::Number(x), Value::Number(y)) => {
                if pos >= self.answers.len() {
                    return (Outcome::Suspended(Request::Arithmetic { op, lhs: x, rhs: y }), pos);
                }
                match &self.answers[pos] {
                    Answer::Number(n) => (Outcome::Done(Ok(Value::Number(*n))), pos + 1),
                    _ => (Outcome::Done(Err(EvalError::BadAnswer)), pos + 1),
                }
            },
            _ => (
                Outcome::Done(
                    Err(
                        EvalError::TypeMismatch {
                            operation: op,
                            expected: Kind::Number,
                            found: Kind::Closure,
                        },
                    ),
                ),
                pos,
            ),
        }
    }

    /// Evaluates an expression in `env`, under the deadlines `dl` of the
    /// enclosing `Timeout`s, with calls nested at most `fuel` deep, reading
    /// answers from position `pos` on: its outcome and the position of the
    /// next answer.
    pub fn eval_expr(&self, env: &Env, dl: &mut Vec<Deadline>, fuel: usize, e: &'a Expr, pos: usize) -> (r: (
        Outcome<'a>,
        usize,
    ))
        requires
            env.wf(),
            self.frames_wf(),
            pos <= self.answers@.len(),
        ensures
            r.0 == self.expr_outcome(env@, old(dl)@, fuel as nat, e, pos as int).0,
            r.1 == self.expr_outcome(env@, old(dl)@, fuel as nat, e, pos as int).1,
            r.1 <= self.answers@.len(),
            final(dl)@ == old(dl)@,
        decreases fuel, e, 1int,
    {
        let (g, p) = self.exec_enter(dl, Node::Expr(e), pos);
        match g {
            Some(o) => (o, p),
            None => {
                let (o, q) = self.eval_expr_inner(env, dl, fuel, e, p);
                self.exec_leave(Node::Expr(e), o, q)
            },
        }
    }

    fn eval_expr_inner(
        &self,
        env: &Env,
        dl: &mut Vec<Deadline>,
        fuel: usize,
        e: &'a Expr,
        pos: usize,
    ) -> (r: (Outcome<'a>, usize))
        requires
            env.wf(),
            self.frames_wf(),
            pos <= self.answers@.len(),
        ensures
            r.0 == self.expr_inner(env@, old(dl)@, fuel as nat, e, pos as int).0,
            r.1 == self.expr_inner(env@, old(dl)@, fuel as nat, e, pos as int).1,
            r.1 <= self.answers@.len(),
            final(dl)@ == old(dl)@,
        decreases fuel, e, 0int,
    {
        match e {
            Expr::Factor(f) => self.eval_factor(env, dl, fuel, f, pos),
            Expr::BinaryOp { op, lhs, rhs } => {
                let (l, p) = self.eval_expr(env, dl, fuel, lhs, pos);
                let a = match l {
                    Outcome::Done(Ok(a)) => a,
                    _ => {
                        return (l, p);
                    },
                };
                let (r, q) = self.eval_expr(env, dl, fuel, rhs, p);
                let b = match r {
                    Outcome::Done(Ok(b)) => b,
                    _ => {
                        return (r, q);
                    },
                };
                self.exec_arith(op.operator(), a, b, q)
            },
        }
    }

    /// Evaluates a factor as [`Run::eval_expr`] evaluates an expression.
    pub fn eval_factor(&self, env: &Env, dl: &mut Vec<Deadline>, fuel: usize, f: &'a Factor, pos: usize) -> (r: (
        Outcome<'a>,
        usize,
    ))
        requires
            env.wf(),
            self.frames_wf(),
            pos <= self.answers@.len(),
        ensures
            r.0 == self.factor_outcome(env@, old(dl)@, fuel as nat, f, pos as int).0,
            r.1 == self.factor_outcome(env@, old(dl)@, fuel as nat, f, pos as int).1,
            r.1 <= self.answers@.len(),
            final(dl)@ == old(dl)@,
        decreases fuel, f, 1int,
    {
        let (g, p) = self.exec_enter(dl, Node::Factor(f), pos);
        match g {
            Some(o) => (o, p),
            None => {
                let (o, q) = self.eval_factor_inner(env, dl, fuel, f, p);
                self.exec_leave(Node::Factor(f), o, q)
            },
        }
    }

    fn eval_factor_inner(
        &self,
        env: &Env,
        dl: &mut Vec<Deadline>,
        fuel: usize,
        f: &'a Factor,
        pos: usize,
    ) -> (r: (Outcome<'a>, usize))
        requires
            env.wf(),
            self.frames_wf(),
            pos <= self.answers@.len(),
        ensures
            r.0 == self.factor_inner(env@, old(dl)@, fuel as nat, f, pos as int).0,
            r.1 == self.factor_inner(env@, old(dl)@, fuel as nat, f, pos as int).1,
            r.1 <= self.answers@.len(),
            final(dl)@ == old(dl)@,
        decreases fuel, f, 0int,
    {
        match f {
            Factor::Literal(n) => (Outcome::Done(Ok(Value::Number(*n))), pos),
            Factor::Variable(x) => match env.find(x) {
                Some(v) => (Outcome::Done(Ok(v)), pos),
                None => (Outcome::Done(Err(EvalError::UnboundVariable(x.clone()))), pos),
            },
            Factor::Group(e) => self.eval_expr(env, dl, fuel, e, pos),
            Factor::BinaryOp { op, lhs, rhs } => {
                let (l, p) = self.eval_factor(env, dl, fuel, lhs, pos);
                let a = match l {
                    Outcome::Done(Ok(a)) => a,
                    _ => {
                        return (l, p);
                    },
                };
                let (r, q) = self.eval_factor(env, dl, fuel, rhs, p);
                let b = match r {
                    Outcome::Done(Ok(b)) => b,
                    _ => {
                        return (r, q);
                    },
                };
                self.exec_arith(op.operator(), a, b, q)
            },
            Factor::Call(callee, args) => {
                let (c, p) = self.eval_factor(env, dl, fuel, callee, pos);
                let v = match c {
                    Outcome::Done(Ok(v)) => v,
                    _ => {
                        return (c, p);
                    },
                };
                self.exec_call(env, dl, fuel, v, args, p)
            },
            Factor::Timeout { milliseconds, expr } => {
                if pos >= self.answers.len() {
                    return (Outcome::Suspended(Request::Clock), pos);
                }
                let now: u64 = match &self.answers[pos] {
                    Answer::Time(now) => *now,
                    _ => {
                        return (Outcome::Done(Err(EvalError::BadAnswer)), pos + 1);
                    },
                };
                let n: usize = dl.len();
                dl.push(Deadline { start: now, milliseconds: *milliseconds });
                let (o, p) = self.eval_expr(env, dl, fuel, expr, pos + 1);
                let r = match o {
                    Outcome::Done(res) => {
                        let (c, q) = self.exec_clock_check(dl, p);
                        match c {
                            None => (Outcome::Done(res), q),
                            Some(c) => (settle_exec(c, n), q),
                        }
                    },
                    _ => (settle_exec(o, n), p),
                };
                dl.pop();
                r
            },
            Factor::Yield(e) => {
                if pos >= self.answers.len() {
                    return (Outcome::Suspended(Request::Yield), pos);
                }
                match &self.answers[pos] {
                    Answer::Proceed => self.eval_expr(env, dl, fuel, e, pos + 1),
                    _ => (Outcome::Done(Err(EvalError::BadAnswer)), pos + 1),
                }
            },
        }
    }

    fn exec_call(
        &self,
        env: &Env,
        dl: &mut Vec<Deadline>,
        fuel: usize,
        v: Value,
        args: &'a Vec<Expr>,
        pos: usize,
    ) -> (r: (Outcome<'a>, usize))
        requires
            env.wf(),
            self.frames_wf(),
            pos <= self.answers@.len(),
        ensures
            r.0 == self.call(env@, old(dl)@, fuel as nat, v, args, pos as int).0,
            r.1 == self.call(env@, old(dl)@, fuel as nat, v, args, pos as int).1,
            r.1 <= self.answers@.len(),
            final(dl)@ == old(dl)@,
        decreases fuel, args, args@.len() + 1,
    {
        let c = match v {
            Value::Closure(c) => c,
            _ => {
                return (Outcome::Done(Err(EvalError::ExpectedClosure)), pos);
            },
        };
        let program: &'a Vec<Stmt> = self.program;
        if c.function >= program.len() {
            return (Outcome::Done(Err(EvalError::ExpectedClosure)), pos);
        }
        let func: &'a Function = match &program[c.function] {
            Stmt::Fun(_, func) => func,
            _ => {
                return (Outcome::Done(Err(EvalError::ExpectedClosure)), pos);
            },
        };
        assert(self.function_at(c.function) == Some(func));
        if c.env >= self.frames.len() {
            return (Outcome::Done(Err(EvalError::ExpectedClosure)), pos);
        }
        if func.params.len() != args.len() {
            return (
                Outcome::Done(
                    Err(
                        EvalError::ArityMismatch {
                            expected: func.params.len(),
                            found: args.len(),
                        },
                    ),
                ),
                pos,
            );
        }
        if fuel == 0 {
            return (Outcome::Done(Err(EvalError::CallDepthExceeded)), pos);
        }
        let mut vals: Vec<Value> = Vec::new();
        let mut i: usize = 0;
        let mut p: usize = pos;
        while i < args.len()
            invariant
                env.wf(),
                self.frames_wf(),
                p <= self.answers@.len(),
                0 <= i <= args@.len(),
                dl@ == old(dl)@,
                v == Value::Closure(c),
                self.function_at(c.function) == Some(func),
                c.env < self.frames@.len(),
                func.params@.len() == args@.len(),
                fuel > 0,
                vals@.len() == i,
                self.args_outcome(env@, dl@, fuel as nat, args, 0, Seq::empty(), pos as int)
                    == self.args_outcome(env@, dl@, fuel as nat, args, i as int, vals@, p as int),
            decreases args@.len() - i,
        {
            let (o, q) = self.eval_expr(env, dl, fuel, &args[i], p);
            let ghost og = o;
            match o {
                Outcome::Done(Ok(v)) => {
                    vals.push(v);
                },
                _ => {
                    assert(self.args_outcome(env@, dl@, fuel as nat, args, i as int, vals@, p as int)
                        == (Err::<Seq<Value>, Outcome<'a>>(og), q as int));
                    return (o, q);
                },
            }
            i = i + 1;
            p = q;
        }
        let mut frame = self.frames[c.env].copy();
        let mut k: usize = 0;
        while k < func.params.len()
            invariant
                frame.wf(),
                c.env < self.frames@.len(),
                0 <= k <= func.params@.len(),
                vals@.len() == func.params@.len(),
                frame@ == bind(
                    self.frames@[c.env as int]@,
                    func.params@.take(k as int),
                    vals@.take(k as int),
                ),
            decreases func.params@.len() - k,
        {
            proof {
                assert(func.params@.take(k + 1).drop_last() =~= func.params@.take(k as int));
                assert(vals@.take(k + 1).drop_last() =~= vals@.take(k as int));
            }
            frame.insert(func.params[k].name.clone(), vals[k]);
            k = k + 1;
        }
        proof {
            assert(func.params@.take(k as int) =~= func.params@);
            assert(vals@.take(k as int) =~= vals@);
        }
        self.eval_expr(&frame, dl, fuel - 1, &func.body, p)
    }

    /// The evaluation of statement `index`, with the hooks around it: its
    /// outcome, the value it bound to its name where it got that far, and
    /// the position of the next answer.
    pub open spec fn stmt_outcome(self, env: Map<Seq<char>, Value>, index: int, pos: int) -> (
        Outcome<'a>,
        Option<Value>,
        int,
    ) {
        let s = &self.program@[index];
        let (g, p) = self.enter(Seq::empty(), Node::Stmt(s), pos);
        match g {
            Some(o) => (o, None, p),
            None => {
                let (o, b, q) = match s {
                    Stmt::Let(_, _, e) => {
                        let (o, q) = self.expr_outcome(
                            env,
                            Seq::empty(),
                            MAX_CALL_DEPTH as nat,
                            e,
                            p,
                        );
                        match o {
                            Outcome::Done(Ok(v)) => (o, Some(v), q),
                            _ => (o, None, q),
                        }
                    },
                    Stmt::Fun(_, _) => {
                        let v = Value::Closure(
                            Closure { function: index as usize, env: self.frames@.len() as usize },
                        );
                        (Outcome::Done(Ok(v)), Some(v), p)
                    },
                };
                let (o2, r) = self.leave(Node::Stmt(s), o, q);
                (o2, b, r)
            },
        }
    }

    /// Evaluates statement `index` of the program in `env`, reading answers
    /// from position `pos` on.
    pub fn eval_stmt(&self, env: &Env, index: usize, pos: usize) -> (r: (Outcome<'a>, Option<Value>, usize))
        requires
            env.wf(),
            self.frames_wf(),
            index < self.program@.len(),
            pos <= self.answers@.len(),
        ensures
            r.0 == self.stmt_outcome(env@, index as int, pos as int).0,
            r.1 == self.stmt_outcome(env@, index as int, pos as int).1,
            r.2 == self.stmt_outcome(env@, index as int, pos as int).2,
            r.2 <= self.answers@.len(),
    {
        let program: &'a Vec<Stmt> = self.program;
        let s: &'a Stmt = &program[index];
        let mut dl: Vec<Deadline> = Vec::new();
        let (g, p) = self.exec_enter(&dl, Node::Stmt(s), pos);
        if let Some(o) = g {
            return (o, None, p);
        }
        let (o, b, q) = match s {
            Stmt::Let(_, _, e) => {
                let (o, q) = self.eval_expr(env, &mut dl, MAX_CALL_DEPTH, e, p);
                let b = match o {
                    Outcome::Done(Ok(v)) => Some(v),
                    _ => None,
                };
                (o, b, q)
            },
            Stmt::Fun(_, _) => {
                let v = Value::Closure(Closure { function: index, env: self.frames.len() });
                (Outcome::Done(Ok(v)), Some(v), p)
            },
        };
        let (o2, r) = self.exec_leave(Node::Stmt(s), o, q);
        (o2, b, r)
    }

    fn exec_clock_check(&self, dl: &Vec<Deadline>, pos: usize) -> (r: (Option<Outcome<'a>>, usize))
        requires
            pos <= self.answers@.len(),
        ensures
            r.0 == self.clock_check(dl@, pos as int).0,
            r.1 == self.clock_check(dl@, pos as int).1,
            r.1 <= self.answers@.len(),
    {
        if pos >= self.answers.len() {
            return (Some(Outcome::Suspended(Request::Clock)), pos);
        }
        match &self.answers[pos] {
            Answer::Time(now) => match first_passed_exec(dl, *now) {
                Some(i) => (Some(Outcome::Cancelled(i)), pos + 1),
                None => (None, pos + 1),
            },
            _ => (Some(Outcome::Done(Err(EvalError::BadAnswer))), pos + 1),
        }
    }

    fn exec_enter(&self, dl: &Vec<Deadline>, node: Node<'a>, pos: usize) -> (r: (
        Option<Outcome<'a>>,
        usize,
    ))
        requires
            pos <= self.answers@.len(),
        ensures
            r.0 == self.enter(dl@, node, pos as int).0,
            r.1 == self.enter(dl@, node, pos as int).1,
            r.1 <= self.answers@.len(),
    {
        let mut p: usize = pos;
        if dl.len() > 0 {
            let (c, q) = self.exec_clock_check(dl, pos);
            if c.is_some() {
                return (c, q);
            }
            p = q;
        }
        let mut i: usize = 0;
        while i < self.hooks
            invariant
                p <= self.answers@.len(),
                0 <= i <= self.hooks,
                self.enter(dl@, node, pos as int) == self.pre_hooks(node, i as int, p as int),
            decreases self.hooks - i,
        {
            if p >= self.answers.len() {
                return (Some(Outcome::Suspended(Request::Pre { hook: i, node })), p);
            }
            match &self.answers[p] {
                Answer::Proceed => {},
                Answer::Fail(m) => {
                    return (
                        Some(Outcome::Done(Err(EvalError::Instrumentation(m.clone())))),
                        p + 1,
                    );
                },
                _ => {
                    return (Some(Outcome::Done(Err(EvalError::BadAnswer))), p + 1);
                },
            }
            i = i + 1;
            p = p + 1;
        }
        (None, p)
    }

    fn exec_leave(&self, node: Node<'a>, o: Outcome<'a>, pos: usize) -> (r: (Outcome<'a>, usize))
        requires
            pos <= self.answers@.len(),
        ensures
            r.0 == self.leave(node, o, pos as int).0,
            r.1 == self.leave(node, o, pos as int).1,
            r.1 <= self.answers@.len(),
    {
        let ghost o0 = o;
        let mut result = match o {
            Outcome::Done(result) => result,
            _ => {
                return (o, pos);
            },
        };
        let mut n: usize = self.hooks;
        let mut p: usize = pos;
        while n > 0
            invariant
                p <= self.answers@.len(),
                0 <= n <= self.hooks,
                o0 == o,
                self.leave(node, o0, pos as int) == self.post_hooks(
                    node,
                    n as int,
                    result,
                    p as int,
                ),
            decreases n,
        {
            if p >= self.answers.len() {
                return (Outcome::Suspended(Request::Post { hook: n - 1, node, result }), p);
            }
            match &self.answers[p] {
                Answer::Proceed => {},
                Answer::Fail(m) => {
                    result = merge_error(result, EvalError::Instrumentation(m.clone()));
                },
                _ => {
                    result = merge_error(result, EvalError::BadAnswer);
                },
            }
            n = n - 1;
            p = p + 1;
        }
        (Outcome::Done(result), p)
    }
}

} // verus!
