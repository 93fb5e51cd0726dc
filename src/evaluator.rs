//! The evaluator of a whole program: it owns the statements, the
//! environment threaded through them, the frames that closures captured and
//! the host's answers, and moves from statement to statement.
use vstd::prelude::*;

use crate::ast::{Number, Stmt};
use crate::env::{lookup, Closure, Env, Value};
use crate::eval::{copy_result, Answer, EvalError, Outcome, Request, Run};

verus! {

/// Where evaluation stands.
#[derive(Debug)]
pub enum Step<'a> {
    /// The current statement waits for the host's answer to this request.
    Request(Request<'a>),
    /// The current statement can be completed: call [`Evaluator::advance`].
    Ready,
    /// Evaluation has ended with this result.
    Finished(Result<Value, EvalError>),
}

/// Evaluates a program statement by statement, in a fresh environment,
/// stopping at the first statement that fails. Drive it with
/// [`Evaluator::advance`] and [`Evaluator::step`], answering each request
/// with [`Evaluator::answer`].
pub struct Evaluator {
    program: Vec<Stmt>,
    hooks: usize,
    answers: Vec<Answer>,
    env: Env,
    frames: Vec<Env>,
    next: usize,
    start: usize,
    last: Value,
    result: Option<Result<Value, EvalError>>,
}

/// The mappings that a list of environments describes.
pub open spec fn frame_views(frames: Seq<Env>) -> Seq<Map<Seq<char>, Value>> {
    frames.map_values(|e: Env| e@)
}

/// The name that a statement binds.
pub open spec fn bound_name(s: Stmt) -> Seq<char> {
    match s {
        Stmt::Let(name, _, _) => name@,
        Stmt::Fun(name, _) => name@,
    }
}

/// `env` after a statement bound `b` (if anything) to its name.
pub open spec fn with_binding(env: Map<Seq<char>, Value>, s: Stmt, b: Option<Value>) -> Map<
    Seq<char>,
    Value,
> {
    match b {
        Some(v) => env.insert(bound_name(s), v),
        None => env,
    }
}

/// The result that a statement's outcome gives the whole program, if it
/// ends it.
pub open spec fn final_result(o: Outcome, last_statement: bool) -> Option<Result<Value, EvalError>> {
    match o {
        Outcome::Done(Ok(v)) => if last_statement {
            Some(Ok(v))
        } else {
            None
        },
        Outcome::Done(Err(e)) => Some(Err(e)),
        _ => Some(Err(EvalError::Timeout)),
    }
}

/// The value of an empty program: the number zero.
pub open spec fn zero() -> Value {
    Value::Number(Number { bits: 0 })
}

/// `after` is `before` once [`Evaluator::advance`] returned `progressed`.
/// It moves only where the current statement's evaluation has run to the
/// end over the answers so far: then the statement's binding is applied (a
/// `fun` statement first freezes the environment as a new frame), the next
/// statement becomes current, and evaluation ends where the statement
/// failed or was the last one.
pub open spec fn advanced(before: &Evaluator, after: &Evaluator, progressed: bool) -> bool {
    let (o, b, p) = before.current();
    let s = before.spec_program()[before.spec_next() as int];
    if before.spec_result() is Some || o is Suspended {
        !progressed && after.same_state(before)
    } else {
        &&& progressed
        &&& after.spec_program() == before.spec_program()
        &&& after.spec_hooks() == before.spec_hooks()
        &&& after.spec_answers() == before.spec_answers()
        &&& after.spec_env() == with_binding(before.spec_env(), s, b)
        &&& after.spec_frames() == (if s is Fun && b is Some {
            before.spec_frames().push(before.spec_env())
        } else {
            before.spec_frames()
        })
        &&& after.spec_next() == before.spec_next() + 1
        &&& after.spec_start() == p
        &&& after.spec_last() == (match o {
            Outcome::Done(Ok(v)) => v,
            _ => before.spec_last(),
        })
        &&& after.spec_result() == final_result(
            o,
            before.spec_next() + 1 == before.spec_program().len(),
        )
    }
}

impl Evaluator {
    pub closed spec fn spec_program(&self) -> Seq<Stmt> {
        self.program@
    }

    pub closed spec fn spec_hooks(&self) -> nat {
        self.hooks as nat
    }

    pub closed spec fn spec_answers(&self) -> Seq<Answer> {
        self.answers@
    }

    /// The current environment.
    pub closed spec fn spec_env(&self) -> Map<Seq<char>, Value> {
        self.env@
    }

    /// The frames captured by closures, in the order of their `fun`
    /// statements.
    pub closed spec fn spec_frames(&self) -> Seq<Map<Seq<char>, Value>> {
        frame_views(self.frames@)
    }

    /// The index of the statement under evaluation.
    pub closed spec fn spec_next(&self) -> nat {
        self.next as nat
    }

    /// The position of the first answer that belongs to the statement under
    /// evaluation.
    pub closed spec fn spec_start(&self) -> nat {
        self.start as nat
    }

    /// The value of the last statement completed.
    pub closed spec fn spec_last(&self) -> Value {
        self.last
    }

    pub closed spec fn spec_result(&self) -> Option<Result<Value, EvalError>> {
        self.result
    }

    /// What an evaluation of the current statement reads.
    pub closed spec fn spec_run(&self) -> Run<'_> {
        Run { program: &self.program, frames: &self.frames, hooks: self.hooks, answers: &self.answers }
    }

    /// The evaluation of the current statement over the answers so far.
    pub open spec fn current(&self) -> (Outcome<'_>, Option<Value>, int) {
        self.spec_run().stmt_outcome(self.spec_env(), self.spec_next() as int, self.spec_start() as int)
    }

    pub closed spec fn wf(&self) -> bool {
        &&& self.env.wf()
        &&& forall|j: int| 0 <= j < self.frames@.len() ==> #[trigger] self.frames@[j].wf()
        &&& self.start <= self.answers@.len()
        &&& self.next <= self.program@.len()
        &&& self.result is None ==> self.next < self.program@.len()
    }

    /// The two evaluators stand at the same place.
    pub open spec fn same_state(&self, other: &Evaluator) -> bool {
        &&& self.spec_program() == other.spec_program()
        &&& self.spec_hooks() == other.spec_hooks()
        &&& self.spec_answers() == other.spec_answers()
        &&& self.spec_env() == other.spec_env()
        &&& self.spec_frames() == other.spec_frames()
        &&& self.spec_next() == other.spec_next()
        &&& self.spec_start() == other.spec_start()
        &&& self.spec_last() == other.spec_last()
        &&& self.spec_result() == other.spec_result()
    }

    /// An evaluator of `program` with `hooks` instrumentation hooks
    /// registered, before any statement ran, in an empty environment.
    pub fn new(program: Vec<Stmt>, hooks: usize) -> (r: Evaluator)
        ensures
            r.wf(),
            r.spec_program() == program@,
            r.spec_hooks() == hooks,
            r.spec_answers() == Seq::<Answer>::empty(),
            r.spec_env() == Map::<Seq<char>, Value>::empty(),
            r.spec_frames() == Seq::<Map<Seq<char>, Value>>::empty(),
            r.spec_next() == 0,
            r.spec_start() == 0,
            r.spec_last() == zero(),
            r.spec_result() == (if program@.len() == 0 {
                Some(Ok::<Value, EvalError>(zero()))
            } else {
                None
            }),
    {
        let zero = Value::Number(Number { bits: 0 });
        let result = if program.len() == 0 {
            Some(Ok(zero))
        } else {
            None
        };
        let r = Evaluator {
            program,
            hooks,
            answers: Vec::new(),
            env: Env::new(),
            frames: Vec::new(),
            next: 0,
            start: 0,
            last: zero,
            result,
        };
        assert(r.spec_frames() =~= Seq::<Map<Seq<char>, Value>>::empty());
        r
    }

    /// The program under evaluation.
    pub fn program(&self) -> (r: &Vec<Stmt>)
        ensures
            r@ == self.spec_program(),
    {
        &self.program
    }

    /// The number of registered instrumentation hooks.
    pub fn hooks(&self) -> (r: usize)
        ensures
            r == self.spec_hooks(),
    {
        self.hooks
    }

    /// The current environment: the bindings made by the statements
    /// completed so far.
    pub fn bindings(&self) -> (r: &Env)
        requires
            self.wf(),
        ensures
            r.wf(),
            r@ == self.spec_env(),
    {
        &self.env
    }

    /// The environments captured by closures; a closure's `env` is an
    /// index into them.
    pub fn frames(&self) -> (r: &Vec<Env>)
        requires
            self.wf(),
        ensures
            frame_views(r@) == self.spec_frames(),
            forall|j: int| 0 <= j < r@.len() ==> (#[trigger] r@[j]).wf(),
    {
        &self.frames
    }

    /// Records the host's answer to the pending request.
    pub fn answer(&mut self, a: Answer)
        requires
            old(self).wf(),
        ensures
            final(self).wf(),
            final(self).spec_answers() == old(self).spec_answers().push(a),
            final(self).spec_program() == old(self).spec_program(),
            final(self).spec_hooks() == old(self).spec_hooks(),
            final(self).spec_env() == old(self).spec_env(),
            final(self).spec_frames() == old(self).spec_frames(),
            final(self).spec_next() == old(self).spec_next(),
            final(self).spec_start() == old(self).spec_start(),
            final(self).spec_last() == old(self).spec_last(),
            final(self).spec_result() == old(self).spec_result(),
    {
        self.answers.push(a);
    }

    /// Completes the current statement where its evaluation has run to
    /// the end over the answers so far (see [`advanced`]). Returns whether
    /// it did.
    pub fn advance(&mut self) -> (progressed: bool)
        requires
            old(self).wf(),
        ensures
            final(self).wf(),
            advanced(old(self), final(self), progressed),
    {
        if self.result.is_some() {
            return false;
        }
        let n: usize = self.next;
        let len: usize = self.program.len();
        assert(n < len);
        let (res, b, p) = {
            let run = Run {
                program: &self.program,
                frames: &self.frames,
                hooks: self.hooks,
                answers: &self.answers,
            };
            let (o, b, p) = run.eval_stmt(&self.env, self.next, self.start);
            match o {
                Outcome::Suspended(_) => {
                    return false;
                },
                Outcome::Done(res) => (res, b, p),
                Outcome::Cancelled(_) => (Err(EvalError::Timeout), b, p),
            }
        };
        let ghost frames0 = self.frames@;
        match &self.program[self.next] {
            Stmt::Let(name, _, _) => {
                if let Some(v) = b {
                    self.env.insert(name.clone(), v);
                }
            },
            Stmt::Fun(name, _) => {
                if let Some(v) = b {
                    let snapshot = self.env.copy();
                    self.frames.push(snapshot);
                    self.env.insert(name.clone(), v);
                }
            },
        }
        proof {
            if self.frames@.len() > frames0.len() {
                assert(frame_views(self.frames@) =~= frame_views(frames0).push(
                    self.frames@.last()@,
                ));
            }
        }
        self.next = n + 1;
        self.start = p;
        match res {
            Ok(v) => {
                self.last = v;
                if n + 1 == len {
                    self.result = Some(Ok(v));
                }
            },
            Err(e) => {
                self.result = Some(Err(e));
            },
        }
        true
    }

    /// Where evaluation stands: finished, waiting for an answer, or ready
    /// to complete the current statement.
    pub fn step(&self) -> (r: Step<'_>)
        requires
            self.wf(),
        ensures
            self.spec_result() matches Some(res) ==> r == Step::Finished(res),
            self.spec_result() is None ==> (match self.current().0 {
                Outcome::Suspended(req) => r == Step::Request(req),
                _ => r == Step::Ready,
            }),
    {
        if let Some(res) = &self.result {
            return Step::Finished(copy_result(res));
        }
        let run = Run {
            program: &self.program,
            frames: &self.frames,
            hooks: self.hooks,
            answers: &self.answers,
        };
        let (o, _, _) = run.eval_stmt(&self.env, self.next, self.start);
        match o {
            Outcome::Suspended(req) => Step::Request(req),
            _ => Step::Ready,
        }
    }
}

/// Closures capture the environment of their definition: completing a
/// statement never changes a frame captured before, and the closure that a
/// `fun` statement binds refers to that statement and to a new frame that
/// holds the environment as it stood before the statement, whatever later
/// statements bind.
pub proof fn lemma_closure_captures_definition_env(
    before: &Evaluator,
    after: &Evaluator,
    progressed: bool,
)
    requires
        before.wf(),
        advanced(before, after, progressed),
    ensures
        before.spec_frames().len() <= after.spec_frames().len(),
        forall|j: int|
            0 <= j < before.spec_frames().len() ==> #[trigger] after.spec_frames()[j]
                == before.spec_frames()[j],
        progressed && before.spec_program()[before.spec_next() as int] is Fun
            && before.current().1 is Some ==> {
            &&& before.current().1 == Some(
                Value::Closure(
                    Closure {
                        function: before.spec_next() as usize,
                        env: before.spec_frames().len() as usize,
                    },
                ),
            )
            &&& after.spec_frames()[before.spec_frames().len() as int] == before.spec_env()
        },
{
    assert(before.spec_frames().len() == before.frames@.len());
}

/// A statement changes the binding of its own name only: every other name
/// keeps its value, whatever calls the statement made.
pub proof fn lemma_statement_binds_only_its_name(
    before: &Evaluator,
    after: &Evaluator,
    progressed: bool,
    k: Seq<char>,
)
    requires
        advanced(before, after, progressed),
        progressed,
        k != bound_name(before.spec_program()[before.spec_next() as int]),
    ensures
        lookup(after.spec_env(), k) == lookup(before.spec_env(), k),
{
}

} // verus!
