//! Properties of evaluation, stated over the semantics of `eval` and
//! proved.
use vstd::prelude::*;

use crate::ast::{Expr, Factor, Param, Stmt};
use crate::env::{lookup, Value};
use crate::eval::{bind, Answer, Deadline, EvalError, Node, Outcome, Request, Run};

verus! {

/// A variable that the current environment does not bind evaluates to
/// `UnboundVariable` carrying exactly its identifier, whatever the context.
pub proof fn lemma_unbound_variable<'a>(
    run: Run<'a>,
    env: Map<Seq<char>, Value>,
    dl: Seq<Deadline>,
    fuel: nat,
    f: &'a Factor,
    pos: int,
)
    requires
        f matches Factor::Variable(x) && lookup(env, x@) is None,
    ensures
        f matches Factor::Variable(x) && run.factor_inner(env, dl, fuel, f, pos) == (
            Outcome::Done(Err(EvalError::UnboundVariable(*x))),
            pos,
        ),
        run.hooks == 0 && dl.len() == 0 ==> (f matches Factor::Variable(x) && run.factor_outcome(
            env,
            dl,
            fuel,
            f,
            pos,
        ) == (Outcome::Done(Err(EvalError::UnboundVariable(*x))), pos)),
{
}

/// Inside a call, a parameter shadows any binding of the same name in the
/// captured environment: the last parameter of a name is bound to its
/// argument.
pub proof fn lemma_parameter_shadows(
    m: Map<Seq<char>, Value>,
    params: Seq<Param>,
    vals: Seq<Value>,
    i: int,
)
    requires
        params.len() == vals.len(),
        0 <= i < params.len(),
        forall|j: int| i < j < params.len() ==> params[j].name@ != params[i].name@,
    ensures
        lookup(bind(m, params, vals), params[i].name@) == Some(vals[i]),
    decreases params.len(),
{
    if i < params.len() - 1 {
        lemma_parameter_shadows(m, params.drop_last(), vals.drop_last(), i);
    }
}

/// Binding parameters leaves every other name as the captured environment
/// had it.
pub proof fn lemma_bind_keeps_others(
    m: Map<Seq<char>, Value>,
    params: Seq<Param>,
    vals: Seq<Value>,
    k: Seq<char>,
)
    requires
        forall|j: int| 0 <= j < params.len() ==> params[j].name@ != k,
    ensures
        lookup(bind(m, params, vals), k) == lookup(m, k),
    decreases params.len(),
{
    if params.len() > 0 && vals.len() > 0 {
        lemma_bind_keeps_others(m, params.drop_last(), vals.drop_last(), k);
    }
}

/// Pre-callbacks run in registration order: once hooks `0..k` have
/// answered `Proceed`, the next request is the pre-callback of hook `k`.
pub proof fn lemma_pre_hooks_in_order<'a>(run: Run<'a>, node: Node<'a>, pos: int, k: int)
    requires
        0 <= pos,
        0 <= k < run.hooks,
        run.answers@.len() == pos + k,
        forall|j: int| pos <= j < pos + k ==> run.answers@[j] is Proceed,
    ensures
        run.pre_hooks(node, 0, pos) == (
            Some(Outcome::Suspended(Request::Pre { hook: k as usize, node })),
            pos + k,
        ),
{
    lemma_pre_hooks_from(run, node, pos, 0, k);
}

proof fn lemma_pre_hooks_from<'a>(run: Run<'a>, node: Node<'a>, pos: int, i: int, k: int)
    requires
        0 <= pos,
        0 <= i <= k < run.hooks,
        run.answers@.len() == pos + k,
        forall|j: int| pos <= j < pos + k ==> run.answers@[j] is Proceed,
    ensures
        run.pre_hooks(node, i, pos + i) == (
            Some(Outcome::Suspended(Request::Pre { hook: k as usize, node })),
            pos + k,
        ),
    decreases k - i,
{
    if i < k {
        lemma_pre_hooks_from(run, node, pos, i + 1, k);
    }
}

/// Post-callbacks run in reverse registration order: once `k` of them have
/// answered `Proceed`, the next request is the post-callback of hook
/// `hooks - 1 - k`, on the node's own result.
pub proof fn lemma_post_hooks_in_reverse<'a>(
    run: Run<'a>,
    node: Node<'a>,
    result: Result<Value, EvalError>,
    pos: int,
    k: int,
)
    requires
        0 <= pos,
        0 <= k < run.hooks,
        run.answers@.len() == pos + k,
        forall|j: int| pos <= j < pos + k ==> run.answers@[j] is Proceed,
    ensures
        run.post_hooks(node, run.hooks as int, result, pos) == (
            Outcome::Suspended(
                Request::Post { hook: (run.hooks - 1 - k) as usize, node, result },
            ),
            pos + k,
        ),
{
    lemma_post_hooks_from(run, node, result, pos, 0, k);
}

proof fn lemma_post_hooks_from<'a>(
    run: Run<'a>,
    node: Node<'a>,
    result: Result<Value, EvalError>,
    pos: int,
    i: int,
    k: int,
)
    requires
        0 <= pos,
        0 <= i <= k < run.hooks,
        run.answers@.len() == pos + k,
        forall|j: int| pos <= j < pos + k ==> run.answers@[j] is Proceed,
    ensures
        run.post_hooks(node, run.hooks - i, result, pos + i) == (
            Outcome::Suspended(
                Request::Post { hook: (run.hooks - 1 - k) as usize, node, result },
            ),
            pos + k,
        ),
    decreases k - i,
{
    if i < k {
        lemma_post_hooks_from(run, node, result, pos, i + 1, k);
    }
}

/// A pre-callback that fails vetoes the node: its own evaluation never
/// runs (no request of it is made, and no post-callback), and the node
/// evaluates to the hook's error.
pub proof fn lemma_pre_hook_veto<'a>(
    run: Run<'a>,
    env: Map<Seq<char>, Value>,
    fuel: nat,
    e: &'a Expr,
    pos: int,
    k: int,
)
    requires
        0 <= pos,
        0 <= k < run.hooks,
        pos + k < run.answers@.len(),
        forall|j: int| pos <= j < pos + k ==> run.answers@[j] is Proceed,
        run.answers@[pos + k] is Fail,
    ensures
        run.answers@[pos + k] matches Answer::Fail(m) && run.expr_outcome(
            env,
            Seq::empty(),
            fuel,
            e,
            pos,
        ) == (Outcome::Done(Err(EvalError::Instrumentation(m))), pos + k + 1),
{
    lemma_veto_from(run, Node::Expr(e), pos, 0, k);
}

proof fn lemma_veto_from<'a>(run: Run<'a>, node: Node<'a>, pos: int, i: int, k: int)
    requires
        0 <= pos,
        0 <= i <= k < run.hooks,
        pos + k < run.answers@.len(),
        forall|j: int| pos <= j < pos + k ==> run.answers@[j] is Proceed,
        run.answers@[pos + k] is Fail,
    ensures
        run.answers@[pos + k] matches Answer::Fail(m) && run.pre_hooks(node, i, pos + i) == (
            Some(Outcome::Done(Err(EvalError::Instrumentation(m)))),
            pos + k + 1,
        ),
    decreases k - i,
{
    if i < k {
        lemma_veto_from(run, node, pos, i + 1, k);
    }
}

/// A `Timeout` outside any other: where the clock, read when the inner
/// expression is done, shows more than the allowed milliseconds since the
/// start, the result is the `Timeout` error; otherwise it is the inner
/// expression's own.
pub proof fn lemma_timeout<'a>(
    run: Run<'a>,
    env: Map<Seq<char>, Value>,
    fuel: nat,
    f: &'a Factor,
    pos: int,
    start: u64,
    end: u64,
)
    requires
        0 <= pos,
        f is Timeout,
        pos < run.answers@.len(),
        run.answers@[pos] == Answer::Time(start),
    ensures
        f matches Factor::Timeout { milliseconds, expr } && ({
            let inner = seq![Deadline { start, milliseconds: *milliseconds }];
            let (o, p) = run.expr_outcome(env, inner, fuel, expr, pos + 1);
            o is Done && 0 <= p < run.answers@.len() && run.answers@[p] == Answer::Time(end) ==> {
                &&& end > start + *milliseconds ==> run.factor_inner(
                    env,
                    Seq::empty(),
                    fuel,
                    f,
                    pos,
                ) == (Outcome::Done(Err(EvalError::Timeout)), p + 1)
                &&& end <= start + *milliseconds ==> run.factor_inner(
                    env,
                    Seq::empty(),
                    fuel,
                    f,
                    pos,
                ) == (o, p + 1)
            }
        }),
{
    if let Factor::Timeout { milliseconds, expr } = f {
        let inner = seq![Deadline { start, milliseconds: *milliseconds }];
        assert(Seq::<Deadline>::empty().push(Deadline { start, milliseconds: *milliseconds })
            =~= inner);
        assert(crate::eval::first_passed(inner, end, 1) is None);
        let (o, p) = run.expr_outcome(env, inner, fuel, expr, pos + 1);
        if o is Done && 0 <= p < run.answers@.len() && run.answers@[p] == Answer::Time(end) {
            assert(run.answer_at(pos) == Some(&Answer::Time(start)));
            assert(run.answer_at(p) == Some(&Answer::Time(end)));
            if end > start + *milliseconds {
                assert(crate::eval::first_passed(inner, end, 0) == Some(0usize));
                assert(run.clock_check(inner, p) == (Some(Outcome::<'a>::Cancelled(0)), p + 1));
            } else {
                assert(crate::eval::first_passed(inner, end, 0) is None);
                assert(run.clock_check(inner, p) == (None::<Outcome<'a>>, p + 1));
            }
        }
    }
}

/// A `Yield` hands control to the scheduler and then evaluates its
/// expression exactly as that expression evaluates on its own.
pub proof fn lemma_yield_keeps_value<'a>(
    run: Run<'a>,
    env: Map<Seq<char>, Value>,
    dl: Seq<Deadline>,
    fuel: nat,
    f: &'a Factor,
    pos: int,
)
    requires
        0 <= pos < run.answers@.len(),
        run.answers@[pos] is Proceed,
        f is Yield,
    ensures
        f matches Factor::Yield(e) && run.factor_inner(env, dl, fuel, f, pos) == run.expr_outcome(
            env,
            dl,
            fuel,
            e,
            pos + 1,
        ),
{
}


/// `r2` reads what `r1` reads, with possibly more answers after them.
pub open spec fn extends<'a>(r1: Run<'a>, r2: Run<'a>) -> bool {
    &&& r1.program == r2.program
    &&& r1.frames == r2.frames
    &&& r1.hooks == r2.hooks
    &&& r1.answers@.len() <= r2.answers@.len()
    &&& forall|i: int| 0 <= i < r1.answers@.len() ==> r2.answers@[i] == r1.answers@[i]
}

pub open spec fn waits<'a>(o: Option<Outcome<'a>>) -> bool {
    o matches Some(Outcome::Suspended(_))
}

proof fn lemma_stable_answer<'a>(r1: Run<'a>, r2: Run<'a>, pos: int)
    requires
        extends(r1, r2),
    ensures
        r1.answer_at(pos) is Some ==> r2.answer_at(pos) == r1.answer_at(pos),
{
}

proof fn lemma_stable_enter<'a>(r1: Run<'a>, r2: Run<'a>, dl: Seq<Deadline>, node: Node<'a>, pos: int)
    requires
        extends(r1, r2),
    ensures
        !waits(r1.enter(dl, node, pos).0) ==> r2.enter(dl, node, pos) == r1.enter(dl, node, pos),
{
    lemma_stable_answer(r1, r2, pos);
    let p = if dl.len() == 0 {
        pos
    } else {
        r1.clock_check(dl, pos).1
    };
    lemma_stable_pre_hooks(r1, r2, node, 0, p);
}

proof fn lemma_stable_pre_hooks<'a>(r1: Run<'a>, r2: Run<'a>, node: Node<'a>, i: int, pos: int)
    requires
        extends(r1, r2),
    ensures
        !waits(r1.pre_hooks(node, i, pos).0) ==> r2.pre_hooks(node, i, pos) == r1.pre_hooks(
            node,
            i,
            pos,
        ),
    decreases r1.hooks - i,
{
    lemma_stable_answer(r1, r2, pos);
    if 0 <= i < r1.hooks {
        lemma_stable_pre_hooks(r1, r2, node, i + 1, pos + 1);
    }
}

proof fn lemma_stable_post_hooks<'a>(
    r1: Run<'a>,
    r2: Run<'a>,
    node: Node<'a>,
    n: int,
    result: Result<Value, EvalError>,
    pos: int,
)
    requires
        extends(r1, r2),
    ensures
        !(r1.post_hooks(node, n, result, pos).0 is Suspended) ==> r2.post_hooks(
            node,
            n,
            result,
            pos,
        ) == r1.post_hooks(node, n, result, pos),
    decreases n,
{
    lemma_stable_answer(r1, r2, pos);
    if n > 0 {
        lemma_stable_post_hooks(r1, r2, node, n - 1, result, pos + 1);
        lemma_stable_post_hooks(
            r1,
            r2,
            node,
            n - 1,
            crate::eval::merge(result, EvalError::BadAnswer),
            pos + 1,
        );
        if let Some(Answer::Fail(m)) = r1.answer_at(pos) {
            lemma_stable_post_hooks(
                r1,
                r2,
                node,
                n - 1,
                crate::eval::merge(result, EvalError::Instrumentation(*m)),
                pos + 1,
            );
        }
    }
}

proof fn lemma_stable_leave<'a>(r1: Run<'a>, r2: Run<'a>, node: Node<'a>, o: Outcome<'a>, pos: int)
    requires
        extends(r1, r2),
    ensures
        !(r1.leave(node, o, pos).0 is Suspended) ==> r2.leave(node, o, pos) == r1.leave(
            node,
            o,
            pos,
        ),
{
    if let Outcome::Done(result) = o {
        lemma_stable_post_hooks(r1, r2, node, r1.hooks as int, result, pos);
    }
}

proof fn lemma_stable_expr<'a>(
    r1: Run<'a>,
    r2: Run<'a>,
    env: Map<Seq<char>, Value>,
    dl: Seq<Deadline>,
    fuel: nat,
    e: &'a Expr,
    pos: int,
)
    requires
        extends(r1, r2),
    ensures
        !(r1.expr_outcome(env, dl, fuel, e, pos).0 is Suspended) ==> r2.expr_outcome(
            env,
            dl,
            fuel,
            e,
            pos,
        ) == r1.expr_outcome(env, dl, fuel, e, pos),
    decreases fuel, e, 1int,
{
    lemma_stable_enter(r1, r2, dl, Node::Expr(e), pos);
    let (g, p) = r1.enter(dl, Node::Expr(e), pos);
    if g is None {
        lemma_stable_expr_inner(r1, r2, env, dl, fuel, e, p);
        let (o, q) = r1.expr_inner(env, dl, fuel, e, p);
        lemma_stable_leave(r1, r2, Node::Expr(e), o, q);
    }
}

proof fn lemma_stable_expr_inner<'a>(
    r1: Run<'a>,
    r2: Run<'a>,
    env: Map<Seq<char>, Value>,
    dl: Seq<Deadline>,
    fuel: nat,
    e: &'a Expr,
    pos: int,
)
    requires
        extends(r1, r2),
    ensures
        !(r1.expr_inner(env, dl, fuel, e, pos).0 is Suspended) ==> r2.expr_inner(
            env,
            dl,
            fuel,
            e,
            pos,
        ) == r1.expr_inner(env, dl, fuel, e, pos),
    decreases fuel, e, 0int,
{
    match e {
        Expr::Factor(f) => lemma_stable_factor(r1, r2, env, dl, fuel, f, pos),
        Expr::BinaryOp { op, lhs, rhs } => {
            lemma_stable_expr(r1, r2, env, dl, fuel, lhs, pos);
            let (l, p) = r1.expr_outcome(env, dl, fuel, lhs, pos);
            lemma_stable_expr(r1, r2, env, dl, fuel, rhs, p);
            let (r, q) = r1.expr_outcome(env, dl, fuel, rhs, p);
            if let (Outcome::Done(Ok(a)), Outcome::Done(Ok(b))) = (l, r) {
                lemma_stable_answer(r1, r2, q);
            }
        },
    }
}

proof fn lemma_stable_factor<'a>(
    r1: Run<'a>,
    r2: Run<'a>,
    env: Map<Seq<char>, Value>,
    dl: Seq<Deadline>,
    fuel: nat,
    f: &'a Factor,
    pos: int,
)
    requires
        extends(r1, r2),
    ensures
        !(r1.factor_outcome(env, dl, fuel, f, pos).0 is Suspended) ==> r2.factor_outcome(
            env,
            dl,
            fuel,
            f,
            pos,
        ) == r1.factor_outcome(env, dl, fuel, f, pos),
    decreases fuel, f, 1int,
{
    lemma_stable_enter(r1, r2, dl, Node::Factor(f), pos);
    let (g, p) = r1.enter(dl, Node::Factor(f), pos);
    if g is None {
        lemma_stable_factor_inner(r1, r2, env, dl, fuel, f, p);
        let (o, q) = r1.factor_inner(env, dl, fuel, f, p);
        lemma_stable_leave(r1, r2, Node::Factor(f), o, q);
    }
}

proof fn lemma_stable_factor_inner<'a>(
    r1: Run<'a>,
    r2: Run<'a>,
    env: Map<Seq<char>, Value>,
    dl: Seq<Deadline>,
    fuel: nat,
    f: &'a Factor,
    pos: int,
)
    requires
        extends(r1, r2),
    ensures
        !(r1.factor_inner(env, dl, fuel, f, pos).0 is Suspended) ==> r2.factor_inner(
            env,
            dl,
            fuel,
            f,
            pos,
        ) == r1.factor_inner(env, dl, fuel, f, pos),
    decreases fuel, f, 0int,
{
    lemma_stable_answer(r1, r2, pos);
    match f {
        Factor::Literal(_) => {},
        Factor::Variable(_) => {},
        Factor::Group(e) => lemma_stable_expr(r1, r2, env, dl, fuel, e, pos),
        Factor::BinaryOp { op, lhs, rhs } => {
            lemma_stable_factor(r1, r2, env, dl, fuel, lhs, pos);
            let (l, p) = r1.factor_outcome(env, dl, fuel, lhs, pos);
            lemma_stable_factor(r1, r2, env, dl, fuel, rhs, p);
            let (r, q) = r1.factor_outcome(env, dl, fuel, rhs, p);
            lemma_stable_answer(r1, r2, q);
        },
        Factor::Call(callee, args) => {
            lemma_stable_factor(r1, r2, env, dl, fuel, callee, pos);
            let (c, p) = r1.factor_outcome(env, dl, fuel, callee, pos);
            if let Outcome::Done(Ok(v)) = c {
                lemma_stable_call(r1, r2, env, dl, fuel, v, args, p);
            }
        },
        Factor::Timeout { milliseconds, expr } => {
            if let Some(Answer::Time(now)) = r1.answer_at(pos) {
                let inner = dl.push(Deadline { start: *now, milliseconds: *milliseconds });
                lemma_stable_expr(r1, r2, env, inner, fuel, expr, pos + 1);
                let (o, p) = r1.expr_outcome(env, inner, fuel, expr, pos + 1);
                lemma_stable_answer(r1, r2, p);
            }
        },
        Factor::Yield(e) => lemma_stable_expr(r1, r2, env, dl, fuel, e, pos + 1),
    }
}

proof fn lemma_stable_call<'a>(
    r1: Run<'a>,
    r2: Run<'a>,
    env: Map<Seq<char>, Value>,
    dl: Seq<Deadline>,
    fuel: nat,
    v: Value,
    args: &'a Vec<Expr>,
    pos: int,
)
    requires
        extends(r1, r2),
    ensures
        !(r1.call(env, dl, fuel, v, args, pos).0 is Suspended) ==> r2.call(
            env,
            dl,
            fuel,
            v,
            args,
            pos,
        ) == r1.call(env, dl, fuel, v, args, pos),
    decreases fuel, args, args@.len() + 1,
{
    if let Value::Closure(c) = v {
        if let Some(func) = r1.function_at(c.function) {
            if c.env < r1.frames@.len() && func.params@.len() == args@.len() && fuel > 0 {
                lemma_stable_args(r1, r2, env, dl, fuel, args, 0, Seq::empty(), pos);
                let (a, p) = r1.args_outcome(env, dl, fuel, args, 0, Seq::empty(), pos);
                if let Ok(vals) = a {
                    lemma_stable_expr(
                        r1,
                        r2,
                        crate::eval::bind(r1.frames@[c.env as int]@, func.params@, vals),
                        dl,
                        (fuel - 1) as nat,
                        &func.body,
                        p,
                    );
                }
            }
        }
    }
}

proof fn lemma_stable_args<'a>(
    r1: Run<'a>,
    r2: Run<'a>,
    env: Map<Seq<char>, Value>,
    dl: Seq<Deadline>,
    fuel: nat,
    args: &'a Vec<Expr>,
    i: int,
    acc: Seq<Value>,
    pos: int,
)
    requires
        extends(r1, r2),
    ensures
        !(r1.args_outcome(env, dl, fuel, args, i, acc, pos).0 matches Err(
            Outcome::Suspended(_),
        )) ==> r2.args_outcome(env, dl, fuel, args, i, acc, pos) == r1.args_outcome(
            env,
            dl,
            fuel,
            args,
            i,
            acc,
            pos,
        ),
    decreases fuel, args, args@.len() - i,
{
    if 0 <= i < args@.len() {
        lemma_stable_expr(r1, r2, env, dl, fuel, &args@[i], pos);
        let (o, p) = r1.expr_outcome(env, dl, fuel, &args@[i], pos);
        if let Outcome::Done(Ok(v)) = o {
            lemma_stable_args(r1, r2, env, dl, fuel, args, i + 1, acc.push(v), p);
        }
    }
}

/// More answers never change an evaluation that ran to the end (or was
/// cancelled): replaying a statement over a longer list of answers gives
/// the same outcome, the same binding and the same position.
pub proof fn lemma_replay_is_stable<'a>(
    r1: Run<'a>,
    r2: Run<'a>,
    env: Map<Seq<char>, Value>,
    index: int,
    pos: int,
)
    requires
        extends(r1, r2),
        0 <= index < r1.program@.len(),
    ensures
        !(r1.stmt_outcome(env, index, pos).0 is Suspended) ==> r2.stmt_outcome(env, index, pos)
            == r1.stmt_outcome(env, index, pos),
{
    let s = &r1.program@[index];
    lemma_stable_enter(r1, r2, Seq::empty(), Node::Stmt(s), pos);
    let (g, p) = r1.enter(Seq::empty(), Node::Stmt(s), pos);
    if g is None {
        match s {
            Stmt::Let(_, _, e) => {
                lemma_stable_expr(r1, r2, env, Seq::empty(), crate::eval::MAX_CALL_DEPTH as nat, e, p);
                let (o, q) = r1.expr_outcome(
                    env,
                    Seq::empty(),
                    crate::eval::MAX_CALL_DEPTH as nat,
                    e,
                    p,
                );
                lemma_stable_leave(r1, r2, Node::Stmt(s), o, q);
            },
            Stmt::Fun(_, _) => {
                let v = Value::Closure(
                    crate::env::Closure { function: index as usize, env: r1.frames@.len() as usize },
                );
                lemma_stable_leave(r1, r2, Node::Stmt(s), Outcome::Done(Ok(v)), p);
            },
        }
    }
}

} // verus!
