//! Rendering trees back into surface syntax.
//!
//! Number literals are rendered by the host (their text is that of a
//! binary64 value): [`literals`] lists the literals of a program in the
//! order in which the unparser meets them, and the unparser is given their
//! texts in that order.
use vstd::prelude::*;
use vstd::string::*;

use crate::ast::{Expr, Factor, FactorBinaryOp, Number, Stmt, TermBinaryOp, Type};

verus! {

pub open spec fn term_op_text(op: TermBinaryOp) -> Seq<char> {
    match op {
        TermBinaryOp::Add => "+"@,
        TermBinaryOp::Sub => "-"@,
    }
}

pub open spec fn factor_op_text(op: FactorBinaryOp) -> Seq<char> {
    match op {
        FactorBinaryOp::Mul => "*"@,
        FactorBinaryOp::Div => "/"@,
    }
}

pub open spec fn digit_text(d: nat) -> Seq<char> {
    if d == 0 {
        "0"@
    } else if d == 1 {
        "1"@
    } else if d == 2 {
        "2"@
    } else if d == 3 {
        "3"@
    } else if d == 4 {
        "4"@
    } else if d == 5 {
        "5"@
    } else if d == 6 {
        "6"@
    } else if d == 7 {
        "7"@
    } else if d == 8 {
        "8"@
    } else {
        "9"@
    }
}

/// The decimal digits of `n`.
pub open spec fn decimal(n: nat) -> Seq<char>
    decreases n,
{
    if n < 10 {
        digit_text(n)
    } else {
        decimal(n / 10) + digit_text(n % 10)
    }
}

/// The text of literal number `k`: the given text, or `_` where none was
/// given.
pub open spec fn literal_text(lits: Seq<String>, k: nat) -> Seq<char> {
    if k < lits.len() {
        lits[k as int]@
    } else {
        "_"@
    }
}

/// The index of the literal after literal `k`.
pub open spec fn after_literal(lits: Seq<String>, k: nat) -> nat {
    if k < lits.len() {
        k + 1
    } else {
        k
    }
}

/// The text of an expression whose first literal is literal `k`, and the
/// index of the literal after its last.
pub open spec fn expr_text(e: &Expr, lits: Seq<String>, k: nat) -> (Seq<char>, nat)
    decreases e, 0int,
{
    match e {
        Expr::Factor(f) => factor_text(f, lits, k),
        Expr::BinaryOp { op, lhs, rhs } => {
            let (a, k1) = expr_text(lhs, lits, k);
            let (b, k2) = expr_text(rhs, lits, k1);
            (a + " "@ + term_op_text(*op) + " "@ + b, k2)
        },
    }
}

/// The text of a factor whose first literal is literal `k`, and the index
/// of the literal after its last.
pub open spec fn factor_text(f: &Factor, lits: Seq<String>, k: nat) -> (Seq<char>, nat)
    decreases f, 0int,
{
    match f {
        Factor::Literal(_) => (literal_text(lits, k), after_literal(lits, k)),
        Factor::Variable(x) => (x@, k),
        Factor::Group(e) => {
            let (a, k1) = expr_text(e, lits, k);
            ("("@ + a + ")"@, k1)
        },
        Factor::BinaryOp { op, lhs, rhs } => {
            let (a, k1) = factor_text(lhs, lits, k);
            let (b, k2) = factor_text(rhs, lits, k1);
            (a + " "@ + factor_op_text(*op) + " "@ + b, k2)
        },
        Factor::Call(callee, args) => {
            let (c, k1) = factor_text(callee, lits, k);
            let (a, k2) = args_text(args, 0, lits, k1);
            (c + "("@ + a + ")"@, k2)
        },
        Factor::Timeout { milliseconds, expr } => {
            let (a, k1) = expr_text(expr, lits, k);
            ("timeout("@ + decimal(*milliseconds as nat) + ", "@ + a + ")"@, k1)
        },
        Factor::Yield(e) => {
            let (a, k1) = expr_text(e, lits, k);
            ("yield("@ + a + ")"@, k1)
        },
    }
}

/// The text of `args[i..]`, each after a comma but the first of all.
pub open spec fn args_text(args: &Vec<Expr>, i: int, lits: Seq<String>, k: nat) -> (
    Seq<char>,
    nat,
)
    decreases args, args@.len() - i,
{
    if i < 0 || i >= args@.len() {
        (Seq::empty(), k)
    } else {
        let (a, k1) = expr_text(&args@[i], lits, k);
        let (rest, k2) = args_text(args, i + 1, lits, k1);
        (
            (if i > 0 {
                ", "@
            } else {
                Seq::empty()
            }) + a + rest,
            k2,
        )
    }
}

/// The names of `params[i..]`, each after a comma but the first of all.
pub open spec fn params_text(names: Seq<Seq<char>>, i: int) -> Seq<char>
    decreases names.len() - i,
{
    if i < 0 || i >= names.len() {
        Seq::empty()
    } else {
        (if i > 0 {
            ", "@
        } else {
            Seq::empty()
        }) + names[i] + params_text(names, i + 1)
    }
}

/// The text of a statement, one line.
pub open spec fn stmt_text(s: &Stmt, lits: Seq<String>, k: nat) -> (Seq<char>, nat) {
    match s {
        Stmt::Let(name, _, e) => {
            let (a, k1) = expr_text(e, lits, k);
            ("let "@ + name@ + " = "@ + a + "\n"@, k1)
        },
        Stmt::Fun(name, func) => {
            let names = func.params@.map_values(|p: crate::ast::Param| p.name@);
            let (b, k1) = expr_text(&func.body, lits, k);
            ("fun "@ + name@ + "("@ + params_text(names, 0) + ") = "@ + b + "\n"@, k1)
        },
    }
}

/// The text of `stmts[i..]`.
pub open spec fn stmts_text(stmts: Seq<Stmt>, i: int, lits: Seq<String>, k: nat) -> (
    Seq<char>,
    nat,
)
    decreases stmts.len() - i,
{
    if i < 0 || i >= stmts.len() {
        (Seq::empty(), k)
    } else {
        let (a, k1) = stmt_text(&stmts[i], lits, k);
        let (rest, k2) = stmts_text(stmts, i + 1, lits, k1);
        (a + rest, k2)
    }
}

/// The literals of an expression, left to right.
pub open spec fn expr_literals(e: &Expr) -> Seq<Number>
    decreases e, 0int,
{
    match e {
        Expr::Factor(f) => factor_literals(f),
        Expr::BinaryOp { lhs, rhs, .. } => expr_literals(lhs) + expr_literals(rhs),
    }
}

/// The literals of a factor, left to right.
pub open spec fn factor_literals(f: &Factor) -> Seq<Number>
    decreases f, 0int,
{
    match f {
        Factor::Literal(n) => seq![*n],
        Factor::Variable(_) => Seq::empty(),
        Factor::Group(e) => expr_literals(e),
        Factor::BinaryOp { lhs, rhs, .. } => factor_literals(lhs) + factor_literals(rhs),
        Factor::Call(callee, args) => factor_literals(callee) + args_literals(args, 0),
        Factor::Timeout { expr, .. } => expr_literals(expr),
        Factor::Yield(e) => expr_literals(e),
    }
}

/// The literals of `args[i..]`, left to right.
pub open spec fn args_literals(args: &Vec<Expr>, i: int) -> Seq<Number>
    decreases args, args@.len() - i,
{
    if i < 0 || i >= args@.len() {
        Seq::empty()
    } else {
        expr_literals(&args@[i]) + args_literals(args, i + 1)
    }
}

/// The literals of `stmts[i..]`, left to right.
pub open spec fn stmts_literals(stmts: Seq<Stmt>, i: int) -> Seq<Number>
    decreases stmts.len() - i,
{
    if i < 0 || i >= stmts.len() {
        Seq::empty()
    } else {
        (match &stmts[i] {
            Stmt::Let(_, _, e) => expr_literals(e),
            Stmt::Fun(_, func) => expr_literals(&func.body),
        }) + stmts_literals(stmts, i + 1)
    }
}

fn push_literals_of_expr(out: &mut Vec<Number>, e: &Expr)
    ensures
        final(out)@ == old(out)@ + expr_literals(e),
    decreases e, 0int,
{
    match e {
        Expr::Factor(f) => push_literals_of_factor(out, f),
        Expr::BinaryOp { lhs, rhs, .. } => {
            let ghost o = out@;
            push_literals_of_expr(out, lhs);
            push_literals_of_expr(out, rhs);
            assert(out@ =~= o + expr_literals(e));
        },
    }
}

fn push_literals_of_factor(out: &mut Vec<Number>, f: &Factor)
    ensures
        final(out)@ == old(out)@ + factor_literals(f),
    decreases f, 0int,
{
    let ghost o = out@;
    match f {
        Factor::Literal(n) => {
            out.push(*n);
            assert(out@ =~= o + factor_literals(f));
        },
        Factor::Variable(_) => {
            assert(out@ =~= o + factor_literals(f));
        },
        Factor::Group(e) => push_literals_of_expr(out, e),
        Factor::BinaryOp { lhs, rhs, .. } => {
            push_literals_of_factor(out, lhs);
            push_literals_of_factor(out, rhs);
            assert(out@ =~= o + factor_literals(f));
        },
        Factor::Call(callee, args) => {
            push_literals_of_factor(out, callee);
            push_literals_of_args(out, args);
            assert(out@ =~= o + factor_literals(f));
        },
        Factor::Timeout { expr, .. } => push_literals_of_expr(out, expr),
        Factor::Yield(e) => push_literals_of_expr(out, e),
    }
}

fn push_literals_of_args(out: &mut Vec<Number>, args: &Vec<Expr>)
    ensures
        final(out)@ == old(out)@ + args_literals(args, 0),
    decreases args, 0int,
{
    let ghost o = out@;
    let mut i: usize = 0;
    while i < args.len()
        invariant
            0 <= i <= args@.len(),
            o + args_literals(args, 0) == out@ + args_literals(args, i as int),
        decreases args@.len() - i,
    {
        let ghost before = out@;
        push_literals_of_expr(out, &args[i]);
        assert(before + args_literals(args, i as int) =~= out@ + args_literals(args, i + 1));
        i = i + 1;
    }
    assert(out@ + args_literals(args, i as int) =~= out@);
}

/// The number literals of a program, in the order in which they appear.
pub fn literals(stmts: &[Stmt]) -> (r: Vec<Number>)
    ensures
        r@ == stmts_literals(stmts@, 0),
{
    let mut out: Vec<Number> = Vec::new();
    let mut i: usize = 0;
    while i < stmts.len()
        invariant
            0 <= i <= stmts@.len(),
            stmts_literals(stmts@, 0) == out@ + stmts_literals(stmts@, i as int),
        decreases stmts@.len() - i,
    {
        let ghost before = out@;
        match &stmts[i] {
            Stmt::Let(_, _, e) => push_literals_of_expr(&mut out, e),
            Stmt::Fun(_, func) => push_literals_of_expr(&mut out, &func.body),
        }
        assert(before + stmts_literals(stmts@, i as int) =~= out@ + stmts_literals(
            stmts@,
            i + 1,
        ));
        i = i + 1;
    }
    assert(out@ + stmts_literals(stmts@, i as int) =~= out@);
    out
}

fn digit_str(d: u64) -> (r: &'static str)
    requires
        d < 10,
    ensures
        r@ == digit_text(d as nat),
{
    if d == 0 {
        "0"
    } else if d == 1 {
        "1"
    } else if d == 2 {
        "2"
    } else if d == 3 {
        "3"
    } else if d == 4 {
        "4"
    } else if d == 5 {
        "5"
    } else if d == 6 {
        "6"
    } else if d == 7 {
        "7"
    } else if d == 8 {
        "8"
    } else {
        "9"
    }
}

fn push_decimal(out: &mut String, n: u64)
    ensures
        final(out)@ == old(out)@ + decimal(n as nat),
    decreases n,
{
    let ghost o = out@;
    if n >= 10 {
        push_decimal(out, n / 10);
    }
    out.append(digit_str(n % 10));
    assert(out@ =~= o + decimal(n as nat));
}

/// The text of a type: `number`, or `(p1, p2) -> r` for a function.
pub open spec fn type_text(t: &Type) -> Seq<char>
    decreases t, 0int,
{
    match t {
        Type::Number => "number"@,
        Type::Arrow(ps, r) => "("@ + types_text(ps, 0) + ") -> "@ + type_text(r),
    }
}

/// The texts of `ps[i..]`, each after a comma but the first of all.
pub open spec fn types_text(ps: &Vec<Type>, i: int) -> Seq<char>
    decreases ps, ps@.len() - i,
{
    if i < 0 || i >= ps@.len() {
        Seq::empty()
    } else {
        (if i > 0 {
            ", "@
        } else {
            Seq::empty()
        }) + type_text(&ps@[i]) + types_text(ps, i + 1)
    }
}

fn push_type(out: &mut String, t: &Type)
    ensures
        final(out)@ == old(out)@ + type_text(t),
    decreases t, 0int,
{
    let ghost o = out@;
    match t {
        Type::Number => out.append("number"),
        Type::Arrow(ps, r) => {
            out.append("(");
            push_types(out, ps);
            out.append(") -> ");
            push_type(out, r);
        },
    }
    assert(out@ =~= o + type_text(t));
}

fn push_types(out: &mut String, ps: &Vec<Type>)
    ensures
        final(out)@ == old(out)@ + types_text(ps, 0),
    decreases ps, 0int,
{
    let ghost o = out@;
    let mut i: usize = 0;
    while i < ps.len()
        invariant
            0 <= i <= ps@.len(),
            o + types_text(ps, 0) == out@ + types_text(ps, i as int),
        decreases ps@.len() - i,
    {
        let ghost before = out@;
        if i > 0 {
            out.append(", ");
        }
        push_type(out, &ps[i]);
        assert(before + types_text(ps, i as int) =~= out@ + types_text(ps, i + 1));
        i = i + 1;
    }
    assert(out@ + types_text(ps, i as int) =~= out@);
}

impl Type {
    /// The text of this type, as in `(number, number) -> number`.
    pub fn text(&self) -> (r: String)
        ensures
            r@ == type_text(self),
    {
        let mut out = String::new();
        push_type(&mut out, self);
        assert(out@ =~= type_text(self));
        out
    }
}

/// Renders trees as text, appending to its output.
pub struct Unparser {
    out: String,
    literals: Vec<String>,
    used: usize,
}

impl Unparser {
    pub closed spec fn spec_output(&self) -> Seq<char> {
        self.out@
    }

    /// The texts of the literals, in order.
    pub closed spec fn spec_literals(&self) -> Seq<String> {
        self.literals@
    }

    /// The index of the next literal to render.
    pub closed spec fn spec_used(&self) -> nat {
        self.used as nat
    }

    pub closed spec fn wf(&self) -> bool {
        self.used <= self.literals@.len()
    }

    /// An unparser with empty output that renders literal number `k` (in
    /// the order of [`literals`]) as `literals[k]`.
    pub fn new(literals: Vec<String>) -> (r: Unparser)
        ensures
            r.wf(),
            r.spec_output() == Seq::<char>::empty(),
            r.spec_literals() == literals@,
            r.spec_used() == 0,
    {
        Unparser { out: String::new(), literals, used: 0 }
    }

    /// The text rendered so far.
    pub fn output(&self) -> (r: &str)
        ensures
            r@ == self.spec_output(),
    {
        self.out.as_str()
    }

    pub fn unparse_term_binary_op(&mut self, op: &TermBinaryOp)
        requires
            old(self).wf(),
        ensures
            final(self).wf(),
            final(self).spec_output() == old(self).spec_output() + term_op_text(*op),
            final(self).spec_literals() == old(self).spec_literals(),
            final(self).spec_used() == old(self).spec_used(),
    {
        match op {
            TermBinaryOp::Add => self.out.append("+"),
            TermBinaryOp::Sub => self.out.append("-"),
        }
    }

    pub fn unparse_factor_binary_op(&mut self, op: &FactorBinaryOp)
        requires
            old(self).wf(),
        ensures
            final(self).wf(),
            final(self).spec_output() == old(self).spec_output() + factor_op_text(*op),
            final(self).spec_literals() == old(self).spec_literals(),
            final(self).spec_used() == old(self).spec_used(),
    {
        match op {
            FactorBinaryOp::Mul => self.out.append("*"),
            FactorBinaryOp::Div => self.out.append("/"),
        }
    }

    /// Appends the text of each statement, one line each.
    pub fn unparse_stmts(&mut self, stmts: &[Stmt])
        requires
            old(self).wf(),
        ensures
            final(self).wf(),
            final(self).spec_literals() == old(self).spec_literals(),
            ({
                let (t, k) = stmts_text(
                    stmts@,
                    0,
                    old(self).spec_literals(),
                    old(self).spec_used(),
                );
                &&& final(self).spec_output() == old(self).spec_output() + t
                &&& final(self).spec_used() == k
            }),
    {
        let mut i: usize = 0;
        while i < stmts.len()
            invariant
                self.wf(),
                self.literals@ == old(self).literals@,
                0 <= i <= stmts@.len(),
                ({
                    let (t0, k0) = stmts_text(stmts@, 0, self.literals@, old(self).used as nat);
                    let (ti, ki) = stmts_text(stmts@, i as int, self.literals@, self.used as nat);
                    old(self).out@ + t0 == self.out@ + ti && k0 == ki
                }),
            decreases stmts@.len() - i,
        {
            let ghost before = self.out@;
            let ghost k = self.used as nat;
            self.unparse_stmt(&stmts[i]);
            assert(before + stmts_text(stmts@, i as int, self.literals@, k).0 =~= self.out@
                + stmts_text(stmts@, i + 1, self.literals@, self.used as nat).0);
            i = i + 1;
        }
        assert(self.out@ + stmts_text(stmts@, i as int, self.literals@, self.used as nat).0
            =~= self.out@);
    }

    /// Appends the text of a statement, one line.
    pub fn unparse_stmt(&mut self, stmt: &Stmt)
        requires
            old(self).wf(),
        ensures
            final(self).wf(),
            final(self).spec_literals() == old(self).spec_literals(),
            ({
                let (t, k) = stmt_text(stmt, old(self).spec_literals(), old(self).spec_used());
                &&& final(self).spec_output() == old(self).spec_output() + t
                &&& final(self).spec_used() == k
            }),
    {
        let ghost o = self.out@;
        match stmt {
            Stmt::Let(name, _, e) => {
                self.out.append("let ");
                self.out.append(name.as_str());
                self.out.append(" = ");
                self.unparse_expr(e);
                self.out.append("\n");
            },
            Stmt::Fun(name, func) => {
                self.out.append("fun ");
                self.out.append(name.as_str());
                self.out.append("(");
                let ghost names = func.params@.map_values(|p: crate::ast::Param| p.name@);
                let ghost mid = self.out@;
                let mut i: usize = 0;
                while i < func.params.len()
                    invariant
                        self.wf(),
                        self.literals@ == old(self).literals@,
                        self.used == old(self).used,
                        0 <= i <= func.params@.len(),
                        names == func.params@.map_values(|p: crate::ast::Param| p.name@),
                        mid + params_text(names, 0) == self.out@ + params_text(names, i as int),
                    decreases func.params@.len() - i,
                {
                    let ghost before = self.out@;
                    if i > 0 {
                        self.out.append(", ");
                    }
                    self.out.append(func.params[i].name.as_str());
                    assert(before + params_text(names, i as int) =~= self.out@ + params_text(
                        names,
                        i + 1,
                    ));
                    i = i + 1;
                }
                assert(self.out@ + params_text(names, i as int) =~= self.out@);
                self.out.append(") = ");
                self.unparse_expr(&func.body);
                self.out.append("\n");
            },
        }
        assert(self.out@ =~= o + stmt_text(stmt, self.literals@, old(self).used as nat).0);
    }

    /// Appends the text of an expression.
    pub fn unparse_expr(&mut self, expr: &Expr)
        requires
            old(self).wf(),
        ensures
            final(self).wf(),
            final(self).spec_literals() == old(self).spec_literals(),
            ({
                let (t, k) = expr_text(expr, old(self).spec_literals(), old(self).spec_used());
                &&& final(self).spec_output() == old(self).spec_output() + t
                &&& final(self).spec_used() == k
            }),
        decreases expr, 0int,
    {
        let ghost o = self.out@;
        match expr {
            Expr::Factor(f) => self.unparse_factor(f),
            Expr::BinaryOp { op, lhs, rhs } => {
                self.unparse_expr(lhs);
                self.out.append(" ");
                self.unparse_term_binary_op(op);
                self.out.append(" ");
                self.unparse_expr(rhs);
                assert(self.out@ =~= o + expr_text(expr, self.literals@, old(self).used as nat).0);
            },
        }
    }

    /// Appends the text of a factor.
    pub fn unparse_factor(&mut self, factor: &Factor)
        requires
            old(self).wf(),
        ensures
            final(self).wf(),
            final(self).spec_literals() == old(self).spec_literals(),
            ({
                let (t, k) = factor_text(factor, old(self).spec_literals(), old(self).spec_used());
                &&& final(self).spec_output() == old(self).spec_output() + t
                &&& final(self).spec_used() == k
            }),
        decreases factor, 0int,
    {
        let ghost o = self.out@;
        let ghost k0 = self.used as nat;
        match factor {
            Factor::Literal(_) => {
                if self.used < self.literals.len() {
                    self.out.append(self.literals[self.used].as_str());
                    self.used = self.used + 1;
                } else {
                    self.out.append("_");
                }
            },
            Factor::Variable(name) => {
                self.out.append(name.as_str());
            },
            Factor::Group(e) => {
                self.out.append("(");
                self.unparse_expr(e);
                self.out.append(")");
            },
            Factor::BinaryOp { op, lhs, rhs } => {
                self.unparse_factor(lhs);
                self.out.append(" ");
                self.unparse_factor_binary_op(op);
                self.out.append(" ");
                self.unparse_factor(rhs);
            },
            Factor::Call(callee, args) => {
                self.unparse_factor(callee);
                self.out.append("(");
                self.unparse_args(args);
                self.out.append(")");
            },
            Factor::Timeout { milliseconds, expr } => {
                self.out.append("timeout(");
                push_decimal(&mut self.out, *milliseconds);
                self.out.append(", ");
                self.unparse_expr(expr);
                self.out.append(")");
            },
            Factor::Yield(e) => {
                self.out.append("yield(");
                self.unparse_expr(e);
                self.out.append(")");
            },
        }
        assert(self.out@ =~= o + factor_text(factor, self.literals@, k0).0);
    }

    fn unparse_args(&mut self, args: &Vec<Expr>)
        requires
            old(self).wf(),
        ensures
            final(self).wf(),
            final(self).spec_literals() == old(self).spec_literals(),
            ({
                let (t, k) = args_text(args, 0, old(self).spec_literals(), old(self).spec_used());
                &&& final(self).spec_output() == old(self).spec_output() + t
                &&& final(self).spec_used() == k
            }),
        decreases args, 0int,
    {
        let mut i: usize = 0;
        while i < args.len()
            invariant
                self.wf(),
                self.literals@ == old(self).literals@,
                0 <= i <= args@.len(),
                ({
                    let (t0, k0) = args_text(args, 0, self.literals@, old(self).used as nat);
                    let (ti, ki) = args_text(args, i as int, self.literals@, self.used as nat);
                    old(self).out@ + t0 == self.out@ + ti && k0 == ki
                }),
            decreases args@.len() - i,
        {
            let ghost before = self.out@;
            let ghost k = self.used as nat;
            if i > 0 {
                self.out.append(", ");
            }
            self.unparse_expr(&args[i]);
            assert(before + args_text(args, i as int, self.literals@, k).0 =~= self.out@
                + args_text(args, i + 1, self.literals@, self.used as nat).0);
            i = i + 1;
        }
        assert(self.out@ + args_text(args, i as int, self.literals@, self.used as nat).0
            =~= self.out@);
    }
}

} // verus!
