//! Static type checking. A program that passes is well typed: every
//! arithmetic operand is a number, and every call applies a function to as
//! many arguments as it has parameters, each of the parameter's type.
use vstd::prelude::*;

use crate::ast::{Expr, Factor, Param, Stmt, Type};
use crate::env::{
    keys_unique, lemma_map_of_absent, lemma_map_of_index, lemma_map_of_update, lookup, map_of,
};

verus! {

/// The mathematical form of a [`Type`].
pub enum Ty {
    Number,
    Arrow(Seq<Ty>, Box<Ty>),
}

impl Type {
    /// The mathematical form of this type.
    pub open spec fn ty(&self) -> Ty
        decreases self,
    {
        match self {
            Type::Number => Ty::Number,
            Type::Arrow(ps, r) => Ty::Arrow(
                Seq::new(
                    ps@.len(),
                    |i: int|
                        if 0 <= i < ps@.len() {
                            ps@[i].ty()
                        } else {
                            Ty::Number
                        },
                ),
                Box::new(r.ty()),
            ),
        }
    }
}

/// The mathematical form of a [`TypeError`].
pub enum Fault {
    Mismatch { expected: Ty, found: Ty },
    ReturnMismatch { annotated: Ty, found: Ty },
    Undefined(Seq<char>),
    ExpectedFunction(Ty),
    ArityMismatch { expected: nat, found: nat },
    MissingAnnotation(Seq<char>),
}

#[derive(Debug)]
pub enum TypeError {
    /// A value of one type where another was required.
    Mismatch { expected: Type, found: Type },
    /// A function body whose type differs from the annotated return type.
    ReturnMismatch { annotated: Type, found: Type },
    /// A variable bound nowhere in scope.
    Undefined(String),
    /// A call of something that is not a function.
    ExpectedFunction(Type),
    /// A call with a number of arguments other than the number of
    /// parameters.
    ArityMismatch { expected: usize, found: usize },
    /// A function parameter without a type annotation.
    MissingAnnotation(String),
}

impl TypeError {
    pub open spec fn fault(&self) -> Fault {
        match self {
            TypeError::Mismatch { expected, found } => Fault::Mismatch {
                expected: expected.ty(),
                found: found.ty(),
            },
            TypeError::ReturnMismatch { annotated, found } => Fault::ReturnMismatch {
                annotated: annotated.ty(),
                found: found.ty(),
            },
            TypeError::Undefined(x) => Fault::Undefined(x@),
            TypeError::ExpectedFunction(t) => Fault::ExpectedFunction(t.ty()),
            TypeError::ArityMismatch { expected, found } => Fault::ArityMismatch {
                expected: *expected as nat,
                found: *found as nat,
            },
            TypeError::MissingAnnotation(x) => Fault::MissingAnnotation(x@),
        }
    }
}

/// The executable result `r` is the mathematical result `s`.
pub open spec fn agrees(r: Result<Type, TypeError>, s: Result<Ty, Fault>) -> bool {
    match (r, s) {
        (Ok(t), Ok(u)) => t.ty() == u,
        (Err(e), Err(f)) => e.fault() == f,
        _ => false,
    }
}

/// Both operands of an arithmetic operator must be numbers.
pub open spec fn numeric(t1: Ty, t2: Ty) -> Result<Ty, Fault> {
    if t1 != Ty::Number {
        Err(Fault::Mismatch { expected: Ty::Number, found: t1 })
    } else if t2 != Ty::Number {
        Err(Fault::Mismatch { expected: Ty::Number, found: t2 })
    } else {
        Ok(Ty::Number)
    }
}

/// The type of an expression in the environment `env`.
pub open spec fn expr_type(env: Map<Seq<char>, Ty>, e: &Expr) -> Result<Ty, Fault>
    decreases e, 0int,
{
    match e {
        Expr::Factor(f) => factor_type(env, f),
        Expr::BinaryOp { lhs, rhs, .. } => match expr_type(env, lhs) {
            Err(x) => Err(x),
            Ok(t1) => match expr_type(env, rhs) {
                Err(x) => Err(x),
                Ok(t2) => numeric(t1, t2),
            },
        },
    }
}

/// The type of a factor in the environment `env`.
pub open spec fn factor_type(env: Map<Seq<char>, Ty>, f: &Factor) -> Result<Ty, Fault>
    decreases f, 0int,
{
    match f {
        Factor::Literal(_) => Ok(Ty::Number),
        Factor::Variable(x) => match lookup(env, x@) {
            Some(t) => Ok(t),
            None => Err(Fault::Undefined(x@)),
        },
        Factor::Group(e) => expr_type(env, e),
        Factor::BinaryOp { lhs, rhs, .. } => match factor_type(env, lhs) {
            Err(x) => Err(x),
            Ok(t1) => match factor_type(env, rhs) {
                Err(x) => Err(x),
                Ok(t2) => numeric(t1, t2),
            },
        },
        Factor::Call(callee, args) => match factor_type(env, callee) {
            Err(x) => Err(x),
            Ok(Ty::Arrow(ps, r)) => if ps.len() != args@.len() {
                Err(Fault::ArityMismatch { expected: ps.len(), found: args@.len() })
            } else {
                match args_fault(env, ps, args, 0) {
                    Some(x) => Err(x),
                    None => Ok(*r),
                }
            },
            Ok(t) => Err(Fault::ExpectedFunction(t)),
        },
        Factor::Timeout { expr, .. } => expr_type(env, expr),
        Factor::Yield(e) => expr_type(env, e),
    }
}

/// The first fault among `args[i..]` checked in order against the
/// parameter types `ps`, if any.
pub open spec fn args_fault(env: Map<Seq<char>, Ty>, ps: Seq<Ty>, args: &Vec<Expr>, i: int) -> Option<
    Fault,
>
    decreases args, args@.len() - i,
{
    if i < 0 || i >= args@.len() {
        None
    } else {
        match expr_type(env, &args@[i]) {
            Err(x) => Some(x),
            Ok(t) => if t != ps[i] {
                Some(Fault::Mismatch { expected: ps[i], found: t })
            } else {
                args_fault(env, ps, args, i + 1)
            },
        }
    }
}

/// The name of the first parameter from `i` on without an annotation.
pub open spec fn first_missing(ps: Seq<Param>, i: int) -> Option<Seq<char>>
    decreases ps.len() - i,
{
    if i < 0 || i >= ps.len() {
        None
    } else if ps[i].ty is None {
        Some(ps[i].name@)
    } else {
        first_missing(ps, i + 1)
    }
}

pub open spec fn param_ty(p: Param) -> Ty {
    match p.ty {
        Some(t) => t.ty(),
        None => Ty::Number,
    }
}

pub open spec fn param_tys(ps: Seq<Param>) -> Seq<Ty> {
    Seq::new(ps.len(), |i: int| param_ty(ps[i]))
}

/// `env` with each parameter bound in order to its annotated type.
pub open spec fn bind_params(env: Map<Seq<char>, Ty>, ps: Seq<Param>) -> Map<Seq<char>, Ty>
    decreases ps.len(),
{
    if ps.len() == 0 {
        env
    } else {
        bind_params(env, ps.drop_last()).insert(ps.last().name@, param_ty(ps.last()))
    }
}

/// The environment after a statement, or the fault that rejects it. A
/// function's body is checked with its parameters in scope; its type is
/// bound after the body is checked, so a function cannot name itself.
pub open spec fn stmt_env(env: Map<Seq<char>, Ty>, s: &Stmt) -> Result<Map<Seq<char>, Ty>, Fault> {
    match s {
        Stmt::Let(x, ann, e) => match expr_type(env, e) {
            Err(f) => Err(f),
            Ok(t) => match ann {
                Some(a) => if a.ty() != t {
                    Err(Fault::Mismatch { expected: a.ty(), found: t })
                } else {
                    Ok(env.insert(x@, t))
                },
                None => Ok(env.insert(x@, t)),
            },
        },
        Stmt::Fun(x, func) => match first_missing(func.params@, 0) {
            Some(n) => Err(Fault::MissingAnnotation(n)),
            None => match expr_type(bind_params(env, func.params@), &func.body) {
                Err(f) => Err(f),
                Ok(bt) => match &func.return_ty {
                    Some(r) => if r.ty() != bt {
                        Err(Fault::ReturnMismatch { annotated: r.ty(), found: bt })
                    } else {
                        Ok(env.insert(x@, Ty::Arrow(param_tys(func.params@), Box::new(bt))))
                    },
                    None => Ok(env.insert(x@, Ty::Arrow(param_tys(func.params@), Box::new(bt)))),
                },
            },
        },
    }
}

/// Checking `stmts[i..]` in order, stopping at the first fault: the
/// outcome and the environment reached.
pub open spec fn stmts_from(env: Map<Seq<char>, Ty>, stmts: Seq<Stmt>, i: int) -> (
    Result<(), Fault>,
    Map<Seq<char>, Ty>,
)
    decreases stmts.len() - i,
{
    if i < 0 || i >= stmts.len() {
        (Ok(()), env)
    } else {
        match stmt_env(env, &stmts[i]) {
            Ok(next) => stmts_from(next, stmts, i + 1),
            Err(f) => (Err(f), env),
        }
    }
}

/// The mathematical forms of a list of types.
pub open spec fn tys(ps: Seq<Type>) -> Seq<Ty> {
    Seq::new(ps.len(), |i: int| ps[i].ty())
}

proof fn lemma_arrow(t: &Type)
    ensures
        t matches Type::Arrow(ps, r) ==> t.ty() == Ty::Arrow(tys(ps@), Box::new(r.ty())),
{
    if let Type::Arrow(ps, r) = t {
        assert(t.ty()->Arrow_0 =~= tys(ps@));
    }
}

/// An independent copy of a type.
pub fn copy_type(t: &Type) -> (r: Type)
    ensures
        r.ty() == t.ty(),
    decreases t, 1int,
{
    match t {
        Type::Number => Type::Number,
        Type::Arrow(ps, res) => {
            let out = copy_types(ps);
            let r = Type::Arrow(out, Box::new(copy_type(res)));
            proof {
                lemma_arrow(t);
                lemma_arrow(&r);
                assert(tys(out@) =~= tys(ps@));
            }
            r
        },
    }
}

fn copy_types(ps: &Vec<Type>) -> (r: Vec<Type>)
    ensures
        tys(r@) == tys(ps@),
    decreases ps, 0int,
{
    let mut out: Vec<Type> = Vec::new();
    let mut i: usize = 0;
    while i < ps.len()
        invariant
            0 <= i <= ps@.len(),
            out@.len() == i,
            forall|j: int| 0 <= j < i ==> #[trigger] out@[j].ty() == ps@[j].ty(),
        decreases ps@.len() - i,
    {
        let c = copy_type(&ps[i]);
        out.push(c);
        i = i + 1;
    }
    assert(tys(out@) =~= tys(ps@));
    out
}

/// Whether two types are the same.
pub fn same_type(a: &Type, b: &Type) -> (r: bool)
    ensures
        r == (a.ty() == b.ty()),
    decreases a, 1int,
{
    proof {
        lemma_arrow(a);
        lemma_arrow(b);
    }
    match (a, b) {
        (Type::Number, Type::Number) => true,
        (Type::Arrow(pa, ra), Type::Arrow(pb, rb)) => {
            if !same_types(pa, pb) {
                return false;
            }
            same_type(ra, rb)
        },
        _ => false,
    }
}

fn same_types(pa: &Vec<Type>, pb: &Vec<Type>) -> (r: bool)
    ensures
        r == (tys(pa@) == tys(pb@)),
    decreases pa, 0int,
{
    if pa.len() != pb.len() {
        assert(tys(pa@).len() != tys(pb@).len());
        return false;
    }
    let mut i: usize = 0;
    while i < pa.len()
        invariant
            0 <= i <= pa@.len(),
            pa@.len() == pb@.len(),
            forall|j: int| 0 <= j < i ==> #[trigger] pa@[j].ty() == pb@[j].ty(),
        decreases pa@.len() - i,
    {
        if !same_type(&pa[i], &pb[i]) {
            assert(tys(pa@)[i as int] != tys(pb@)[i as int]);
            return false;
        }
        i = i + 1;
    }
    assert(tys(pa@) =~= tys(pb@));
    true
}

/// The types of variables in scope.
#[derive(Debug)]
pub struct TypeEnv {
    entries: Vec<(String, Type)>,
}

pub open spec fn ty_entries(s: Seq<(String, Type)>) -> Seq<(String, Ty)> {
    s.map_values(|e: (String, Type)| (e.0, e.1.ty()))
}

impl View for TypeEnv {
    type V = Map<Seq<char>, Ty>;

    closed spec fn view(&self) -> Map<Seq<char>, Ty> {
        map_of(ty_entries(self.entries@))
    }
}

impl TypeEnv {
    pub closed spec fn wf(&self) -> bool {
        keys_unique(self.entries@)
    }

    pub fn new() -> (r: TypeEnv)
        ensures
            r.wf(),
            r@ == Map::<Seq<char>, Ty>::empty(),
    {
        let r = TypeEnv { entries: Vec::new() };
        assert(ty_entries(r.entries@) =~= Seq::<(String, Ty)>::empty());
        r
    }

    /// The type of `name`, if it is in scope.
    pub fn find(&self, name: &String) -> (r: Option<&Type>)
        requires
            self.wf(),
        ensures
            match r {
                Some(t) => lookup(self@, name@) == Some(t.ty()),
                None => lookup(self@, name@) is None,
            },
    {
        let ghost te = ty_entries(self.entries@);
        assert(keys_unique(te));
        let mut i: usize = 0;
        while i < self.entries.len()
            invariant
                0 <= i <= self.entries@.len(),
                te == ty_entries(self.entries@),
                keys_unique(te),
                forall|j: int| 0 <= j < i ==> self.entries@[j].0@ != name@,
            decreases self.entries@.len() - i,
        {
            if self.entries[i].0 == *name {
                proof {
                    lemma_map_of_index(te, i as int);
                }
                return Some(&self.entries[i].1);
            }
            i = i + 1;
        }
        proof {
            lemma_map_of_absent(te, name@);
        }
        None
    }

    /// Binds `name` to `t`, replacing any earlier binding of `name`.
    pub fn insert(&mut self, name: String, t: Type)
        requires
            old(self).wf(),
        ensures
            final(self).wf(),
            final(self)@ == old(self)@.insert(name@, t.ty()),
    {
        let mut i: usize = 0;
        while i < self.entries.len()
            invariant
                self.wf(),
                self.entries@ == old(self).entries@,
                0 <= i <= self.entries@.len(),
                forall|j: int| 0 <= j < i ==> self.entries@[j].0@ != name@,
            decreases self.entries@.len() - i,
        {
            if self.entries[i].0 == name {
                let ghost s = self.entries@;
                let ghost n = name@;
                let ghost tv = t.ty();
                proof {
                    assert(keys_unique(ty_entries(s)));
                    lemma_map_of_update(ty_entries(s), i as int, (name, tv));
                }
                self.entries.set(i, (name, t));
                assert(ty_entries(self.entries@) =~= ty_entries(s).update(i as int, (name, tv)));
                assert forall|a: int, b: int| 0 <= a < b < self.entries@.len() implies
                    self.entries@[a].0@ != self.entries@[b].0@ by {
                    assert(s[i as int].0@ == n);
                }
                return;
            }
            i = i + 1;
        }
        let ghost s = self.entries@;
        let ghost tv = t.ty();
        self.entries.push((name, t));
        assert(ty_entries(self.entries@).drop_last() =~= ty_entries(s));
    }

    /// An independent copy of this environment.
    pub fn copy(&self) -> (r: TypeEnv)
        requires
            self.wf(),
        ensures
            r.wf(),
            r@ == self@,
    {
        let mut entries: Vec<(String, Type)> = Vec::new();
        let mut i: usize = 0;
        while i < self.entries.len()
            invariant
                0 <= i <= self.entries@.len(),
                entries@.len() == i,
                forall|j: int| 0 <= j < i ==> #[trigger] entries@[j].0 == self.entries@[j].0,
                forall|j: int| 0 <= j < i ==> #[trigger] entries@[j].1.ty() == self.entries@[j].1.ty(),
            decreases self.entries@.len() - i,
        {
            let name = self.entries[i].0.clone();
            let t = copy_type(&self.entries[i].1);
            entries.push((name, t));
            i = i + 1;
        }
        let r = TypeEnv { entries };
        assert(ty_entries(r.entries@) =~= ty_entries(self.entries@));
        r
    }
}

/// The type of `e` in `env`.
pub fn type_of_expr(env: &TypeEnv, e: &Expr) -> (r: Result<Type, TypeError>)
    requires
        env.wf(),
    ensures
        agrees(r, expr_type(env@, e)),
    decreases e, 0int,
{
    match e {
        Expr::Factor(f) => type_of_factor(env, f),
        Expr::BinaryOp { lhs, rhs, .. } => {
            let t1 = match type_of_expr(env, lhs) {
                Ok(t) => t,
                Err(x) => {
                    return Err(x);
                },
            };
            let t2 = match type_of_expr(env, rhs) {
                Ok(t) => t,
                Err(x) => {
                    return Err(x);
                },
            };
            check_numeric(t1, t2)
        },
    }
}

fn check_numeric(t1: Type, t2: Type) -> (r: Result<Type, TypeError>)
    ensures
        agrees(r, numeric(t1.ty(), t2.ty())),
{
    if !matches!(t1, Type::Number) {
        Err(TypeError::Mismatch { expected: Type::Number, found: t1 })
    } else if !matches!(t2, Type::Number) {
        Err(TypeError::Mismatch { expected: Type::Number, found: t2 })
    } else {
        Ok(Type::Number)
    }
}

/// The type of `f` in `env`.
pub fn type_of_factor(env: &TypeEnv, f: &Factor) -> (r: Result<Type, TypeError>)
    requires
        env.wf(),
    ensures
        agrees(r, factor_type(env@, f)),
    decreases f, 0int,
{
    match f {
        Factor::Literal(_) => Ok(Type::Number),
        Factor::Variable(x) => match env.find(x) {
            Some(t) => Ok(copy_type(t)),
            None => Err(TypeError::Undefined(x.clone())),
        },
        Factor::Group(e) => type_of_expr(env, e),
        Factor::BinaryOp { lhs, rhs, .. } => {
            let t1 = match type_of_factor(env, lhs) {
                Ok(t) => t,
                Err(x) => {
                    return Err(x);
                },
            };
            let t2 = match type_of_factor(env, rhs) {
                Ok(t) => t,
                Err(x) => {
                    return Err(x);
                },
            };
            check_numeric(t1, t2)
        },
        Factor::Call(callee, args) => {
            let ft = match type_of_factor(env, callee) {
                Ok(t) => t,
                Err(x) => {
                    return Err(x);
                },
            };
            match ft {
                Type::Arrow(ps, r) => {
                    proof {
                        lemma_arrow(&ft);
                    }
                    if ps.len() != args.len() {
                        return Err(
                            TypeError::ArityMismatch { expected: ps.len(), found: args.len() },
                        );
                    }
                    match check_args(env, &ps, args) {
                        Some(x) => Err(x),
                        None => Ok(*r),
                    }
                },
                t => Err(TypeError::ExpectedFunction(t)),
            }
        },
        Factor::Timeout { expr, .. } => type_of_expr(env, expr),
        Factor::Yield(e) => type_of_expr(env, e),
    }
}

/// Checks each argument in order against its parameter's type: the first
/// failure, if any.
fn check_args(env: &TypeEnv, ps: &Vec<Type>, args: &Vec<Expr>) -> (r: Option<TypeError>)
    requires
        env.wf(),
        ps@.len() == args@.len(),
    ensures
        match args_fault(env@, tys(ps@), args, 0) {
            Some(f) => r matches Some(e) && e.fault() == f,
            None => r is None,
        },
    decreases args, 0int,
{
    let mut i: usize = 0;
    while i < args.len()
        invariant
            env.wf(),
            0 <= i <= args@.len(),
            ps@.len() == args@.len(),
            args_fault(env@, tys(ps@), args, 0) == args_fault(env@, tys(ps@), args, i as int),
        decreases args@.len() - i,
    {
        let at = match type_of_expr(env, &args[i]) {
            Ok(t) => t,
            Err(x) => {
                return Some(x);
            },
        };
        if !same_type(&at, &ps[i]) {
            return Some(TypeError::Mismatch { expected: copy_type(&ps[i]), found: at });
        }
        i = i + 1;
    }
    None
}

/// Checks programs statement by statement, keeping the types of the
/// variables bound so far.
#[derive(Debug)]
pub struct TypeChecker {
    bindings: TypeEnv,
}

impl TypeChecker {
    pub closed spec fn spec_bindings(&self) -> Map<Seq<char>, Ty> {
        self.bindings@
    }

    pub closed spec fn wf(&self) -> bool {
        self.bindings.wf()
    }

    pub fn new() -> (r: TypeChecker)
        ensures
            r.wf(),
            r.spec_bindings() == Map::<Seq<char>, Ty>::empty(),
    {
        TypeChecker { bindings: TypeEnv::new() }
    }

    /// The types of the variables bound so far.
    pub fn bindings(&self) -> (r: &TypeEnv)
        requires
            self.wf(),
        ensures
            r.wf(),
            r@ == self.spec_bindings(),
    {
        &self.bindings
    }

    /// The type of an expression in the current scope.
    pub fn check_expr(&self, expr: &Expr) -> (r: Result<Type, TypeError>)
        requires
            self.wf(),
        ensures
            agrees(r, expr_type(self.spec_bindings(), expr)),
    {
        type_of_expr(&self.bindings, expr)
    }

    /// The type of a factor in the current scope.
    pub fn check_factor(&self, factor: &Factor) -> (r: Result<Type, TypeError>)
        requires
            self.wf(),
        ensures
            agrees(r, factor_type(self.spec_bindings(), factor)),
    {
        type_of_factor(&self.bindings, factor)
    }

    /// Checks a statement and, where it passes, binds its name.
    pub fn check_stmt(&mut self, stmt: &Stmt) -> (r: Result<(), TypeError>)
        requires
            old(self).wf(),
        ensures
            final(self).wf(),
            match stmt_env(old(self).spec_bindings(), stmt) {
                Ok(m) => r is Ok && final(self).spec_bindings() == m,
                Err(f) => r matches Err(e) && e.fault() == f && final(self).spec_bindings()
                    == old(self).spec_bindings(),
            },
    {
        match stmt {
            Stmt::Let(x, ann, e) => {
                let t = match type_of_expr(&self.bindings, e) {
                    Ok(t) => t,
                    Err(f) => {
                        return Err(f);
                    },
                };
                match ann {
                    Some(a) => {
                        if !same_type(a, &t) {
                            return Err(TypeError::Mismatch { expected: copy_type(a), found: t });
                        }
                    },
                    None => {},
                }
                self.bindings.insert(x.clone(), t);
                Ok(())
            },
            Stmt::Fun(x, func) => {
                let ps = &func.params;
                let mut i: usize = 0;
                while i < ps.len()
                    invariant
                        self.wf(),
                        self.spec_bindings() == old(self).spec_bindings(),
                        *stmt matches Stmt::Fun(_, f) && f.params@ == ps@,
                        0 <= i <= ps@.len(),
                        first_missing(ps@, 0) == first_missing(ps@, i as int),
                        forall|j: int| 0 <= j < i ==> (#[trigger] ps@[j]).ty is Some,
                    decreases ps@.len() - i,
                {
                    if ps[i].ty.is_none() {
                        assert(first_missing(ps@, i as int) == Some(ps@[i as int].name@));
                        return Err(TypeError::MissingAnnotation(ps[i].name.clone()));
                    }
                    i = i + 1;
                }
                let mut body_env = self.bindings.copy();
                let mut pts: Vec<Type> = Vec::new();
                let mut k: usize = 0;
                while k < ps.len()
                    invariant
                        self.wf(),
                        self.spec_bindings() == old(self).spec_bindings(),
                        body_env.wf(),
                        0 <= k <= ps@.len(),
                        forall|j: int| 0 <= j < ps@.len() ==> (#[trigger] ps@[j]).ty is Some,
                        body_env@ == bind_params(old(self).bindings@, ps@.take(k as int)),
                        pts@.len() == k,
                        forall|j: int| 0 <= j < k ==> #[trigger] pts@[j].ty() == param_ty(ps@[j]),
                    decreases ps@.len() - k,
                {
                    proof {
                        assert(ps@.take(k + 1).drop_last() =~= ps@.take(k as int));
                    }
                    let t = match &ps[k].ty {
                        Some(t) => t,
                        None => {
                            return Err(TypeError::MissingAnnotation(ps[k].name.clone()));
                        },
                    };
                    body_env.insert(ps[k].name.clone(), copy_type(t));
                    pts.push(copy_type(t));
                    k = k + 1;
                }
                proof {
                    assert(ps@.take(k as int) =~= ps@);
                }
                let bt = match type_of_expr(&body_env, &func.body) {
                    Ok(t) => t,
                    Err(f) => {
                        return Err(f);
                    },
                };
                match &func.return_ty {
                    Some(r) => {
                        if !same_type(r, &bt) {
                            return Err(TypeError::ReturnMismatch { annotated: copy_type(r), found: bt });
                        }
                    },
                    None => {},
                }
                let ft = Type::Arrow(pts, Box::new(bt));
                proof {
                    lemma_arrow(&ft);
                    assert(tys(pts@) =~= param_tys(ps@));
                }
                self.bindings.insert(x.clone(), ft);
                Ok(())
            },
        }
    }

    /// Checks statements in order, stopping at the first that fails; the
    /// statements before it keep their bindings.
    pub fn check_stmts(&mut self, stmts: &[Stmt]) -> (r: Result<(), TypeError>)
        requires
            old(self).wf(),
        ensures
            final(self).wf(),
            final(self).spec_bindings() == stmts_from(old(self).spec_bindings(), stmts@, 0).1,
            match stmts_from(old(self).spec_bindings(), stmts@, 0).0 {
                Ok(_) => r is Ok,
                Err(f) => r matches Err(e) && e.fault() == f,
            },
    {
        let mut i: usize = 0;
        while i < stmts.len()
            invariant
                self.wf(),
                0 <= i <= stmts@.len(),
                stmts_from(old(self).spec_bindings(), stmts@, 0) == stmts_from(
                    self.spec_bindings(),
                    stmts@,
                    i as int,
                ),
            decreases stmts@.len() - i,
        {
            match self.check_stmt(&stmts[i]) {
                Ok(()) => {},
                Err(e) => {
                    return Err(e);
                },
            }
            i = i + 1;
        }
        Ok(())
    }
}

} // verus!
