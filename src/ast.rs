//! Syntax trees. Programs are built directly as trees and never change
//! during evaluation.
use vstd::prelude::*;

verus! {

/// A number of the language: the bit pattern of an IEEE-754 binary64 value.
#[derive(Clone, Copy, Debug, PartialEq, Eq, Structural)]
pub struct Number {
    pub bits: u64,
}

/// The four arithmetic operations.
#[derive(Clone, Copy, Debug, PartialEq, Eq, Structural)]
pub enum Operator {
    Add,
    Sub,
    Mul,
    Div,
}

/// Operators that join two expressions.
#[derive(Clone, Copy, Debug, PartialEq, Eq, Structural)]
pub enum TermBinaryOp {
    Add,
    Sub,
}

/// Operators that join two factors.
#[derive(Clone, Copy, Debug, PartialEq, Eq, Structural)]
pub enum FactorBinaryOp {
    Mul,
    Div,
}

/// A static type: a number, or a function from parameter types to a result.
#[derive(Debug)]
pub enum Type {
    Number,
    Arrow(Vec<Type>, Box<Type>),
}

/// A function parameter, optionally annotated with its type.
#[derive(Debug)]
pub struct Param {
    pub name: String,
    pub ty: Option<Type>,
}

/// A function: its parameters in order and a single expression as body.
#[derive(Debug)]
pub struct Function {
    pub params: Vec<Param>,
    pub return_ty: Option<Type>,
    pub body: Expr,
}

#[derive(Debug)]
pub enum Stmt {
    /// Binds the value of the expression to the name in the current scope.
    Let(String, Option<Type>, Box<Expr>),
    /// Binds a closure over the current scope to the name. The closure
    /// captures the scope as it stands before its own binding, so the
    /// function cannot call itself by name.
    Fun(String, Box<Function>),
}

#[derive(Debug)]
pub enum Expr {
    Factor(Box<Factor>),
    BinaryOp { op: TermBinaryOp, lhs: Box<Expr>, rhs: Box<Expr> },
}

#[derive(Debug)]
pub enum Factor {
    Literal(Number),
    Variable(String),
    Group(Box<Expr>),
    BinaryOp { op: FactorBinaryOp, lhs: Box<Factor>, rhs: Box<Factor> },
    Call(Box<Factor>, Vec<Expr>),
    /// Evaluates the expression, giving up once more than the given number
    /// of milliseconds have passed. The time is checked at every node the
    /// expression evaluates and once more when it is done; giving up
    /// abandons the rest of the evaluation and undoes nothing.
    Timeout { milliseconds: u64, expr: Box<Expr> },
    /// Hands control to the scheduler, then evaluates the expression.
    Yield(Box<Expr>),
}

impl TermBinaryOp {
    pub open spec fn spec_operator(self) -> Operator {
        match self {
            TermBinaryOp::Add => Operator::Add,
            TermBinaryOp::Sub => Operator::Sub,
        }
    }

    pub fn operator(&self) -> (r: Operator)
        ensures
            r == self.spec_operator(),
    {
        match self {
            TermBinaryOp::Add => Operator::Add,
            TermBinaryOp::Sub => Operator::Sub,
        }
    }
}

impl FactorBinaryOp {
    pub open spec fn spec_operator(self) -> Operator {
        match self {
            FactorBinaryOp::Mul => Operator::Mul,
            FactorBinaryOp::Div => Operator::Div,
        }
    }

    pub fn operator(&self) -> (r: Operator)
        ensures
            r == self.spec_operator(),
    {
        match self {
            FactorBinaryOp::Mul => Operator::Mul,
            FactorBinaryOp::Div => Operator::Div,
        }
    }
}

} // verus!
