//! A small instrumentable tree-walking evaluator for an expression language
//! with `let` bindings, first-class closures, a bounded timeout and a yield
//! point, together with a static type checker and an unparser for its trees.
//!
//! Evaluation does no I/O of its own. Everything that lies outside the
//! evaluator (the instrumentation hooks, floating-point arithmetic, the clock
//! and the scheduler) is asked of the host through a [`eval::Request`] and
//! answered with an [`eval::Answer`]; evaluation is a deterministic function
//! of the program and of the answers received so far.
pub mod ast;
pub mod check;
pub mod env;
pub mod eval;
pub mod evaluator;
pub mod laws;
pub mod unparse;
