//! A tree-walking evaluator for a small dynamically typed scripting language.
//!
//! A parser, which is not part of this crate, hands over a program as a tree of
//! [`syntax::Stmt`] and [`syntax::Expr`] nodes. [`errorvisitor::scan`] reports the
//! first error placeholder the parser left in it; when there is none,
//! [`interpvisitor::evaluate`] runs the program and returns its value and the
//! lines it printed.
//!
//! Every executable function is verified: the evaluator is proved equal to the
//! interpreter written as spec functions in [`semantics`], over the models of
//! values ([`value::Val`]) and scopes ([`environment::FrameModel`]).
//!
//! Numbers are 64-bit integers: an operation whose exact result does not fit, or
//! a division that is not exact, yields an error value. Each evaluation takes a
//! limit that bounds the iterations of every loop and the depth of calls.

pub mod syntax;
pub mod value;
pub mod environment;
pub mod errorvisitor;
pub mod semantics;
pub mod interpvisitor;
